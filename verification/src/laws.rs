//! The laws of the handle layer, stated and proved over the same spec
//! functions the executable functions' contracts use.

use vstd::prelude::*;

use crate::engine::{
    as_raw_result, Engine, FatalError, Resolution, ResolveError,
};
use crate::locator::{RawVc, TraitTypeId, ValueTypeId};
use crate::value::{arc_id, arc_value, SharedReference};
use crate::vc::{ReadRef, Vc, VcValueType};

verus! {

/// Locator identity: equality of handles is equality of their locators, and
/// nothing else. Two handles over distinct locators are unequal — even if
/// their targets eventually hold equal values — and they can become equal
/// only by both resolving to one settled locator.
pub proof fn lemma_locator_identity<T>(e: Engine, a: Vc<T>, b: Vc<T>, ra: Vc<T>, rb: Vc<T>)
    requires
        a.node != b.node,
        e.resolve_spec(a.node) == Resolution::Done(ra.node),
        e.resolve_spec(b.node) == Resolution::Done(rb.node),
    ensures
        !vstd::std_specs::cmp::PartialEqSpec::eq_spec(&a, &b),
        ra.node == rb.node ==> vstd::std_specs::cmp::PartialEqSpec::eq_spec(&ra, &rb),
{
}

/// Resolution idempotence: resolving the result of a successful resolution
/// returns it unchanged, with no suspension and no failure.
pub proof fn lemma_resolution_idempotent<T>(e: Engine, h: Vc<T>, r1: Vc<T>)
    requires
        e.resolve_spec(h.node) == Resolution::Done(r1.node),
    ensures
        e.resolve_spec(r1.node) == Resolution::Done(r1.node),
{
    crate::engine::lemma_resolve_idempotent(e, h.node);
}

/// Immutability: two reads of the same resolved handle against the same
/// state yield snapshots that hold observably equal values and share one
/// underlying allocation — no copy is made per read.
pub proof fn lemma_read_immutable<T: VcValueType>(
    e: Engine,
    raw: RawVc,
    s: SharedReference,
    r1: ReadRef<T>,
    r2: ReadRef<T>,
)
    requires
        e.read_spec(raw, T::value_type_id_spec()) == Ok::<SharedReference, ResolveError>(s),
        arc_value(r1.shared.data) == arc_value(s.data),
        arc_id(r1.shared.data) == arc_id(s.data),
        arc_value(r2.shared.data) == arc_value(s.data),
        arc_id(r2.shared.data) == arc_id(s.data),
    ensures
        arc_value(r1.shared.data)@ == arc_value(r2.shared.data)@,
        arc_id(r1.shared.data) == arc_id(r2.shared.data),
{
}

/// Local scoping: a cell local to one execution is invalid when resolved or
/// read from any other execution — a reportable condition, never a value.
pub proof fn lemma_local_scoping(e: Engine, raw: RawVc, type_id: ValueTypeId)
    requires
        raw matches RawVc::LocalCell { execution, .. } && execution != e.current,
    ensures
        e.resolve_spec(raw) == Resolution::Invalid,
        e.read_spec(raw, type_id) == Err::<SharedReference, ResolveError>(
            ResolveError::InvalidReference,
        ),
{
}

/// Dynamic cast totality: when resolution succeeds, the target cell exists,
/// and the capability is registered, a capability cast returns a present
/// result exactly when the registry says the cell's concrete value type
/// implements the capability — otherwise an absent result, never a failure.
pub proof fn lemma_dynamic_cast_totality(
    e: Engine,
    raw: RawVc,
    trait_id: TraitTypeId,
    loc: RawVc,
    s: SharedReference,
)
    requires
        e.registry.trait_known(trait_id),
        e.resolve_spec(raw) == Resolution::Done(loc),
        e.cell_at_spec(loc) == Some(s),
    ensures
        e.trait_cast_spec(raw, trait_id) == (if e.registry.implements_spec(s.type_id, trait_id) {
            Ok::<Option<RawVc>, ResolveError>(Some(loc))
        } else {
            Ok::<Option<RawVc>, ResolveError>(None)
        }),
{
}

/// Fatal propagation: when the locator's backing task failed fatally, every
/// resolution, read, and dynamic cast built on it surfaces that same failure
/// rather than a value or an absent result.
pub proof fn lemma_fatal_propagation(
    e: Engine,
    task: usize,
    err: FatalError,
    trait_id: TraitTypeId,
    type_id: ValueTypeId,
)
    requires
        task < e.tasks@.len(),
        e.tasks@[task as int].output == crate::engine::OutputState::Failed(err),
    ensures
        ({
            let raw = RawVc::TaskOutput { task };
            &&& e.resolve_spec(raw) == Resolution::Failed(err)
            &&& as_raw_result(e.resolve_spec(raw)) == Err::<RawVc, ResolveError>(
                ResolveError::Fatal(err),
            )
            &&& e.read_spec(raw, type_id) == Err::<SharedReference, ResolveError>(
                ResolveError::Fatal(err),
            )
            &&& e.trait_cast_spec(raw, trait_id) == Err::<Option<RawVc>, ResolveError>(
                ResolveError::Fatal(err),
            )
            &&& e.value_cast_spec(raw, type_id) == Err::<Option<RawVc>, ResolveError>(
                ResolveError::Fatal(err),
            )
        }),
{
}

/// Fatal propagation through strong consistency: a fatal failure of any task
/// in the subgraph reachable from `root` defeats the subgraph's freedom from
/// fatal failures, under which the contracts of
/// [`Vc::resolve_strongly_consistent`] and [`Vc::strongly_consistent`] admit
/// only an outcome that surfaces a fatal failure of that subgraph — never a
/// value and never an absent result.
pub proof fn lemma_fatal_propagation_strongly_consistent(
    e: Engine,
    root: int,
    t: int,
    err: FatalError,
)
    requires
        e.in_subgraph(root, t),
        e.tasks@[t].output == crate::engine::OutputState::Failed(err),
    ensures
        !e.subgraph_fatal_free(root),
{
    assert(e.in_subgraph(root, t) && e.tasks@[t].output is Failed);
}

} // verus!
