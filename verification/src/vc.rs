//! The typed cell-reference handle.
//!
//! A `Vc<T>` is a copyable value holding exactly a node locator; the type
//! parameter is a compile-time tag with no runtime representation. Equality
//! is defined solely on the locator: two handles whose targets eventually
//! hold equal values but live at different locators are unequal until both
//! resolve to the same settled locator.

use core::marker::PhantomData;

use vstd::prelude::*;

use crate::engine::{Engine, OutputState, Resolution, ResolveError};
use crate::locator::{RawVc, TraitTypeId, ValueTypeId};
use crate::value::{arc_id, arc_value, value_eq, SharedReference, Value};

verus! {

/// The update mode a value type declares for persisted cell creation.
#[derive(Clone, Copy, Debug, PartialEq, Eq, Structural)]
pub enum CellMode {
    /// Every creation call allocates a fresh slot.
    New,
    /// Creation dedups by equality against a prior cell holding an
    /// observably equal value of the same type.
    Shared,
}

/// A concrete value type that can be stored in cells. Each implementing type
/// fixes a runtime type id, declares its cell-update mode, and says how its
/// values embed into the stored [`Value`] representation.
pub trait VcValueType: Sized {
    /// The runtime id of this value type.
    spec fn value_type_id_spec() -> ValueTypeId;

    fn value_type_id() -> (r: ValueTypeId)
        ensures
            r == Self::value_type_id_spec(),
    ;

    /// The cell-update mode this type declares.
    spec fn cell_mode_spec() -> CellMode;

    fn cell_mode() -> (r: CellMode)
        ensures
            r == Self::cell_mode_spec(),
    ;

    /// How a value of this type embeds into the stored representation.
    spec fn to_value_spec(self) -> Value;

    fn into_value(self) -> (v: Value)
        ensures
            v == self.to_value_spec(),
    ;

    /// Whether a stored representation holds a value of this type.
    spec fn of_value_spec(v: Value) -> bool;

    fn from_value(v: &Value) -> (r: Option<Self>)
        ensures
            r is Some <==> Self::of_value_spec(*v),
            r matches Some(t) ==> t.to_value_spec()@ == v@,
    ;

    /// The embedding round-trips: any stored representation observably equal
    /// to an embedded value of this type is recognized by `of_value_spec`,
    /// so reading it back recovers an observably equal value.
    proof fn embedding_roundtrip(t: Self, v: Value)
        requires
            v@ == t.to_value_spec()@,
        ensures
            Self::of_value_spec(v),
    ;
}

/// A capability set (interface) handles can be typed over. Each implementing
/// marker fixes the runtime id the registry files its implementations under.
pub trait VcValueTrait {
    /// The runtime id of this capability set.
    spec fn trait_type_id_spec() -> TraitTypeId;

    fn get_trait_type_id() -> (r: TraitTypeId)
        ensures
            r == Self::trait_type_id_spec(),
    ;
}

/// Compile-time evidence that `Self` implements the capability set `K`, so
/// that a handle over `Self` may be relabeled as a handle over `K` with no
/// runtime work.
pub trait Upcast<K> {

}

/// A Value Cell (`Vc` for short): a typed reference to a memoized
/// computation result. Copying a handle copies only the locator; the type
/// tag has no runtime representation.
#[must_use]
#[derive(Hash)]
pub struct Vc<T> {
    pub node: RawVc,
    pub _t: PhantomData<T>,
}

/// Only exists so that a pointer-style dereference of a handle has nothing
/// to resolve to: the handle deliberately exposes no pointer-arithmetic-style
/// operations, and values are reached through reads instead.
pub struct VcDeref<T> {
    pub _t: PhantomData<T>,
}

impl<T> Clone for Vc<T> {
    fn clone(&self) -> (r: Self)
        ensures
            r == *self,
    {
        Vc { node: self.node, _t: PhantomData }
    }
}

impl<T> Copy for Vc<T> {

}

impl<T> PartialEq for Vc<T> {
    /// Equality is defined solely on the locator.
    fn eq(&self, other: &Self) -> (r: bool)
        ensures
            r == (self.node == other.node),
    {
        self.node == other.node
    }
}

impl<T> Eq for Vc<T> {

}

impl<T> vstd::std_specs::cmp::PartialEqSpecImpl for Vc<T> {
    open spec fn obeys_eq_spec() -> bool {
        true
    }

    open spec fn eq_spec(&self, other: &Self) -> bool {
        self.node == other.node
    }
}

impl<T> From<RawVc> for Vc<T> {
    /// Derives a typed handle from a raw locator the scheduler assigned.
    fn from(node: RawVc) -> (r: Self)
        ensures
            r.node == node,
    {
        Vc { node, _t: PhantomData }
    }
}

impl<T> vstd::std_specs::convert::FromSpecImpl<RawVc> for Vc<T> {
    open spec fn obeys_from_spec() -> bool {
        true
    }

    open spec fn from_spec(node: RawVc) -> Self {
        Vc { node, _t: PhantomData }
    }
}

impl<T> Vc<T> where T: VcValueType {
    /// Stores a value as a cell of the current task or execution: a local
    /// cell when the current execution asks for local cells, and otherwise a
    /// persisted cell under the update mode the value type declares. The
    /// value's representation is normalized (shrunk) exactly once, here.
    pub fn cell_private(engine: &mut Engine, inner: T) -> (vc: Vc<T>)
        requires
            old(engine).wf(),
            old(engine).tasks@[old(engine).cur_task()].cells@.len() < usize::MAX,
            old(engine).executions@[old(engine).current as int].cells@.len() < usize::MAX,
        ensures
            final(engine).wf(),
            ({
                let v = inner.to_value_spec()@;
                let tid = T::value_type_id_spec();
                if old(engine).executions@[old(engine).current as int].local_cells {
                    Engine::local_cell_post(*old(engine), *final(engine), vc.node, tid, v)
                } else {
                    match T::cell_mode_spec() {
                        CellMode::New => Engine::new_cell_post(
                            *old(engine),
                            *final(engine),
                            vc.node,
                            tid,
                            v,
                        ),
                        CellMode::Shared => Engine::shared_cell_post(
                            *old(engine),
                            *final(engine),
                            vc.node,
                            tid,
                            v,
                        ),
                    }
                }
            }),
    {
        if engine.executions[engine.current].local_cells {
            Self::local_cell_private(engine, inner)
        } else {
            let type_id = T::value_type_id();
            let v = inner.into_value();
            let node = match T::cell_mode() {
                CellMode::New => engine.new_cell(type_id, v),
                CellMode::Shared => engine.shared_cell(type_id, v),
            };
            Vc { node, _t: PhantomData }
        }
    }

    /// Stores a value as a fresh cell local to the current execution. Local
    /// cells are never stored across executions, so the type's update mode
    /// does not apply: there is no notion of updating a local cell.
    pub fn local_cell_private(engine: &mut Engine, inner: T) -> (vc: Vc<T>)
        requires
            old(engine).wf(),
            old(engine).executions@[old(engine).current as int].cells@.len() < usize::MAX,
        ensures
            final(engine).wf(),
            Engine::local_cell_post(
                *old(engine),
                *final(engine),
                vc.node,
                T::value_type_id_spec(),
                inner.to_value_spec()@,
            ),
    {
        let type_id = T::value_type_id();
        let v = inner.into_value();
        let node = engine.new_local_cell(type_id, v);
        Vc { node, _t: PhantomData }
    }

    /// Stores a value as a cell (see [`Vc::cell_private`]).
    pub fn cell(engine: &mut Engine, inner: T) -> (vc: Vc<T>)
        requires
            old(engine).wf(),
            old(engine).tasks@[old(engine).cur_task()].cells@.len() < usize::MAX,
            old(engine).executions@[old(engine).current as int].cells@.len() < usize::MAX,
        ensures
            final(engine).wf(),
            ({
                let v = inner.to_value_spec()@;
                let tid = T::value_type_id_spec();
                if old(engine).executions@[old(engine).current as int].local_cells {
                    Engine::local_cell_post(*old(engine), *final(engine), vc.node, tid, v)
                } else {
                    match T::cell_mode_spec() {
                        CellMode::New => Engine::new_cell_post(
                            *old(engine),
                            *final(engine),
                            vc.node,
                            tid,
                            v,
                        ),
                        CellMode::Shared => Engine::shared_cell_post(
                            *old(engine),
                            *final(engine),
                            vc.node,
                            tid,
                            v,
                        ),
                    }
                }
            }),
    {
        Self::cell_private(engine, inner)
    }

    /// Stores a value as a local cell (see [`Vc::local_cell_private`]).
    pub fn local_cell(engine: &mut Engine, inner: T) -> (vc: Vc<T>)
        requires
            old(engine).wf(),
            old(engine).executions@[old(engine).current as int].cells@.len() < usize::MAX,
        ensures
            final(engine).wf(),
            Engine::local_cell_post(
                *old(engine),
                *final(engine),
                vc.node,
                T::value_type_id_spec(),
                inner.to_value_spec()@,
            ),
    {
        Self::local_cell_private(engine, inner)
    }

    /// Materializes a read of the value this handle points to: resolves the
    /// handle, then yields a shared, immutable snapshot of the stored value.
    /// Concurrent readers of the same settled cell share one allocation.
    /// Fails with the backing task's fatal failure, with the task still to
    /// finish, with an invalid reference, or with a type mismatch when the
    /// cell's runtime value type does not match this handle's type tag.
    pub fn into_read(self, engine: &Engine) -> (r: Result<ReadRef<T>, ResolveError>)
        ensures
            match engine.read_spec(self.node, T::value_type_id_spec()) {
                Ok(s) => r matches Ok(rr) && rr.shared.type_id == s.type_id && arc_value(
                    rr.shared.data,
                ) == arc_value(s.data) && arc_id(rr.shared.data) == arc_id(s.data),
                Err(e) => r matches Err(e2) && e2 == e,
            },
    {
        let loc = match engine.resolve_raw(self.node) {
            Ok(loc) => loc,
            Err(e) => {
                return Err(e);
            },
        };
        Self::materialize(loc, engine)
    }

    /// Strongly consistent read: waits for the entire transitive subgraph
    /// behind the handle to finish before materializing the value, for
    /// consumers that need a race-free snapshot. A fatal failure anywhere in
    /// that subgraph is propagated verbatim, never a value; otherwise
    /// failures are as for [`Vc::resolve_strongly_consistent`] and
    /// [`Vc::into_read`].
    pub fn strongly_consistent(self, engine: &Engine) -> (r: Result<ReadRef<T>, ResolveError>)
        requires
            engine.wf(),
        ensures
            match engine.resolve_spec(self.node) {
                Resolution::Done(loc) => {
                    let root = engine.target_task_spec(loc);
                    if !(0 <= root < engine.tasks@.len()) {
                        r == Err::<ReadRef<T>, ResolveError>(ResolveError::InvalidReference)
                    } else if !engine.subgraph_fatal_free(root) {
                        r matches Err(e) && (e matches ResolveError::Fatal(f) && exists|t: int|
                            #[trigger] engine.in_subgraph(root, t) && engine.tasks@[t].output
                                == crate::engine::OutputState::Failed(f))
                    } else if engine.subgraph_done_spec(root) {
                        match engine.materialize_spec(loc, T::value_type_id_spec()) {
                            Ok(s) => r matches Ok(rr) && rr.shared.type_id == s.type_id
                                && arc_value(rr.shared.data) == arc_value(s.data) && arc_id(
                                rr.shared.data,
                            ) == arc_id(s.data),
                            Err(e) => r matches Err(e2) && e2 == e,
                        }
                    } else {
                        r matches Err(e) && (e matches ResolveError::Unfinished(t)
                            && engine.in_subgraph(root, t as int) && engine.tasks@[t as int].output
                            is Pending)
                    }
                },
                Resolution::Unfinished(t) => r == Err::<ReadRef<T>, ResolveError>(
                    ResolveError::Unfinished(t),
                ),
                Resolution::Failed(e) => r == Err::<ReadRef<T>, ResolveError>(
                    ResolveError::Fatal(e),
                ),
                Resolution::Invalid => r == Err::<ReadRef<T>, ResolveError>(
                    ResolveError::InvalidReference,
                ),
            },
    {
        let resolved = match self.resolve_strongly_consistent(engine) {
            Ok(v) => v,
            Err(e) => {
                return Err(e);
            },
        };
        Self::materialize(resolved.node, engine)
    }

    fn materialize(loc: RawVc, engine: &Engine) -> (r: Result<ReadRef<T>, ResolveError>)
        ensures
            match engine.materialize_spec(loc, T::value_type_id_spec()) {
                Ok(s) => r matches Ok(rr) && rr.shared.type_id == s.type_id && arc_value(
                    rr.shared.data,
                ) == arc_value(s.data) && arc_id(rr.shared.data) == arc_id(s.data),
                Err(e) => r matches Err(e2) && e2 == e,
            },
    {
        let type_id = T::value_type_id();
        match engine.cell_at(loc) {
            Some(s) => {
                if s.type_id == type_id {
                    Ok(ReadRef { shared: s.share(), _t: PhantomData })
                } else {
                    Err(ResolveError::TypeMismatch { expected: type_id, found: s.type_id })
                }
            },
            None => Err(ResolveError::InvalidReference),
        }
    }
}

impl<T> Vc<T> {
    /// Connects the node pointed to by this handle to the current task as a
    /// dependency.
    pub fn connect(vc: Self, engine: &mut Engine)
        requires
            old(engine).wf(),
        ensures
            final(engine).wf(),
            Engine::connect_post(*old(engine), *final(engine), vc.node),
    {
        engine.connect_raw(vc.node)
    }

    /// The raw locator this handle wraps.
    pub fn into_raw(vc: Self) -> (r: RawVc)
        ensures
            r == vc.node,
    {
        vc.node
    }

    /// Upcasts the handle to a capability set the value type statically
    /// implements. This is a pure relabeling: the locator is untouched, no
    /// runtime work happens, and it cannot fail.
    pub fn upcast<K>(vc: Self) -> (r: Vc<K>) where T: Upcast<K>, K: VcValueTrait
        ensures
            r.node == vc.node,
    {
        Vc { node: vc.node, _t: PhantomData }
    }

    /// Resolves the handle until it points to a cell directly. Resolution is
    /// necessary to compare identities of handles, because equality is
    /// locator-based. Propagates a fatal failure of the backing task
    /// verbatim; reports an unfinished backing task so a driver can run it
    /// and retry; rejects references that are invalid in this engine (such
    /// as a local cell of another execution).
    pub fn resolve(self, engine: &Engine) -> (r: Result<Vc<T>, ResolveError>)
        ensures
            match engine.resolve_spec(self.node) {
                Resolution::Done(loc) => r matches Ok(v) && v.node == loc,
                Resolution::Unfinished(t) => r == Err::<Vc<T>, ResolveError>(
                    ResolveError::Unfinished(t),
                ),
                Resolution::Failed(e) => r == Err::<Vc<T>, ResolveError>(ResolveError::Fatal(e)),
                Resolution::Invalid => r == Err::<Vc<T>, ResolveError>(
                    ResolveError::InvalidReference,
                ),
            },
    {
        match engine.resolve_raw(self.node) {
            Ok(loc) => Ok(Vc { node: loc, _t: PhantomData }),
            Err(e) => Err(e),
        }
    }

    /// Resolves the handle in a strongly consistent way: in addition to
    /// resolution, the entire transitive subgraph reachable from the target
    /// must have finished all outstanding scheduled work, guaranteeing a
    /// race-free snapshot for cross-cutting consumers. A fatal failure of
    /// any task in that subgraph is propagated verbatim, never a value; when
    /// some task is instead still pending, one such task is reported so a
    /// driver can run it and retry.
    pub fn resolve_strongly_consistent(self, engine: &Engine) -> (r: Result<Vc<T>, ResolveError>)
        requires
            engine.wf(),
        ensures
            match engine.resolve_spec(self.node) {
                Resolution::Done(loc) => {
                    let root = engine.target_task_spec(loc);
                    if !(0 <= root < engine.tasks@.len()) {
                        r == Err::<Vc<T>, ResolveError>(ResolveError::InvalidReference)
                    } else if !engine.subgraph_fatal_free(root) {
                        r matches Err(e) && (e matches ResolveError::Fatal(f) && exists|t: int|
                            #[trigger] engine.in_subgraph(root, t) && engine.tasks@[t].output
                                == crate::engine::OutputState::Failed(f))
                    } else if engine.subgraph_done_spec(root) {
                        r matches Ok(v) && v.node == loc
                    } else {
                        r matches Err(e) && (e matches ResolveError::Unfinished(t)
                            && engine.in_subgraph(root, t as int) && engine.tasks@[t as int].output
                            is Pending)
                    }
                },
                Resolution::Unfinished(t) => r == Err::<Vc<T>, ResolveError>(
                    ResolveError::Unfinished(t),
                ),
                Resolution::Failed(e) => r == Err::<Vc<T>, ResolveError>(ResolveError::Fatal(e)),
                Resolution::Invalid => r == Err::<Vc<T>, ResolveError>(
                    ResolveError::InvalidReference,
                ),
            },
    {
        let loc = match engine.resolve_raw(self.node) {
            Ok(loc) => loc,
            Err(e) => {
                return Err(e);
            },
        };
        proof {
            crate::engine::lemma_resolve_done_shape(*engine, self.node);
        }
        let root: usize = match loc {
            RawVc::TaskCell { task, .. } => {
                if task < engine.tasks.len() {
                    task
                } else {
                    return Err(ResolveError::InvalidReference);
                }
            },
            RawVc::LocalCell { execution, .. } => engine.executions[execution].task,
            RawVc::TaskOutput { .. } => {
                return Err(ResolveError::InvalidReference);
            },
        };
        match engine.find_failed(root) {
            Some(t) => {
                proof {
                    crate::engine::lemma_in_subgraph_bounds(*engine, root as int, t as int);
                }
                match &engine.tasks[t].output {
                    OutputState::Failed(f) => Err(ResolveError::Fatal(*f)),
                    _ => {
                        proof {
                            assert(false);
                        }
                        Err(ResolveError::InvalidReference)
                    },
                }
            },
            None => match engine.find_pending(root) {
                None => Ok(Vc { node: loc, _t: PhantomData }),
                Some(t) => Err(ResolveError::Unfinished(t)),
            },
        }
    }

    /// A debug identifier for this handle, of the shape
    /// `{TypeName}#{index}: {task}`. The handle is resolved first; a handle
    /// that resolves to an execution-local cell has no such identifier and
    /// is excluded here, since resolution across tasks eliminates that
    /// variant.
    pub fn debug_identifier(vc: Self, engine: &Engine) -> (r: Result<String, ResolveError>)
        requires
            match engine.resolve_spec(vc.node) {
                Resolution::Done(loc) => loc is TaskCell,
                _ => true,
            },
        ensures
            match engine.resolve_spec(vc.node) {
                Resolution::Done(loc) => match loc {
                    RawVc::TaskCell { task, cell } => {
                        if cell.type_id < engine.registry.value_types@.len() {
                            r matches Ok(s) && s@ == debug_ident_text(
                                engine.registry.value_types@[cell.type_id as int].name@,
                                cell.index,
                                task,
                            )
                        } else {
                            r == Err::<String, ResolveError>(
                                ResolveError::UnknownType(cell.type_id),
                            )
                        }
                    },
                    _ => false,
                },
                Resolution::Unfinished(t) => r == Err::<String, ResolveError>(
                    ResolveError::Unfinished(t),
                ),
                Resolution::Failed(e) => r == Err::<String, ResolveError>(ResolveError::Fatal(e)),
                Resolution::Invalid => r == Err::<String, ResolveError>(
                    ResolveError::InvalidReference,
                ),
            },
    {
        let loc = match engine.resolve_raw(vc.node) {
            Ok(loc) => loc,
            Err(e) => {
                return Err(e);
            },
        };
        match loc {
            RawVc::TaskCell { task, cell } => match engine.registry.name_of(cell.type_id) {
                Some(n) => Ok(format_debug_identifier(n, cell.index, task)),
                None => Err(ResolveError::UnknownType(cell.type_id)),
            },
            _ => Err(ResolveError::InvalidReference),
        }
    }

    /// The collectibles of capability `K` emitted by the subgraph reachable
    /// from this handle's target task, as typed handles, each once, in
    /// unspecified order; they stay available for further aggregation.
    pub fn peek_collectibles<K>(self, engine: &Engine) -> (r: Vec<Vc<K>>) where K: VcValueTrait
        requires
            engine.wf(),
            engine.target_in_tasks(self.node),
        ensures
            forall|i: int|
                0 <= i < r@.len() ==> engine.collected_spec(
                    engine.target_task_spec(self.node),
                    K::trait_type_id_spec(),
                ).contains(#[trigger] r@[i].node),
            forall|node: RawVc|
                engine.collected_spec(
                    engine.target_task_spec(self.node),
                    K::trait_type_id_spec(),
                ).contains(node) ==> exists|i: int| 0 <= i < r@.len() && r@[i].node == node,
            forall|i: int, j: int| 0 <= i < j < r@.len() ==> r@[i].node != r@[j].node,
    {
        let trait_id = K::get_trait_type_id();
        let root: usize = match self.node {
            RawVc::TaskCell { task, .. } => task,
            RawVc::LocalCell { execution, .. } => engine.executions[execution].task,
            RawVc::TaskOutput { task } => task,
        };
        let raws = engine.peek_collectibles_raw(root, trait_id);
        let mut out: Vec<Vc<K>> = Vec::new();
        let mut i: usize = 0;
        while i < raws.len()
            invariant
                i <= raws@.len(),
                out@.len() == i,
                forall|j: int| 0 <= j < i ==> #[trigger] out@[j].node == raws@[j],
            decreases raws@.len() - i,
        {
            out.push(Vc { node: raws[i], _t: PhantomData });
            i += 1;
        }
        proof {
            assert forall|i: int| 0 <= i < out@.len() implies engine.collected_spec(
                engine.target_task_spec(self.node),
                K::trait_type_id_spec(),
            ).contains(#[trigger] out@[i].node) by {
                assert(raws@.contains(raws@[i]));
            }
            assert forall|node: RawVc|
                engine.collected_spec(
                    engine.target_task_spec(self.node),
                    K::trait_type_id_spec(),
                ).contains(node) implies exists|j: int|
                0 <= j < out@.len() && out@[j].node == node by {
                assert(raws@.contains(node));
                let j = choose|j: int| 0 <= j < raws@.len() && raws@[j] == node;
                assert(out@[j].node == node);
            }
        }
        out
    }

    /// Drains the collectibles of capability `K` emitted by the subgraph
    /// reachable from this handle's target task: the same handles
    /// [`Vc::peek_collectibles`] would return, but they are also removed
    /// from the subgraph and take no further part in aggregation upward.
    pub fn take_collectibles<K>(self, engine: &mut Engine) -> (r: Vec<Vc<K>>) where
        K: VcValueTrait,
        requires
            old(engine).wf(),
            old(engine).target_in_tasks(self.node),
        ensures
            final(engine).wf(),
            forall|i: int|
                0 <= i < r@.len() ==> old(engine).collected_spec(
                    old(engine).target_task_spec(self.node),
                    K::trait_type_id_spec(),
                ).contains(#[trigger] r@[i].node),
            forall|node: RawVc|
                old(engine).collected_spec(
                    old(engine).target_task_spec(self.node),
                    K::trait_type_id_spec(),
                ).contains(node) ==> exists|i: int| 0 <= i < r@.len() && r@[i].node == node,
            forall|i: int, j: int| 0 <= i < j < r@.len() ==> r@[i].node != r@[j].node,
            Engine::cleared_post(
                *old(engine),
                *final(engine),
                old(engine).target_task_spec(self.node),
                K::trait_type_id_spec(),
            ),
    {
        let trait_id = K::get_trait_type_id();
        let root: usize = match self.node {
            RawVc::TaskCell { task, .. } => task,
            RawVc::LocalCell { execution, .. } => engine.executions[execution].task,
            RawVc::TaskOutput { task } => task,
        };
        let raws = engine.take_collectibles_raw(root, trait_id);
        let mut out: Vec<Vc<K>> = Vec::new();
        let mut i: usize = 0;
        while i < raws.len()
            invariant
                i <= raws@.len(),
                out@.len() == i,
                forall|j: int| 0 <= j < i ==> #[trigger] out@[j].node == raws@[j],
            decreases raws@.len() - i,
        {
            out.push(Vc { node: raws[i], _t: PhantomData });
            i += 1;
        }
        proof {
            assert forall|i: int| 0 <= i < out@.len() implies old(engine).collected_spec(
                old(engine).target_task_spec(self.node),
                K::trait_type_id_spec(),
            ).contains(#[trigger] out@[i].node) by {
                assert(raws@.contains(raws@[i]));
            }
            assert forall|node: RawVc|
                old(engine).collected_spec(
                    old(engine).target_task_spec(self.node),
                    K::trait_type_id_spec(),
                ).contains(node) implies exists|j: int|
                0 <= j < out@.len() && out@[j].node == node by {
                assert(raws@.contains(node));
                let j = choose|j: int| 0 <= j < raws@.len() && raws@[j] == node;
                assert(out@[j].node == node);
            }
        }
        out
    }

    /// True if the handle's locator is settled (resolution would return it
    /// unchanged, with no suspension).
    pub fn is_resolved(self) -> (r: bool)
        ensures
            r == self.node.is_settled(),
    {
        self.node.is_resolved()
    }

    /// True if the handle points at a cell local to one execution.
    pub fn is_local(self) -> (r: bool)
        ensures
            r == (self.node is LocalCell),
    {
        self.node.is_local()
    }
}

// The diagnostic text rendered for a cell: it depends on the type name, the
// cell index and the task id alone.
pub uninterp spec fn debug_ident_text(name: Seq<char>, index: usize, task: usize) -> Seq<char>;

/// Relies on std's `format!` machinery: the rendered `{name}#{index}: {task}`
/// text is a function of the three arguments alone.
#[verifier::external_body]
fn format_debug_identifier(name: &String, index: usize, task: usize) -> (r: String)
    ensures
        r@ == debug_ident_text(name@, index, task),
{
    format!("{}#{}: {}", name, index, task)
}

/// A shared, immutable snapshot of a stored value, typed by the handle it
/// was read through. Reading the same settled cell again yields a snapshot
/// with equal contents backed by the same allocation: cell contents are
/// immutable after creation, and no copy is made per read.
pub struct ReadRef<T> {
    pub shared: SharedReference,
    pub _t: PhantomData<T>,
}

impl<T> ReadRef<T> where T: VcValueType {
    /// Borrow of the snapshot's stored representation.
    pub fn value(&self) -> (r: &Value)
        ensures
            *r == arc_value(self.shared.data),
    {
        self.shared.value()
    }

    /// The snapshot's value, converted back to the handle's value type.
    pub fn typed(&self) -> (r: Option<T>)
        ensures
            r is Some <==> T::of_value_spec(arc_value(self.shared.data)),
            r matches Some(t) ==> t.to_value_spec()@ == arc_value(self.shared.data)@,
    {
        T::from_value(self.shared.value())
    }

    /// Whether two snapshots are backed by one allocation (no copy was made
    /// between them).
    pub fn shares_storage(&self, other: &ReadRef<T>) -> (r: bool)
        ensures
            r == (arc_id(self.shared.data) == arc_id(other.shared.data)),
    {
        crate::value::arc_ptr_eq(&self.shared.data, &other.shared.data)
    }

    /// Whether two snapshots hold observably equal values.
    pub fn snapshot_eq(&self, other: &ReadRef<T>) -> (r: bool)
        ensures
            r == (arc_value(self.shared.data)@ == arc_value(other.shared.data)@),
    {
        value_eq(self.value(), other.value())
    }
}

impl<T> Vc<T> where T: VcValueTrait {
    /// Attempts to sidecast a handle typed over capability set `T` to one
    /// typed over capability set `K`, with no static relationship required.
    /// Also resolves the handle. Returns `Ok(None)` when the underlying
    /// value type does not implement `K` — an expected outcome, not a
    /// failure — and propagates upstream fatal failures distinctly.
    pub fn try_resolve_sidecast<K>(vc: Self, engine: &Engine) -> (r: Result<
        Option<Vc<K>>,
        ResolveError,
    >) where K: VcValueTrait
        ensures
            match engine.trait_cast_spec(vc.node, K::trait_type_id_spec()) {
                Ok(Some(loc)) => r matches Ok(Some(v)) && v.node == loc,
                Ok(None) => r matches Ok(o) && o is None,
                Err(e) => r matches Err(e2) && e2 == e,
            },
    {
        Self::trait_cast::<K>(vc, engine)
    }

    /// Attempts to downcast a handle typed over capability set `T` to a
    /// capability set `K` that statically implies `T`. Also resolves the
    /// handle. Returns `Ok(None)` when the underlying value type does not
    /// implement `K`.
    pub fn try_resolve_downcast<K>(vc: Self, engine: &Engine) -> (r: Result<
        Option<Vc<K>>,
        ResolveError,
    >) where K: Upcast<T> + VcValueTrait
        ensures
            match engine.trait_cast_spec(vc.node, K::trait_type_id_spec()) {
                Ok(Some(loc)) => r matches Ok(Some(v)) && v.node == loc,
                Ok(None) => r matches Ok(o) && o is None,
                Err(e) => r matches Err(e2) && e2 == e,
            },
    {
        Self::trait_cast::<K>(vc, engine)
    }

    /// Attempts to downcast a handle typed over capability set `T` to the
    /// concrete value type `K`. Also resolves the handle. Returns `Ok(None)`
    /// when the underlying value type is not `K`.
    pub fn try_resolve_downcast_type<K>(vc: Self, engine: &Engine) -> (r: Result<
        Option<Vc<K>>,
        ResolveError,
    >) where K: Upcast<T> + VcValueType
        ensures
            match engine.value_cast_spec(vc.node, K::value_type_id_spec()) {
                Ok(Some(loc)) => r matches Ok(Some(v)) && v.node == loc,
                Ok(None) => r matches Ok(o) && o is None,
                Err(e) => r matches Err(e2) && e2 == e,
            },
    {
        let type_id = K::value_type_id();
        let loc = match engine.resolve_raw(vc.node) {
            Ok(loc) => loc,
            Err(e) => {
                return Err(e);
            },
        };
        match engine.cell_at(loc) {
            Some(s) => {
                if s.type_id == type_id {
                    Ok(Some(Vc { node: loc, _t: PhantomData }))
                } else {
                    Ok(None)
                }
            },
            None => Err(ResolveError::InvalidReference),
        }
    }

    fn trait_cast<K>(vc: Self, engine: &Engine) -> (r: Result<
        Option<Vc<K>>,
        ResolveError,
    >) where K: VcValueTrait
        ensures
            match engine.trait_cast_spec(vc.node, K::trait_type_id_spec()) {
                Ok(Some(loc)) => r matches Ok(Some(v)) && v.node == loc,
                Ok(None) => r matches Ok(o) && o is None,
                Err(e) => r matches Err(e2) && e2 == e,
            },
    {
        let trait_id = K::get_trait_type_id();
        let loc = match engine.resolve_raw(vc.node) {
            Ok(loc) => loc,
            Err(e) => {
                return Err(e);
            },
        };
        match engine.cell_at(loc) {
            Some(s) => {
                if trait_id >= engine.registry.trait_count {
                    Err(ResolveError::UnknownTrait(trait_id))
                } else if engine.registry.implements(s.type_id, trait_id) {
                    Ok(Some(Vc { node: loc, _t: PhantomData }))
                } else {
                    Ok(None)
                }
            },
            None => Err(ResolveError::InvalidReference),
        }
    }
}

} // verus!
