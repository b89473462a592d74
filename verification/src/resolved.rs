//! The invariant-carrying resolved handle.

use vstd::prelude::*;

use crate::engine::{Engine, Resolution, ResolveError};
use crate::locator::RawVc;
use crate::vc::Vc;

verus! {

/// A handle proven, by construction, to carry a settled canonical locator.
/// It can only be obtained through successful resolution, so it never
/// requires re-resolution before being used as a cache or map key.
#[derive(Hash)]
pub struct ResolvedVc<T> {
    node: Vc<T>,
}

impl<T> ResolvedVc<T> {
    /// The one invariant of this type: the locator is settled, never a
    /// pending task output.
    #[verifier::type_invariant]
    spec fn settled_inv(self) -> bool {
        self.node.node.is_settled()
    }

    /// The locator this resolved handle carries.
    pub closed spec fn node_spec(self) -> RawVc {
        self.node.node
    }

    /// The plain handle this resolved handle wraps; its locator is settled.
    pub fn vc(self) -> (r: Vc<T>)
        ensures
            r.node == self.node_spec(),
            r.node.is_settled(),
    {
        proof {
            use_type_invariant(self);
        }
        self.node
    }

    /// Equality and identity of resolved handles are those of the locator,
    /// with no resolution needed first.
    pub fn same_cell(&self, other: &ResolvedVc<T>) -> (r: bool)
        ensures
            r == (self.node_spec() == other.node_spec()),
    {
        self.node.node == other.node.node
    }
}

impl<T> Clone for ResolvedVc<T> {
    fn clone(&self) -> (r: Self)
        ensures
            r == *self,
    {
        proof {
            use_type_invariant(self);
        }
        ResolvedVc { node: self.node }
    }
}

impl<T> Copy for ResolvedVc<T> {

}

impl<T> Vc<T> {
    /// Resolves the handle (see [`Vc::resolve`]) and wraps the result in the
    /// stronger-invariant type.
    pub fn to_resolved(self, engine: &Engine) -> (r: Result<ResolvedVc<T>, ResolveError>)
        ensures
            match engine.resolve_spec(self.node) {
                Resolution::Done(loc) => r matches Ok(v) && v.node_spec() == loc,
                Resolution::Unfinished(t) => r == Err::<ResolvedVc<T>, ResolveError>(
                    ResolveError::Unfinished(t),
                ),
                Resolution::Failed(e) => r == Err::<ResolvedVc<T>, ResolveError>(
                    ResolveError::Fatal(e),
                ),
                Resolution::Invalid => r == Err::<ResolvedVc<T>, ResolveError>(
                    ResolveError::InvalidReference,
                ),
            },
    {
        match self.resolve(engine) {
            Ok(v) => {
                proof {
                    crate::engine::lemma_resolve_done_shape(*engine, self.node);
                }
                Ok(ResolvedVc { node: v })
            },
            Err(e) => Err(e),
        }
    }
}

} // verus!
