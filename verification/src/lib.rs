//! Cell-reference and resolution layer of an incremental, memoized
//! computation engine.
//!
//! Callers hold typed, freely copyable handles ([`vc::Vc`]) to memoized
//! results. A handle wraps an untyped node locator ([`locator::RawVc`]) that
//! is either settled (a concrete storage cell) or unsettled (the eventual
//! output of a task). The [`engine::Engine`] models the scheduler and cache
//! collaborators: it owns tasks, their output states, their cells, the
//! execution-scoped local cells, and the process-wide value-type registry
//! used for runtime capability casts.

pub mod engine;
pub mod ident;
pub mod laws;
pub mod locator;
pub mod registry;
pub mod primitives;
pub mod resolved;
pub mod value;
pub mod vc;
