//! Node locators: the untyped identifiers that cell-reference handles wrap.

use vstd::prelude::*;

verus! {

/// Identifier of a task known to the engine. Tasks are numbered in creation
/// order, so a subtask always has a greater id than the task that created it.
pub type TaskId = usize;

/// Identifier of one in-flight execution. Execution ids are never reused.
pub type ExecutionId = usize;

/// Runtime identifier of a concrete value type, fixed per type.
pub type ValueTypeId = usize;

/// Runtime identifier of a capability set (an interface a value type may
/// implement), assigned by the registry at startup.
pub type TraitTypeId = usize;

/// Address of one cell within a task's output set: the value type stored
/// there together with the cell's position.
#[derive(Clone, Copy, Debug, PartialEq, Eq, Structural, Hash)]
pub struct CellId {
    pub type_id: ValueTypeId,
    pub index: usize,
}

/// The untyped node locator. Either settled (it points at a concrete storage
/// slot) or unsettled (it stands for the eventual output of a task and is
/// rewritten away by resolution).
#[derive(Clone, Copy, Debug, PartialEq, Eq, Structural, Hash)]
pub enum RawVc {
    /// A settled slot owned by a specific task's output set.
    TaskCell { task: TaskId, cell: CellId },
    /// A settled slot scoped to one in-flight execution; never persisted and
    /// invalid outside its owning execution.
    LocalCell { execution: ExecutionId, index: usize },
    /// Unsettled: the eventual output of the given task.
    TaskOutput { task: TaskId },
}

impl RawVc {
    /// A locator is settled when it points at a concrete cell rather than at
    /// a pending task output.
    pub open spec fn is_settled(self) -> bool {
        !(self is TaskOutput)
    }

    /// True if the locator is settled (does not need resolution to be
    /// compared for identity).
    pub fn is_resolved(&self) -> (r: bool)
        ensures
            r == self.is_settled(),
    {
        !matches!(self, RawVc::TaskOutput { .. })
    }

    /// True if the locator addresses an execution-scoped local cell.
    pub fn is_local(&self) -> (r: bool)
        ensures
            r == (*self is LocalCell),
    {
        matches!(self, RawVc::LocalCell { .. })
    }
}

} // verus!
