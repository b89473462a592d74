//! The engine state: the model of the scheduler and cache collaborators.
//!
//! The engine owns the tasks (their output states, storage cells, creation
//! edges, recorded dependencies, and emitted collectibles), the in-flight
//! executions with their local cells, and the value-type registry. Handles
//! are resolved, read, and cast against this state. Operations that would
//! suspend in a live system instead report which task is still unfinished,
//! so a driver can run that task and retry.

use vstd::prelude::*;

use crate::locator::{CellId, ExecutionId, RawVc, TaskId, TraitTypeId, ValueTypeId};
use crate::registry::Registry;
use crate::value::{shrink_value, value_eq, SharedReference, Value, ValueV};

verus! {

/// A fatal failure of a task, propagated verbatim through every resolution
/// and read that transitively depends on it.
#[derive(Clone, Copy, Debug, PartialEq, Eq, Structural)]
pub struct FatalError {
    pub code: u64,
}

/// The output state of a task.
pub enum OutputState {
    /// Still running or not yet started.
    Pending,
    /// Finished; its output is the given locator (a cell of some task, or a
    /// later task's output).
    Done(RawVc),
    /// Terminated abnormally.
    Failed(FatalError),
}

/// A side-emitted typed value, keyed by the capability set it was emitted
/// under, aggregated upward from a computation subgraph.
#[derive(Clone, Copy, Debug, PartialEq, Eq, Structural)]
pub struct Collectible {
    pub trait_id: TraitTypeId,
    pub node: RawVc,
}

/// One task known to the engine.
pub struct Task {
    pub output: OutputState,
    /// The settled storage cells the owner holds.
    pub cells: Vec<SharedReference>,
    /// Subtasks the owner spawned; every child id is greater than the
    /// owner's id.
    pub children: Vec<TaskId>,
    /// Nodes the owner was explicitly connected to.
    pub dependencies: Vec<RawVc>,
    /// Collectibles the owner emitted (not yet taken).
    pub collectibles: Vec<Collectible>,
}

/// One in-flight execution context.
pub struct Execution {
    /// The task this execution runs.
    pub task: TaskId,
    /// Cells local to this execution; invalid outside it.
    pub cells: Vec<SharedReference>,
    /// Whether cell creation inside this execution defaults to local cells.
    pub local_cells: bool,
}

/// The engine state.
pub struct Engine {
    pub registry: Registry,
    pub tasks: Vec<Task>,
    pub executions: Vec<Execution>,
    /// The execution currently running.
    pub current: ExecutionId,
}

/// Outcome of resolving a locator against an engine state.
pub enum Resolution {
    /// Settled and canonical.
    Done(RawVc),
    /// The given task has not finished; a live system would suspend here.
    Unfinished(TaskId),
    /// An upstream fatal failure, propagated verbatim.
    Failed(FatalError),
    /// The locator is not valid in this engine state (for example, a local
    /// cell of another execution).
    Invalid,
}

/// Why a resolution, read, or dynamic cast did not produce a value.
#[derive(Clone, Copy, Debug, PartialEq, Eq, Structural)]
pub enum ResolveError {
    /// The backing task has not finished; run it and retry.
    Unfinished(TaskId),
    /// The backing task failed fatally; propagated verbatim.
    Fatal(FatalError),
    /// The locator is not valid in this engine state.
    InvalidReference,
    /// The cell's runtime value type does not match the handle's type tag.
    TypeMismatch { expected: ValueTypeId, found: ValueTypeId },
    /// The capability id is not known to the registry, so the lookup itself
    /// could not be performed (distinct from a mere absence).
    UnknownTrait(TraitTypeId),
    /// The value type id is not registered, so no diagnostic entry exists.
    UnknownType(ValueTypeId),
}

/// The position of the first cell among `cells` (from position `i` on) that
/// stores type `type_id` and a value observably equal to `v`: the slot the
/// dedup-by-equality update mode reuses.
pub open spec fn first_match(
    cells: Seq<SharedReference>,
    type_id: ValueTypeId,
    v: ValueV,
    i: int,
) -> Option<int>
    decreases cells.len() - i,
{
    if !(0 <= i < cells.len()) {
        None
    } else if cells[i].type_id == type_id && crate::value::arc_value(cells[i].data)@ == v {
        Some(i)
    } else {
        first_match(cells, type_id, v, i + 1)
    }
}

fn find_cell_from(cells: &Vec<SharedReference>, type_id: ValueTypeId, v: &Value, i: usize) -> (r:
    Option<usize>)
    ensures
        match r {
            Some(j) => first_match(cells@, type_id, v@, i as int) == Some(j as int),
            None => first_match(cells@, type_id, v@, i as int) is None,
        },
    decreases cells@.len() - i,
{
    if i >= cells.len() {
        None
    } else {
        let s = &cells[i];
        if s.type_id == type_id && value_eq(s.value(), v) {
            Some(i)
        } else {
            find_cell_from(cells, type_id, v, i + 1)
        }
    }
}

/// The deduplicated set of nodes among `cols` that were emitted under
/// capability `trait_id`.
pub open spec fn own_set(cols: Seq<Collectible>, trait_id: TraitTypeId) -> Set<RawVc>
    decreases cols.len(),
{
    if cols.len() == 0 {
        Set::empty()
    } else {
        own_set(cols.drop_last(), trait_id) + (if cols.last().trait_id == trait_id {
            Set::empty().insert(cols.last().node)
        } else {
            Set::empty()
        })
    }
}

/// A resolution outcome as the result type the resolution protocol returns.
pub open spec fn as_raw_result(r: Resolution) -> Result<RawVc, ResolveError> {
    match r {
        Resolution::Done(loc) => Ok(loc),
        Resolution::Unfinished(t) => Err(ResolveError::Unfinished(t)),
        Resolution::Failed(e) => Err(ResolveError::Fatal(e)),
        Resolution::Invalid => Err(ResolveError::InvalidReference),
    }
}

impl Engine {
    /// The task the current execution runs.
    pub open spec fn cur_task(self) -> int {
        self.executions@[self.current as int].task as int
    }

    /// A settled output locator is sound for task `t`: it points at an
    /// existing cell whose stored type matches the address, or at the output
    /// of a strictly later task.
    pub open spec fn done_ok(self, loc: RawVc, t: int) -> bool {
        match loc {
            RawVc::TaskCell { task, cell } => {
                &&& task < self.tasks@.len()
                &&& cell.index < self.tasks@[task as int].cells@.len()
                &&& self.tasks@[task as int].cells@[cell.index as int].type_id == cell.type_id
            },
            RawVc::TaskOutput { task } => t < task < self.tasks@.len(),
            RawVc::LocalCell { .. } => false,
        }
    }

    /// Task-local well-formedness: a finished output is sound, and creation
    /// edges go strictly forward.
    pub open spec fn task_wf(self, t: int) -> bool {
        &&& (self.tasks@[t].output matches OutputState::Done(loc) ==> self.done_ok(loc, t))
        &&& forall|i: int|
            0 <= i < self.tasks@[t].children@.len() ==> t < #[trigger] self.tasks@[t].children@[i]
                < self.tasks@.len()
    }

    /// Engine well-formedness, established by the constructor and preserved
    /// by every operation.
    pub open spec fn wf(self) -> bool {
        &&& self.current < self.executions@.len()
        &&& forall|e: int|
            0 <= e < self.executions@.len() ==> (#[trigger] self.executions@[e].task)
                < self.tasks@.len()
        &&& forall|t: int| 0 <= t < self.tasks@.len() ==> #[trigger] self.task_wf(t)
    }

    /// Resolution of a task's output: follows finished outputs forward until
    /// a settled cell locator is reached.
    pub open spec fn resolve_output_spec(self, task: int) -> Resolution
        decreases self.tasks@.len() - task,
    {
        if !(0 <= task < self.tasks@.len()) {
            Resolution::Invalid
        } else {
            match self.tasks@[task].output {
                OutputState::Pending => Resolution::Unfinished(task as TaskId),
                OutputState::Failed(e) => Resolution::Failed(e),
                OutputState::Done(loc) => match loc {
                    RawVc::TaskOutput { task: t2 } => if task < t2 < self.tasks@.len() {
                        self.resolve_output_spec(t2 as int)
                    } else {
                        Resolution::Invalid
                    },
                    RawVc::TaskCell { .. } => Resolution::Done(loc),
                    RawVc::LocalCell { .. } => Resolution::Invalid,
                },
            }
        }
    }

    /// The resolution protocol. A settled locator is already canonical,
    /// except that a local cell of a foreign execution is invalid; an
    /// unsettled locator follows the backing task's output.
    pub open spec fn resolve_spec(self, raw: RawVc) -> Resolution {
        match raw {
            RawVc::TaskCell { .. } => Resolution::Done(raw),
            RawVc::LocalCell { execution, .. } => if execution == self.current {
                Resolution::Done(raw)
            } else {
                Resolution::Invalid
            },
            RawVc::TaskOutput { task } => self.resolve_output_spec(task as int),
        }
    }

    /// What allocating a fresh persisted cell in the current task does:
    /// `loc` addresses the new cell, which holds (a snapshot of) `v` under
    /// `type_id` at the end of the current task's cell list; nothing else
    /// changes.
    pub open spec fn new_cell_post(
        pre: Engine,
        post: Engine,
        loc: RawVc,
        type_id: ValueTypeId,
        v: ValueV,
    ) -> bool {
        &&& loc == (RawVc::TaskCell {
            task: pre.executions@[pre.current as int].task,
            cell: CellId { type_id, index: pre.tasks@[pre.cur_task()].cells@.len() as usize },
        })
        &&& post.cell_at_spec(loc) matches Some(s) && s.type_id == type_id
            && crate::value::arc_value(s.data)@ == v
        &&& post.tasks@.len() == pre.tasks@.len()
        &&& post.tasks@[pre.cur_task()].cells@.len() == pre.tasks@[pre.cur_task()].cells@.len() + 1
        &&& forall|i: int|
            0 <= i < pre.tasks@[pre.cur_task()].cells@.len()
                ==> post.tasks@[pre.cur_task()].cells@[i] == pre.tasks@[pre.cur_task()].cells@[i]
        &&& post.tasks@[pre.cur_task()].output == pre.tasks@[pre.cur_task()].output
        &&& post.tasks@[pre.cur_task()].children@ == pre.tasks@[pre.cur_task()].children@
        &&& post.tasks@[pre.cur_task()].collectibles@ == pre.tasks@[pre.cur_task()].collectibles@
        &&& forall|t2: int|
            0 <= t2 < pre.tasks@.len() && t2 != pre.cur_task() ==> post.tasks@[t2]
                == pre.tasks@[t2]
        &&& post.executions == pre.executions
        &&& post.registry == pre.registry
        &&& post.current == pre.current
    }

    /// What creating a cell under the dedup-by-equality update mode does:
    /// when a cell of this type already holds an observably equal value, its
    /// locator is reused and the state is untouched (no downstream
    /// invalidation); otherwise it is the new-slot behaviour.
    pub open spec fn shared_cell_post(
        pre: Engine,
        post: Engine,
        loc: RawVc,
        type_id: ValueTypeId,
        v: ValueV,
    ) -> bool {
        &&& match first_match(pre.tasks@[pre.cur_task()].cells@, type_id, v, 0) {
            Some(j) => post == pre && loc == (RawVc::TaskCell {
                task: pre.executions@[pre.current as int].task,
                cell: CellId { type_id, index: j as usize },
            }),
            None => Engine::new_cell_post(pre, post, loc, type_id, v),
        }
        &&& post.cell_at_spec(loc) matches Some(s) && s.type_id == type_id
            && crate::value::arc_value(s.data)@ == v
    }

    /// What allocating a cell local to the current execution does: `loc`
    /// addresses the new slot at the end of the current execution's local
    /// cell list; tasks and everything else are untouched.
    pub open spec fn local_cell_post(
        pre: Engine,
        post: Engine,
        loc: RawVc,
        type_id: ValueTypeId,
        v: ValueV,
    ) -> bool {
        &&& loc == (RawVc::LocalCell {
            execution: pre.current,
            index: pre.executions@[pre.current as int].cells@.len() as usize,
        })
        &&& post.cell_at_spec(loc) matches Some(s) && s.type_id == type_id
            && crate::value::arc_value(s.data)@ == v
        &&& post.executions@.len() == pre.executions@.len()
        &&& post.executions@[pre.current as int].task == pre.executions@[pre.current as int].task
        &&& post.executions@[pre.current as int].local_cells == pre.executions@[pre.current as int].local_cells
        &&& post.executions@[pre.current as int].cells@.len() == pre.executions@[pre.current as int].cells@.len() + 1
        &&& forall|i: int|
            0 <= i < pre.executions@[pre.current as int].cells@.len()
                ==> post.executions@[pre.current as int].cells@[i] == pre.executions@[pre.current as int].cells@[i]
        &&& forall|e: int|
            0 <= e < pre.executions@.len() && e != pre.current ==> post.executions@[e]
                == pre.executions@[e]
        &&& post.tasks == pre.tasks
        &&& post.registry == pre.registry
        &&& post.current == pre.current
    }

    /// What registering a dependency edge does: the node is appended to the
    /// current task's dependency list; nothing else changes.
    pub open spec fn connect_post(pre: Engine, post: Engine, raw: RawVc) -> bool {
        &&& post.tasks@[pre.cur_task()].dependencies@ == pre.tasks@[pre.cur_task()].dependencies@.push(raw)
        &&& forall|t2: int|
            0 <= t2 < pre.tasks@.len() && t2 != pre.cur_task() ==> post.tasks@[t2]
                == pre.tasks@[t2]
        &&& post.tasks@.len() == pre.tasks@.len()
        &&& post.tasks@[pre.cur_task()].output == pre.tasks@[pre.cur_task()].output
        &&& post.tasks@[pre.cur_task()].cells@ == pre.tasks@[pre.cur_task()].cells@
        &&& post.tasks@[pre.cur_task()].children@ == pre.tasks@[pre.cur_task()].children@
        &&& post.tasks@[pre.cur_task()].collectibles@ == pre.tasks@[pre.cur_task()].collectibles@
        &&& post.executions == pre.executions
        &&& post.registry == pre.registry
        &&& post.current == pre.current
    }

    /// The identity a node contributes to collectible sets: its
    /// post-resolution locator where resolution already succeeds, and the
    /// node itself where it cannot be canonicalized yet.
    pub open spec fn canonical_spec(self, raw: RawVc) -> RawVc {
        match self.resolve_spec(raw) {
            Resolution::Done(loc) => loc,
            _ => raw,
        }
    }

    /// The stored snapshot a settled locator addresses, if any.
    pub open spec fn cell_at_spec(self, loc: RawVc) -> Option<SharedReference> {
        match loc {
            RawVc::TaskCell { task, cell } => {
                if task < self.tasks@.len() && cell.index < self.tasks@[task as int].cells@.len()
                    && self.tasks@[task as int].cells@[cell.index as int].type_id == cell.type_id {
                    Some(self.tasks@[task as int].cells@[cell.index as int])
                } else {
                    None
                }
            },
            RawVc::LocalCell { execution, index } => {
                if execution < self.executions@.len() && index
                    < self.executions@[execution as int].cells@.len() {
                    Some(self.executions@[execution as int].cells@[index as int])
                } else {
                    None
                }
            },
            RawVc::TaskOutput { .. } => None,
        }
    }

    /// Outcome of a runtime capability cast (sidecast or downcast to a
    /// capability set): resolve, then consult the registry. Absence of the
    /// capability is an expected `Ok(None)`, distinct from every failure.
    pub open spec fn trait_cast_spec(self, raw: RawVc, trait_id: TraitTypeId) -> Result<
        Option<RawVc>,
        ResolveError,
    > {
        match self.resolve_spec(raw) {
            Resolution::Done(loc) => match self.cell_at_spec(loc) {
                Some(s) => if !self.registry.trait_known(trait_id) {
                    Err(ResolveError::UnknownTrait(trait_id))
                } else if self.registry.implements_spec(s.type_id, trait_id) {
                    Ok(Some(loc))
                } else {
                    Ok(None)
                },
                None => Err(ResolveError::InvalidReference),
            },
            Resolution::Unfinished(t) => Err(ResolveError::Unfinished(t)),
            Resolution::Failed(e) => Err(ResolveError::Fatal(e)),
            Resolution::Invalid => Err(ResolveError::InvalidReference),
        }
    }

    /// Outcome of a runtime downcast to a concrete value type: resolve, then
    /// compare the cell's runtime value type id.
    pub open spec fn value_cast_spec(self, raw: RawVc, type_id: ValueTypeId) -> Result<
        Option<RawVc>,
        ResolveError,
    > {
        match self.resolve_spec(raw) {
            Resolution::Done(loc) => match self.cell_at_spec(loc) {
                Some(s) => if s.type_id == type_id {
                    Ok(Some(loc))
                } else {
                    Ok(None)
                },
                None => Err(ResolveError::InvalidReference),
            },
            Resolution::Unfinished(t) => Err(ResolveError::Unfinished(t)),
            Resolution::Failed(e) => Err(ResolveError::Fatal(e)),
            Resolution::Invalid => Err(ResolveError::InvalidReference),
        }
    }

    /// Outcome of materializing a settled locator into the stored snapshot
    /// under a handle's type tag: the cell must exist and its stored type
    /// must match the tag.
    pub open spec fn materialize_spec(self, loc: RawVc, type_id: ValueTypeId) -> Result<
        SharedReference,
        ResolveError,
    > {
        match self.cell_at_spec(loc) {
            Some(s) => if s.type_id == type_id {
                Ok(s)
            } else {
                Err(ResolveError::TypeMismatch { expected: type_id, found: s.type_id })
            },
            None => Err(ResolveError::InvalidReference),
        }
    }

    /// Outcome of materializing a read under the handle's type tag: resolve,
    /// find the cell, and require the stored type to match the tag.
    pub open spec fn read_spec(self, raw: RawVc, type_id: ValueTypeId) -> Result<
        SharedReference,
        ResolveError,
    > {
        match self.resolve_spec(raw) {
            Resolution::Done(loc) => self.materialize_spec(loc, type_id),
            Resolution::Unfinished(t) => Err(ResolveError::Unfinished(t)),
            Resolution::Failed(e) => Err(ResolveError::Fatal(e)),
            Resolution::Invalid => Err(ResolveError::InvalidReference),
        }
    }

    /// The number of subtasks task `root` created.
    pub open spec fn children_len(self, root: int) -> int {
        if 0 <= root < self.tasks@.len() {
            self.tasks@[root].children@.len() as int
        } else {
            0
        }
    }

    /// Task `t` lies in the subgraph reachable from `root` along creation
    /// edges (which always lead to strictly later tasks).
    pub open spec fn in_subgraph(self, root: int, t: int) -> bool
        decreases self.tasks@.len() - root, self.children_len(root) + 1,
    {
        0 <= root < self.tasks@.len() && (root == t || self.in_child_subgraph(root, 0, t))
    }

    /// Task `t` lies in the subgraph of one of the children of `root` from
    /// position `i` on.
    pub open spec fn in_child_subgraph(self, root: int, i: int, t: int) -> bool
        decreases self.tasks@.len() - root, self.children_len(root) - i,
    {
        0 <= root < self.tasks@.len() && 0 <= i < self.tasks@[root].children@.len() && {
            ||| (if root < self.tasks@[root].children@[i] < self.tasks@.len() {
                self.in_subgraph(self.tasks@[root].children@[i] as int, t)
            } else {
                false
            })
            ||| self.in_child_subgraph(root, i + 1, t)
        }
    }

    /// The entire transitive subgraph reachable from `root` has finished all
    /// outstanding scheduled work.
    pub open spec fn subgraph_done_spec(self, root: int) -> bool {
        forall|t: int| #[trigger]
            self.in_subgraph(root, t) ==> !(self.tasks@[t].output is Pending)
    }

    /// No task in the transitive subgraph reachable from `root` terminated
    /// with a fatal failure.
    pub open spec fn subgraph_fatal_free(self, root: int) -> bool {
        forall|t: int| #[trigger]
            self.in_subgraph(root, t) ==> !(self.tasks@[t].output is Failed)
    }

    /// The locator's target task is known to this engine (for a local cell:
    /// its owning execution is).
    pub open spec fn target_in_tasks(self, loc: RawVc) -> bool {
        match loc {
            RawVc::TaskCell { task, .. } => task < self.tasks@.len(),
            RawVc::LocalCell { execution, .. } => execution < self.executions@.len(),
            RawVc::TaskOutput { task } => task < self.tasks@.len(),
        }
    }

    /// The task a settled locator's value belongs to.
    pub open spec fn target_task_spec(self, loc: RawVc) -> int {
        match loc {
            RawVc::TaskCell { task, .. } => task as int,
            RawVc::LocalCell { execution, .. } => self.executions@[execution as int].task as int,
            RawVc::TaskOutput { task } => task as int,
        }
    }

    /// Searches the subgraph of `root` for a task that has not finished.
    /// `None` means the whole subgraph is done.
    pub fn find_pending(&self, root: TaskId) -> (r: Option<TaskId>)
        requires
            self.wf(),
            root < self.tasks@.len(),
        ensures
            match r {
                None => self.subgraph_done_spec(root as int),
                Some(t) => self.in_subgraph(root as int, t as int) && self.tasks@[t as int].output
                    is Pending,
            },
        decreases self.tasks@.len() - root,
    {
        if matches!(&self.tasks[root].output, OutputState::Pending) {
            return Some(root);
        }
        let mut i: usize = 0;
        while i < self.tasks[root].children.len()
            invariant
                self.wf(),
                root < self.tasks@.len(),
                !(self.tasks@[root as int].output is Pending),
                i <= self.tasks@[root as int].children@.len(),
                forall|j: int|
                    0 <= j < i ==> self.subgraph_done_spec(
                        #[trigger] self.tasks@[root as int].children@[j] as int,
                    ),
            decreases self.tasks@[root as int].children@.len() - i,
        {
            proof {
                assert(self.task_wf(root as int));
            }
            let c = self.tasks[root].children[i];
            match self.find_pending(c) {
                Some(t) => {
                    proof {
                        lemma_in_child_subgraph(*self, root as int, 0, t as int);
                        assert(0 <= i < self.tasks@[root as int].children@.len() && root
                            < self.tasks@[root as int].children@[i as int] < self.tasks@.len()
                            && self.in_subgraph(
                            self.tasks@[root as int].children@[i as int] as int,
                            t as int,
                        ));
                    }
                    return Some(t);
                },
                None => {},
            }
            i += 1;
        }
        proof {
            lemma_subgraph_done_unfold(*self, root as int);
        }
        None
    }

    /// Searches the subgraph of `root` for a task that failed fatally.
    /// `None` means no fatal failure hides anywhere in the subgraph.
    pub fn find_failed(&self, root: TaskId) -> (r: Option<TaskId>)
        requires
            self.wf(),
            root < self.tasks@.len(),
        ensures
            match r {
                None => self.subgraph_fatal_free(root as int),
                Some(t) => self.in_subgraph(root as int, t as int) && self.tasks@[t as int].output
                    is Failed,
            },
        decreases self.tasks@.len() - root,
    {
        if matches!(&self.tasks[root].output, OutputState::Failed(_)) {
            return Some(root);
        }
        let mut i: usize = 0;
        while i < self.tasks[root].children.len()
            invariant
                self.wf(),
                root < self.tasks@.len(),
                !(self.tasks@[root as int].output is Failed),
                i <= self.tasks@[root as int].children@.len(),
                forall|j: int|
                    0 <= j < i ==> self.subgraph_fatal_free(
                        #[trigger] self.tasks@[root as int].children@[j] as int,
                    ),
            decreases self.tasks@[root as int].children@.len() - i,
        {
            proof {
                assert(self.task_wf(root as int));
            }
            let c = self.tasks[root].children[i];
            match self.find_failed(c) {
                Some(t) => {
                    proof {
                        lemma_in_child_subgraph(*self, root as int, 0, t as int);
                        assert(0 <= i < self.tasks@[root as int].children@.len() && root
                            < self.tasks@[root as int].children@[i as int] < self.tasks@.len()
                            && self.in_subgraph(
                            self.tasks@[root as int].children@[i as int] as int,
                            t as int,
                        ));
                    }
                    return Some(t);
                },
                None => {},
            }
            i += 1;
        }
        proof {
            lemma_subgraph_fatal_free_unfold(*self, root as int);
        }
        None
    }

    /// The deduplicated set of collectibles of capability `trait_id` emitted
    /// by the subgraph reachable from `root`, keyed by handle identity.
    /// Ordering is irrelevant.
    pub open spec fn collected_spec(self, root: int, trait_id: TraitTypeId) -> Set<RawVc>
        decreases self.tasks@.len() - root, self.children_len(root) + 1,
    {
        if 0 <= root < self.tasks@.len() {
            own_set(self.tasks@[root].collectibles@, trait_id) + self.child_collected(
                root,
                self.tasks@[root].children@.len() as int,
                trait_id,
            )
        } else {
            Set::empty()
        }
    }

    /// The union of the collected sets of the first `i` children of `root`.
    pub open spec fn child_collected(self, root: int, i: int, trait_id: TraitTypeId) -> Set<RawVc>
        decreases self.tasks@.len() - root, (if i >= 0 { i } else { 0 }),
    {
        if 0 <= root < self.tasks@.len() && 0 < i <= self.tasks@[root].children@.len() {
            self.child_collected(root, i - 1, trait_id) + (if root < self.tasks@[root].children@[i
                - 1] < self.tasks@.len() {
                self.collected_spec(self.tasks@[root].children@[i - 1] as int, trait_id)
            } else {
                Set::empty()
            })
        } else {
            Set::empty()
        }
    }

    /// All collectibles of capability `trait_id` emitted by the subgraph
    /// reachable from the given task, each handle once, in unspecified
    /// order. Non-destructive; [`Engine::take_collectibles_raw`] also drains
    /// them.
    pub fn peek_collectibles_raw(&self, root: TaskId, trait_id: TraitTypeId) -> (r: Vec<RawVc>)
        requires
            self.wf(),
            root < self.tasks@.len(),
        ensures
            forall|node: RawVc|
                r@.contains(node) <==> self.collected_spec(root as int, trait_id).contains(node),
            no_dup(r@),
    {
        let acc: Vec<RawVc> = Vec::new();
        self.collect_into(root, trait_id, acc)
    }

    fn collect_into(&self, root: TaskId, trait_id: TraitTypeId, acc0: Vec<RawVc>) -> (r: Vec<
        RawVc,
    >)
        requires
            self.wf(),
            root < self.tasks@.len(),
            no_dup(acc0@),
        ensures
            forall|node: RawVc|
                r@.contains(node) <==> (acc0@.contains(node) || self.collected_spec(
                    root as int,
                    trait_id,
                ).contains(node)),
            no_dup(r@),
        decreases self.tasks@.len() - root,
    {
        let ghost pre = acc0@;
        let ghost cols = self.tasks@[root as int].collectibles@;
        let mut acc = acc0;
        let ghost mut seen: Set<RawVc> = Set::empty();
        let mut k: usize = 0;
        while k < self.tasks[root].collectibles.len()
            invariant
                self.wf(),
                root < self.tasks@.len(),
                cols == self.tasks@[root as int].collectibles@,
                k <= cols.len(),
                no_dup(acc@),
                seen == own_set(cols.take(k as int), trait_id),
                forall|node: RawVc|
                    acc@.contains(node) <==> (pre.contains(node) || seen.contains(node)),
            decreases cols.len() - k,
        {
            let c = self.tasks[root].collectibles[k];
            if c.trait_id == trait_id {
                push_unique(&mut acc, c.node);
                proof {
                    seen = seen.insert(c.node);
                }
            }
            proof {
                let taken = cols.take(k + 1);
                assert(taken.drop_last() =~= cols.take(k as int));
                assert(taken.last() == cols[k as int]);
                if cols[k as int].trait_id == trait_id {
                    assert(seen =~= own_set(cols.take(k as int), trait_id) + Set::empty().insert(
                        cols[k as int].node,
                    ));
                } else {
                    assert(own_set(taken, trait_id) =~= own_set(cols.take(k as int), trait_id));
                }
                assert(seen == own_set(taken, trait_id));
            }
            k += 1;
        }
        proof {
            assert(cols.take(cols.len() as int) =~= cols);
        }
        let ghost after_own = acc@;
        let ghost children = self.tasks@[root as int].children@;
        let ghost own_full = own_set(cols, trait_id);
        let ghost mut got: Set<RawVc> = Set::empty();
        let mut i: usize = 0;
        while i < self.tasks[root].children.len()
            invariant
                self.wf(),
                root < self.tasks@.len(),
                children == self.tasks@[root as int].children@,
                i <= children.len(),
                no_dup(acc@),
                got == self.child_collected(root as int, i as int, trait_id),
                forall|node: RawVc|
                    acc@.contains(node) <==> (after_own.contains(node) || got.contains(node)),
            decreases children.len() - i,
        {
            proof {
                assert(self.task_wf(root as int));
            }
            let c = self.tasks[root].children[i];
            acc = self.collect_into(c, trait_id, acc);
            proof {
                assert(self.child_collected(root as int, i + 1, trait_id) == got
                    + self.collected_spec(c as int, trait_id));
                got = got + self.collected_spec(c as int, trait_id);
            }
            i += 1;
        }
        proof {
            assert(self.collected_spec(root as int, trait_id) == own_full + got);
            assert forall|node: RawVc| acc@.contains(node) <==> (pre.contains(node)
                || self.collected_spec(root as int, trait_id).contains(node)) by {
                assert(after_own.contains(node) <==> (pre.contains(node) || own_full.contains(
                    node,
                )));
            }
        }
        acc
    }

    /// Whether task `t` lies in the subgraph reachable from `root`.
    fn is_in_subgraph(&self, root: TaskId, t: TaskId) -> (r: bool)
        requires
            self.wf(),
            root < self.tasks@.len(),
        ensures
            r == self.in_subgraph(root as int, t as int),
        decreases self.tasks@.len() - root,
    {
        if root == t {
            return true;
        }
        let mut i: usize = 0;
        while i < self.tasks[root].children.len()
            invariant
                self.wf(),
                root < self.tasks@.len(),
                i <= self.tasks@[root as int].children@.len(),
                forall|j: int|
                    0 <= j < i ==> !self.in_subgraph(
                        #[trigger] self.tasks@[root as int].children@[j] as int,
                        t as int,
                    ),
            decreases self.tasks@[root as int].children@.len() - i,
        {
            proof {
                assert(self.task_wf(root as int));
            }
            let c = self.tasks[root].children[i];
            if self.is_in_subgraph(c, t) {
                proof {
                    lemma_in_child_subgraph(*self, root as int, 0, t as int);
                    assert(0 <= i < self.tasks@[root as int].children@.len() && root
                        < self.tasks@[root as int].children@[i as int] < self.tasks@.len()
                        && self.in_subgraph(
                        self.tasks@[root as int].children@[i as int] as int,
                        t as int,
                    ));
                }
                return true;
            }
            i += 1;
        }
        proof {
            lemma_in_child_subgraph(*self, root as int, 0, t as int);
            if self.in_subgraph(root as int, t as int) {
                let j = choose|j: int|
                    0 <= j < self.tasks@[root as int].children@.len() && root
                        < self.tasks@[root as int].children@[j] < self.tasks@.len()
                        && self.in_subgraph(
                        #[trigger] self.tasks@[root as int].children@[j] as int,
                        t as int,
                    );
                assert(!self.in_subgraph(self.tasks@[root as int].children@[j] as int, t as int));
            }
        }
        false
    }

    /// One task's part of what a take leaves behind: all fields unchanged,
    /// except that a task inside the drained subgraph loses exactly the
    /// collectibles of the drained capability.
    pub open spec fn task_cleared(
        pre: Engine,
        post: Engine,
        root: int,
        trait_id: TraitTypeId,
        u: int,
    ) -> bool {
        &&& post.tasks@[u].output == pre.tasks@[u].output
        &&& post.tasks@[u].cells@ == pre.tasks@[u].cells@
        &&& post.tasks@[u].children@ == pre.tasks@[u].children@
        &&& post.tasks@[u].dependencies@ == pre.tasks@[u].dependencies@
        &&& post.tasks@[u].collectibles@ == (if pre.in_subgraph(root, u) {
            pre.tasks@[u].collectibles@.filter(keep_pred(trait_id))
        } else {
            pre.tasks@[u].collectibles@
        })
    }

    /// What draining collectibles does to the state: nothing but the
    /// collectible lists of the drained subgraph's tasks changes.
    pub open spec fn cleared_post(
        pre: Engine,
        post: Engine,
        root: int,
        trait_id: TraitTypeId,
    ) -> bool {
        &&& post.tasks@.len() == pre.tasks@.len()
        &&& post.executions == pre.executions
        &&& post.registry == pre.registry
        &&& post.current == pre.current
        &&& forall|u: int|
            0 <= u < pre.tasks@.len() ==> #[trigger] Engine::task_cleared(
                pre,
                post,
                root,
                trait_id,
                u,
            )
    }

    fn clear_collectibles(&mut self, root: TaskId, trait_id: TraitTypeId)
        requires
            old(self).wf(),
            root < old(self).tasks@.len(),
        ensures
            final(self).wf(),
            Engine::cleared_post(*old(self), *final(self), root as int, trait_id),
    {
        let n = self.tasks.len();
        let mut t: usize = 0;
        while t < n
            invariant
                self.wf(),
                old(self).wf(),
                n == old(self).tasks@.len(),
                root < n,
                self.tasks@.len() == n,
                t <= n,
                self.executions == old(self).executions,
                self.registry == old(self).registry,
                self.current == old(self).current,
                same_graph(*old(self), *self),
                forall|u: int|
                    0 <= u < t ==> #[trigger] Engine::task_cleared(
                        *old(self),
                        *self,
                        root as int,
                        trait_id,
                        u,
                    ),
                forall|u: int| t <= u < n ==> self.tasks@[u] == old(self).tasks@[u],
            decreases n - t,
        {
            let ghost before = *self;
            proof {
                lemma_in_subgraph_frame(*old(self), before, root as int, t as int);
            }
            let in_sub = self.is_in_subgraph(root, t);
            if in_sub {
                let filtered = filter_collectibles(&self.tasks[t].collectibles, trait_id);
                let task = &mut self.tasks[t];
                task.collectibles = filtered;
            }
            proof {
                assert forall|t2: int| 0 <= t2 < self.tasks@.len() implies #[trigger] self.task_wf(
                    t2,
                ) by {
                    assert(before.task_wf(t2));
                }
                assert forall|u: int| 0 <= u < t + 1 implies #[trigger] Engine::task_cleared(
                    *old(self),
                    *self,
                    root as int,
                    trait_id,
                    u,
                ) by {
                    if u < t {
                        assert(Engine::task_cleared(*old(self), before, root as int, trait_id, u));
                        assert(self.tasks@[u] == before.tasks@[u]);
                    } else {
                        assert(before.tasks@[u] == old(self).tasks@[u]);
                    }
                }
            }
            t += 1;
        }
    }

    /// The single upgrade path for crossing an execution boundary: a cell
    /// local to the current execution becomes a normal settled reference by
    /// storing a snapshot of its value as a fresh persisted cell of the
    /// current task. Any other locator is already crossable and is returned
    /// unchanged; a local cell of another execution, or one that does not
    /// exist, is invalid.
    pub fn upgrade_local(&mut self, raw: RawVc) -> (r: Result<RawVc, ResolveError>)
        requires
            old(self).wf(),
            old(self).tasks@[old(self).cur_task()].cells@.len() < usize::MAX,
        ensures
            final(self).wf(),
            match raw {
                RawVc::LocalCell { execution, .. } => {
                    if execution == old(self).current {
                        match old(self).cell_at_spec(raw) {
                            Some(s) => r matches Ok(loc) && Engine::new_cell_post(
                                *old(self),
                                *final(self),
                                loc,
                                s.type_id,
                                crate::value::arc_value(s.data)@,
                            ),
                            None => r == Err::<RawVc, ResolveError>(ResolveError::InvalidReference)
                                && *final(self) == *old(self),
                        }
                    } else {
                        r == Err::<RawVc, ResolveError>(ResolveError::InvalidReference)
                            && *final(self) == *old(self)
                    }
                },
                _ => r == Ok::<RawVc, ResolveError>(raw) && *final(self) == *old(self),
            },
    {
        match raw {
            RawVc::LocalCell { execution, index } => {
                if execution != self.current {
                    return Err(ResolveError::InvalidReference);
                }
                if index >= self.executions[execution].cells.len() {
                    return Err(ResolveError::InvalidReference);
                }
                let s = &self.executions[execution].cells[index];
                let type_id = s.type_id;
                let v = crate::value::value_dup(s.value());
                Ok(self.new_cell(type_id, v))
            },
            _ => Ok(raw),
        }
    }

    /// Drains the collectibles of capability `trait_id` emitted by the
    /// subgraph reachable from `root`: what `peek` would return is returned,
    /// and those collectibles are removed from every task of the subgraph,
    /// so they take no further part in aggregation upward.
    pub fn take_collectibles_raw(&mut self, root: TaskId, trait_id: TraitTypeId) -> (r: Vec<RawVc>)
        requires
            old(self).wf(),
            root < old(self).tasks@.len(),
        ensures
            final(self).wf(),
            forall|node: RawVc|
                r@.contains(node) <==> old(self).collected_spec(root as int, trait_id).contains(
                    node,
                ),
            no_dup(r@),
            Engine::cleared_post(*old(self), *final(self), root as int, trait_id),
    {
        let out = self.peek_collectibles_raw(root, trait_id);
        self.clear_collectibles(root, trait_id);
        out
    }

    fn resolve_output(&self, task: TaskId) -> (r: Result<RawVc, ResolveError>)
        ensures
            r == as_raw_result(self.resolve_output_spec(task as int)),
        decreases self.tasks@.len() - task,
    {
        if task >= self.tasks.len() {
            return Err(ResolveError::InvalidReference);
        }
        match &self.tasks[task].output {
            OutputState::Pending => Err(ResolveError::Unfinished(task)),
            OutputState::Failed(e) => Err(ResolveError::Fatal(*e)),
            OutputState::Done(loc) => match loc {
                RawVc::TaskOutput { task: t2 } => {
                    if task < *t2 && *t2 < self.tasks.len() {
                        self.resolve_output(*t2)
                    } else {
                        Err(ResolveError::InvalidReference)
                    }
                },
                RawVc::TaskCell { .. } => Ok(*loc),
                RawVc::LocalCell { .. } => Err(ResolveError::InvalidReference),
            },
        }
    }

    /// Resolves a locator until it is settled and canonical, or reports why
    /// it cannot be: the backing task is unfinished, it failed fatally (the
    /// failure is propagated verbatim), or the reference is invalid here.
    pub fn resolve_raw(&self, raw: RawVc) -> (r: Result<RawVc, ResolveError>)
        ensures
            r == as_raw_result(self.resolve_spec(raw)),
    {
        match raw {
            RawVc::TaskCell { .. } => Ok(raw),
            RawVc::LocalCell { execution, .. } => {
                if execution == self.current {
                    Ok(raw)
                } else {
                    Err(ResolveError::InvalidReference)
                }
            },
            RawVc::TaskOutput { task } => self.resolve_output(task),
        }
    }

    /// Borrow of the stored snapshot a settled locator addresses.
    pub fn cell_at(&self, loc: RawVc) -> (r: Option<&SharedReference>)
        ensures
            match r {
                Some(s) => self.cell_at_spec(loc) == Some(*s),
                None => self.cell_at_spec(loc) is None,
            },
    {
        match loc {
            RawVc::TaskCell { task, cell } => {
                if task < self.tasks.len() && cell.index < self.tasks[task].cells.len() {
                    let s = &self.tasks[task].cells[cell.index];
                    if s.type_id == cell.type_id {
                        Some(s)
                    } else {
                        None
                    }
                } else {
                    None
                }
            },
            RawVc::LocalCell { execution, index } => {
                if execution < self.executions.len() && index
                    < self.executions[execution].cells.len() {
                    Some(&self.executions[execution].cells[index])
                } else {
                    None
                }
            },
            RawVc::TaskOutput { .. } => None,
        }
    }

    /// A fresh engine: one root task, one execution running it, an empty
    /// registry. The registry is then populated during startup, before any
    /// cells are created.
    pub fn new() -> (e: Engine)
        ensures
            e.wf(),
            e.registry.value_types@.len() == 0,
            e.registry.trait_count == 0,
            e.tasks@.len() == 1,
            e.tasks@[0].output is Pending,
            e.tasks@[0].cells@.len() == 0,
            e.tasks@[0].children@.len() == 0,
            e.tasks@[0].collectibles@.len() == 0,
            e.executions@.len() == 1,
            e.current == 0,
            e.executions@[0].task == 0,
            !e.executions@[0].local_cells,
            e.executions@[0].cells@.len() == 0,
    {
        let root = Task {
            output: OutputState::Pending,
            cells: Vec::new(),
            children: Vec::new(),
            dependencies: Vec::new(),
            collectibles: Vec::new(),
        };
        let exec = Execution { task: 0, cells: Vec::new(), local_cells: false };
        let mut tasks: Vec<Task> = Vec::new();
        tasks.push(root);
        let mut executions: Vec<Execution> = Vec::new();
        executions.push(exec);
        let e = Engine { registry: Registry::new(), tasks, executions, current: 0 };
        proof {
            assert forall|t: int| 0 <= t < e.tasks@.len() implies #[trigger] e.task_wf(t) by {}
        }
        e
    }

    /// Creates a pending subtask of the current task and returns its id.
    pub fn create_task(&mut self) -> (t: TaskId)
        requires
            old(self).wf(),
            old(self).tasks@.len() < usize::MAX,
        ensures
            final(self).wf(),
            t == old(self).tasks@.len(),
            final(self).tasks@.len() == old(self).tasks@.len() + 1,
            final(self).tasks@[t as int].output is Pending,
            final(self).tasks@[t as int].cells@.len() == 0,
            final(self).tasks@[t as int].children@.len() == 0,
            final(self).tasks@[t as int].collectibles@.len() == 0,
            final(self).tasks@[old(self).cur_task()].children@ == old(self).tasks@[old(
                self,
            ).cur_task()].children@.push(t),
            forall|t2: int|
                0 <= t2 < old(self).tasks@.len() && t2 != old(self).cur_task()
                    ==> final(self).tasks@[t2] == old(self).tasks@[t2],
            final(self).tasks@[old(self).cur_task()].output == old(self).tasks@[old(
                self,
            ).cur_task()].output,
            final(self).tasks@[old(self).cur_task()].cells@ == old(self).tasks@[old(
                self,
            ).cur_task()].cells@,
            final(self).tasks@[old(self).cur_task()].collectibles@ == old(self).tasks@[old(
                self,
            ).cur_task()].collectibles@,
            final(self).executions == old(self).executions,
            final(self).registry == old(self).registry,
            final(self).current == old(self).current,
    {
        let t = self.tasks.len();
        self.tasks.push(
            Task {
                output: OutputState::Pending,
                cells: Vec::new(),
                children: Vec::new(),
                dependencies: Vec::new(),
                collectibles: Vec::new(),
            },
        );
        let parent = self.executions[self.current].task;
        let parent_task = &mut self.tasks[parent];
        parent_task.children.push(t);
        proof {
            assert forall|t2: int| 0 <= t2 < self.tasks@.len() implies #[trigger] self.task_wf(
                t2,
            ) by {
                if t2 < old(self).tasks@.len() {
                    assert(old(self).task_wf(t2));
                    if t2 == parent as int {
                        assert forall|i: int|
                            0 <= i < self.tasks@[t2].children@.len() implies t2
                            < #[trigger] self.tasks@[t2].children@[i] < self.tasks@.len() by {
                            if i < old(self).tasks@[t2].children@.len() {
                                assert(old(self).tasks@[t2].children@[i]
                                    == self.tasks@[t2].children@[i]);
                            }
                        }
                    }
                }
            }
        }
        t
    }

    /// Marks a pending task as finished with the given settled output. The
    /// output must be sound for the task: an existing, type-consistent cell,
    /// or the output of a strictly later task.
    pub fn complete_task(&mut self, t: TaskId, loc: RawVc)
        requires
            old(self).wf(),
            t < old(self).tasks@.len(),
            old(self).tasks@[t as int].output is Pending,
            old(self).done_ok(loc, t as int),
        ensures
            final(self).wf(),
            final(self).tasks@.len() == old(self).tasks@.len(),
            final(self).tasks@[t as int].output == OutputState::Done(loc),
            final(self).tasks@[t as int].cells@ == old(self).tasks@[t as int].cells@,
            final(self).tasks@[t as int].children@ == old(self).tasks@[t as int].children@,
            final(self).tasks@[t as int].collectibles@ == old(self).tasks@[t as int].collectibles@,
            forall|t2: int|
                0 <= t2 < old(self).tasks@.len() && t2 != t ==> final(self).tasks@[t2] == old(
                    self,
                ).tasks@[t2],
            final(self).executions == old(self).executions,
            final(self).registry == old(self).registry,
            final(self).current == old(self).current,
    {
        let task = &mut self.tasks[t];
        task.output = OutputState::Done(loc);
        proof {
            assert forall|t2: int| 0 <= t2 < self.tasks@.len() implies #[trigger] self.task_wf(
                t2,
            ) by {
                assert(old(self).task_wf(t2));
            }
        }
    }

    /// Marks a pending task as fatally failed.
    pub fn fail_task(&mut self, t: TaskId, err: FatalError)
        requires
            old(self).wf(),
            t < old(self).tasks@.len(),
            old(self).tasks@[t as int].output is Pending,
        ensures
            final(self).wf(),
            final(self).tasks@.len() == old(self).tasks@.len(),
            final(self).tasks@[t as int].output == OutputState::Failed(err),
            final(self).tasks@[t as int].cells@ == old(self).tasks@[t as int].cells@,
            final(self).tasks@[t as int].children@ == old(self).tasks@[t as int].children@,
            final(self).tasks@[t as int].collectibles@ == old(self).tasks@[t as int].collectibles@,
            forall|t2: int|
                0 <= t2 < old(self).tasks@.len() && t2 != t ==> final(self).tasks@[t2] == old(
                    self,
                ).tasks@[t2],
            final(self).executions == old(self).executions,
            final(self).registry == old(self).registry,
            final(self).current == old(self).current,
    {
        let task = &mut self.tasks[t];
        task.output = OutputState::Failed(err);
        proof {
            assert forall|t2: int| 0 <= t2 < self.tasks@.len() implies #[trigger] self.task_wf(
                t2,
            ) by {
                assert(old(self).task_wf(t2));
            }
        }
    }

    /// Starts a new execution context for the given task and makes it
    /// current. Execution ids are never reused.
    pub fn begin_execution(&mut self, task: TaskId, local_cells: bool) -> (e: ExecutionId)
        requires
            old(self).wf(),
            task < old(self).tasks@.len(),
            old(self).executions@.len() < usize::MAX,
        ensures
            final(self).wf(),
            e == old(self).executions@.len(),
            final(self).executions@.len() == old(self).executions@.len() + 1,
            forall|i: int|
                0 <= i < old(self).executions@.len() ==> final(self).executions@[i] == old(
                    self,
                ).executions@[i],
            final(self).executions@[e as int].task == task,
            final(self).executions@[e as int].cells@.len() == 0,
            final(self).executions@[e as int].local_cells == local_cells,
            final(self).current == e,
            final(self).tasks == old(self).tasks,
            final(self).registry == old(self).registry,
    {
        let e = self.executions.len();
        self.executions.push(Execution { task, cells: Vec::new(), local_cells });
        self.current = e;
        proof {
            assert forall|t2: int| 0 <= t2 < self.tasks@.len() implies #[trigger] self.task_wf(
                t2,
            ) by {
                assert(old(self).task_wf(t2));
            }
        }
        e
    }

    /// Registers a dependency edge from the current task to the given node.
    pub fn connect_raw(&mut self, raw: RawVc)
        requires
            old(self).wf(),
        ensures
            final(self).wf(),
            Engine::connect_post(*old(self), *final(self), raw),
    {
        let cur = self.executions[self.current].task;
        let task = &mut self.tasks[cur];
        task.dependencies.push(raw);
        proof {
            assert forall|t2: int| 0 <= t2 < self.tasks@.len() implies #[trigger] self.task_wf(
                t2,
            ) by {
                assert(old(self).task_wf(t2));
            }
        }
    }

    /// Emits a collectible from the current task under the given capability.
    /// Collectible sets are keyed by handle identity, so the node is stored
    /// under its post-resolution locator where it already resolves; a node
    /// that cannot be canonicalized yet keeps its own identity.
    pub fn emit_collectible(&mut self, trait_id: TraitTypeId, node: RawVc)
        requires
            old(self).wf(),
        ensures
            final(self).wf(),
            final(self).tasks@[old(self).cur_task()].collectibles@ == old(self).tasks@[old(
                self,
            ).cur_task()].collectibles@.push(
                Collectible { trait_id, node: old(self).canonical_spec(node) },
            ),
            forall|t2: int|
                0 <= t2 < old(self).tasks@.len() && t2 != old(self).cur_task()
                    ==> final(self).tasks@[t2] == old(self).tasks@[t2],
            final(self).tasks@.len() == old(self).tasks@.len(),
            final(self).tasks@[old(self).cur_task()].output == old(self).tasks@[old(
                self,
            ).cur_task()].output,
            final(self).tasks@[old(self).cur_task()].cells@ == old(self).tasks@[old(
                self,
            ).cur_task()].cells@,
            final(self).tasks@[old(self).cur_task()].children@ == old(self).tasks@[old(
                self,
            ).cur_task()].children@,
            final(self).executions == old(self).executions,
            final(self).registry == old(self).registry,
            final(self).current == old(self).current,
    {
        let stored = match self.resolve_raw(node) {
            Ok(loc) => loc,
            Err(_) => node,
        };
        let cur = self.executions[self.current].task;
        let task = &mut self.tasks[cur];
        task.collectibles.push(Collectible { trait_id, node: stored });
        proof {
            assert forall|t2: int| 0 <= t2 < self.tasks@.len() implies #[trigger] self.task_wf(
                t2,
            ) by {
                assert(old(self).task_wf(t2));
            }
        }
    }

    /// Allocates a fresh persisted cell in the current task, holding `v`
    /// (normalized once, at creation) under the given type tag, and returns
    /// its settled locator.
    pub fn new_cell(&mut self, type_id: ValueTypeId, v: Value) -> (loc: RawVc)
        requires
            old(self).wf(),
            old(self).tasks@[old(self).cur_task()].cells@.len() < usize::MAX,
        ensures
            final(self).wf(),
            Engine::new_cell_post(*old(self), *final(self), loc, type_id, v@),
    {
        let cur = self.executions[self.current].task;
        let mut v = v;
        shrink_value(&mut v);
        let sr = SharedReference::new(type_id, v);
        let task = &mut self.tasks[cur];
        let index = task.cells.len();
        task.cells.push(sr);
        let loc = RawVc::TaskCell { task: cur, cell: CellId { type_id, index } };
        proof {
            assert forall|t2: int| 0 <= t2 < self.tasks@.len() implies #[trigger] self.task_wf(
                t2,
            ) by {
                assert(old(self).task_wf(t2));
                match self.tasks@[t2].output {
                    OutputState::Done(loc2) => match loc2 {
                        RawVc::TaskCell { task: tt, cell: cc } => {
                            if tt == cur {
                                assert(self.tasks@[tt as int].cells@[cc.index as int] == old(
                                    self,
                                ).tasks@[tt as int].cells@[cc.index as int]);
                            }
                        },
                        _ => {},
                    },
                    _ => {},
                }
            }
        }
        loc
    }

    /// Creates or updates a persisted cell in the current task under the
    /// dedup-by-equality update mode: if some cell of this type already holds
    /// an observably equal value, its locator is returned and nothing
    /// changes (no downstream invalidation); otherwise a fresh cell is
    /// allocated as under the new-slot mode.
    pub fn shared_cell(&mut self, type_id: ValueTypeId, v: Value) -> (loc: RawVc)
        requires
            old(self).wf(),
            old(self).tasks@[old(self).cur_task()].cells@.len() < usize::MAX,
        ensures
            final(self).wf(),
            Engine::shared_cell_post(*old(self), *final(self), loc, type_id, v@),
    {
        let cur = self.executions[self.current].task;
        let found = find_cell_from(&self.tasks[cur].cells, type_id, &v, 0);
        match found {
            Some(j) => {
                proof {
                    crate::engine::lemma_first_match_in_range(
                        self.tasks@[cur as int].cells@,
                        type_id,
                        v@,
                        0,
                    );
                }
                RawVc::TaskCell { task: cur, cell: CellId { type_id, index: j } }
            },
            None => self.new_cell(type_id, v),
        }
    }

    /// Allocates a fresh cell local to the current execution, holding `v`
    /// (normalized once, at creation) under the given type tag. Local cells
    /// always get a new slot: they are never stored across executions, so
    /// there is no notion of updating one.
    pub fn new_local_cell(&mut self, type_id: ValueTypeId, v: Value) -> (loc: RawVc)
        requires
            old(self).wf(),
            old(self).executions@[old(self).current as int].cells@.len() < usize::MAX,
        ensures
            final(self).wf(),
            Engine::local_cell_post(*old(self), *final(self), loc, type_id, v@),
    {
        let mut v = v;
        shrink_value(&mut v);
        let sr = SharedReference::new(type_id, v);
        let exec = &mut self.executions[self.current];
        let index = exec.cells.len();
        exec.cells.push(sr);
        let loc = RawVc::LocalCell { execution: self.current, index };
        proof {
            assert forall|t2: int| 0 <= t2 < self.tasks@.len() implies #[trigger] self.task_wf(
                t2,
            ) by {
                assert(old(self).task_wf(t2));
            }
        }
        loc
    }
}

/// No locator occurs twice.
pub open spec fn no_dup(s: Seq<RawVc>) -> bool {
    forall|i: int, j: int| 0 <= i < j < s.len() ==> s[i] != s[j]
}

fn vec_contains_raw(v: &Vec<RawVc>, x: RawVc) -> (r: bool)
    ensures
        r == v@.contains(x),
{
    let mut i: usize = 0;
    while i < v.len()
        invariant
            i <= v@.len(),
            forall|j: int| 0 <= j < i ==> v@[j] != x,
        decreases v@.len() - i,
    {
        if v[i] == x {
            return true;
        }
        i += 1;
    }
    false
}

fn push_unique(acc: &mut Vec<RawVc>, x: RawVc)
    requires
        no_dup(old(acc)@),
    ensures
        no_dup(final(acc)@),
        forall|node: RawVc|
            final(acc)@.contains(node) <==> (old(acc)@.contains(node) || node == x),
{
    if !vec_contains_raw(acc, x) {
        let ghost pre = acc@;
        acc.push(x);
        proof {
            assert(acc@.len() == pre.len() + 1 && acc@[pre.len() as int] == x);
            assert(forall|j: int| 0 <= j < pre.len() ==> acc@[j] == pre[j]);
            assert forall|node: RawVc| acc@.contains(node) <==> (pre.contains(node) || node
                == x) by {
                if acc@.contains(node) {
                    let idx = choose|idx: int| 0 <= idx < acc@.len() && acc@[idx] == node;
                    if idx < pre.len() {
                        assert(pre[idx] == node);
                        assert(pre.contains(node));
                    } else {
                        assert(node == x);
                    }
                } else {
                    if pre.contains(node) {
                        let idx = choose|idx: int| 0 <= idx < pre.len() && pre[idx] == node;
                        assert(acc@[idx] == node);
                        assert(acc@.contains(node));
                    }
                    assert(acc@[pre.len() as int] == x);
                    assert(acc@.contains(x));
                }
            }
            assert forall|i: int, j: int| 0 <= i < j < acc@.len() implies acc@[i] != acc@[j] by {
                if j == pre.len() {
                    assert(acc@[i] == pre[i]);
                    if pre[i] == x {
                        assert(pre.contains(x));
                    }
                } else {
                    assert(acc@[i] == pre[i] && acc@[j] == pre[j]);
                }
            }
        }
    }
}

/// Whether a collectible survives a take of capability `trait_id`.
pub open spec fn keep_pred(trait_id: TraitTypeId) -> spec_fn(Collectible) -> bool {
    |c: Collectible| c.trait_id != trait_id
}

fn filter_collectibles(cols: &Vec<Collectible>, trait_id: TraitTypeId) -> (r: Vec<Collectible>)
    ensures
        r@ == cols@.filter(keep_pred(trait_id)),
{
    let mut kept: Vec<Collectible> = Vec::new();
    proof {
        reveal(Seq::filter);
        assert(cols@.take(0).filter(keep_pred(trait_id)) =~= kept@);
    }
    let mut k: usize = 0;
    while k < cols.len()
        invariant
            k <= cols@.len(),
            kept@ == cols@.take(k as int).filter(keep_pred(trait_id)),
        decreases cols@.len() - k,
    {
        let c = cols[k];
        if c.trait_id != trait_id {
            kept.push(c);
        }
        proof {
            reveal(Seq::filter);
            let taken = cols@.take(k + 1);
            assert(taken.drop_last() =~= cols@.take(k as int));
            assert(taken.last() == cols@[k as int]);
        }
        k += 1;
    }
    proof {
        assert(cols@.take(cols@.len() as int) =~= cols@);
    }
    kept
}

/// The two states describe one graph: the same tasks with the same creation
/// edges (their other fields may differ).
pub open spec fn same_graph(e1: Engine, e2: Engine) -> bool {
    &&& e1.tasks@.len() == e2.tasks@.len()
    &&& forall|u: int|
        0 <= u < e1.tasks@.len() ==> (#[trigger] e1.tasks@[u].children@)
            == e2.tasks@[u].children@
}

/// Subgraph membership depends only on the graph, not on outputs, cells or
/// collectibles.
pub proof fn lemma_in_subgraph_frame(e1: Engine, e2: Engine, root: int, t: int)
    requires
        same_graph(e1, e2),
    ensures
        e1.in_subgraph(root, t) == e2.in_subgraph(root, t),
    decreases e1.tasks@.len() - root, e1.children_len(root) + 1,
{
    if 0 <= root < e1.tasks@.len() {
        lemma_in_child_subgraph_frame(e1, e2, root, 0, t);
    }
}

proof fn lemma_in_child_subgraph_frame(e1: Engine, e2: Engine, root: int, i: int, t: int)
    requires
        same_graph(e1, e2),
        0 <= root < e1.tasks@.len(),
    ensures
        e1.in_child_subgraph(root, i, t) == e2.in_child_subgraph(root, i, t),
    decreases e1.tasks@.len() - root, e1.children_len(root) - i,
{
    if 0 <= i < e1.tasks@[root].children@.len() {
        lemma_in_child_subgraph_frame(e1, e2, root, i + 1, t);
        let c = e1.tasks@[root].children@[i] as int;
        assert(e2.tasks@[root].children@ == e1.tasks@[root].children@);
        if root < c < e1.tasks@.len() {
            lemma_in_subgraph_frame(e1, e2, c, t);
        }
    }
}

/// A finished task output resolves to a task cell, never to a local cell or
/// an unsettled locator.
pub proof fn lemma_resolve_output_shape(e: Engine, task: int)
    ensures
        e.resolve_output_spec(task) matches Resolution::Done(loc) ==> loc is TaskCell,
    decreases e.tasks@.len() - task,
{
    if 0 <= task < e.tasks@.len() {
        match e.tasks@[task].output {
            OutputState::Done(loc) => match loc {
                RawVc::TaskOutput { task: t2 } => {
                    if task < t2 < e.tasks@.len() {
                        lemma_resolve_output_shape(e, t2 as int);
                    }
                },
                _ => {},
            },
            _ => {},
        }
    }
}

/// A successful resolution yields a settled locator: a task cell, or the
/// very same local cell when it belongs to the current execution.
pub proof fn lemma_resolve_done_shape(e: Engine, raw: RawVc)
    ensures
        e.resolve_spec(raw) matches Resolution::Done(loc) ==> {
            ||| loc is TaskCell
            ||| (loc == raw && (loc matches RawVc::LocalCell { execution, .. } && execution
                == e.current))
        },
{
    match raw {
        RawVc::TaskOutput { task } => lemma_resolve_output_shape(e, task as int),
        _ => {},
    }
}

/// Resolution is idempotent: resolving an already-resolved locator returns
/// it unchanged, whatever engine operations could run in between do not
/// change that, and no suspension happens.
pub proof fn lemma_resolve_idempotent(e: Engine, raw: RawVc)
    ensures
        e.resolve_spec(raw) matches Resolution::Done(loc) ==> e.resolve_spec(loc)
            == Resolution::Done(loc),
{
    lemma_resolve_done_shape(e, raw);
}

/// Membership in the children's subgraphs from position `i` on is membership
/// in the subgraph of one particular child.
pub proof fn lemma_in_child_subgraph(e: Engine, root: int, i: int, t: int)
    requires
        0 <= root < e.tasks@.len(),
        0 <= i,
    ensures
        e.in_child_subgraph(root, i, t) <==> exists|j: int|
            i <= j < e.tasks@[root].children@.len() && root < e.tasks@[root].children@[j] < e.tasks@.len()
                && e.in_subgraph(#[trigger] e.tasks@[root].children@[j] as int, t),
    decreases e.tasks@[root].children@.len() - i,
{
    if i < e.tasks@[root].children@.len() {
        lemma_in_child_subgraph(e, root, i + 1, t);
        if e.in_child_subgraph(root, i, t) {
            if root < e.tasks@[root].children@[i] < e.tasks@.len() && e.in_subgraph(
                e.tasks@[root].children@[i] as int,
                t,
            ) {
                assert(i <= i < e.tasks@[root].children@.len() && root
                    < e.tasks@[root].children@[i] < e.tasks@.len() && e.in_subgraph(
                    e.tasks@[root].children@[i] as int,
                    t,
                ));
            } else {
                assert(e.in_child_subgraph(root, i + 1, t));
                let j = choose|j: int|
                    i + 1 <= j < e.tasks@[root].children@.len() && root < e.tasks@[root].children@[j] < e.tasks@.len() && e.in_subgraph(#[trigger] e.tasks@[root].children@[j] as int, t);
                assert(i <= j < e.tasks@[root].children@.len() && root
                    < e.tasks@[root].children@[j] < e.tasks@.len() && e.in_subgraph(
                    e.tasks@[root].children@[j] as int,
                    t,
                ));
            }
        }
        if exists|j: int|
            i <= j < e.tasks@[root].children@.len() && root < e.tasks@[root].children@[j] < e.tasks@.len()
                && e.in_subgraph(#[trigger] e.tasks@[root].children@[j] as int, t) {
            let j = choose|j: int|
                i <= j < e.tasks@[root].children@.len() && root < e.tasks@[root].children@[j] < e.tasks@.len()
                    && e.in_subgraph(#[trigger] e.tasks@[root].children@[j] as int, t);
            if j == i {
                assert(e.in_child_subgraph(root, i, t));
            } else {
                assert(i + 1 <= j < e.tasks@[root].children@.len() && root < e.tasks@[root].children@[j] < e.tasks@.len() && e.in_subgraph(e.tasks@[root].children@[j] as int, t));
            }
        }
    }
}

/// Every member of a subgraph is a task the engine knows.
pub proof fn lemma_in_subgraph_bounds(e: Engine, root: int, t: int)
    requires
        e.in_subgraph(root, t),
    ensures
        0 <= t < e.tasks@.len(),
    decreases e.tasks@.len() - root,
{
    if root != t {
        lemma_in_child_subgraph(e, root, 0, t);
        let j = choose|j: int|
            0 <= j < e.tasks@[root].children@.len() && root < e.tasks@[root].children@[j]
                < e.tasks@.len() && e.in_subgraph(#[trigger] e.tasks@[root].children@[j] as int, t);
        lemma_in_subgraph_bounds(e, e.tasks@[root].children@[j] as int, t);
    }
}

/// A subgraph is done exactly when its root is done and the subgraph of each
/// of the root's children is done.
pub proof fn lemma_subgraph_done_unfold(e: Engine, root: int)
    requires
        e.wf(),
        0 <= root < e.tasks@.len(),
    ensures
        e.subgraph_done_spec(root) <==> (!(e.tasks@[root].output is Pending) && forall|i: int|
            0 <= i < e.tasks@[root].children@.len() ==> e.subgraph_done_spec(
                #[trigger] e.tasks@[root].children@[i] as int,
            )),
{
    assert(e.in_subgraph(root, root));
    assert(e.task_wf(root));
    if !(e.tasks@[root].output is Pending) && forall|i: int|
        0 <= i < e.tasks@[root].children@.len() ==> e.subgraph_done_spec(
            #[trigger] e.tasks@[root].children@[i] as int,
        ) {
        assert forall|t: int| #[trigger]
            e.in_subgraph(root, t) implies !(e.tasks@[t].output is Pending) by {
            if t != root {
                lemma_in_child_subgraph(e, root, 0, t);
                let j = choose|j: int|
                    0 <= j < e.tasks@[root].children@.len() && root < e.tasks@[root].children@[j]
                        < e.tasks@.len() && e.in_subgraph(
                        #[trigger] e.tasks@[root].children@[j] as int,
                        t,
                    );
                assert(e.subgraph_done_spec(e.tasks@[root].children@[j] as int));
            }
        }
    }
    if e.subgraph_done_spec(root) {
        assert forall|i: int|
            0 <= i < e.tasks@[root].children@.len() implies e.subgraph_done_spec(
            #[trigger] e.tasks@[root].children@[i] as int,
        ) by {
            let c = e.tasks@[root].children@[i] as int;
            assert forall|t: int| #[trigger]
                e.in_subgraph(c, t) implies !(e.tasks@[t].output is Pending) by {
                lemma_in_child_subgraph(e, root, 0, t);
                assert(0 <= i < e.tasks@[root].children@.len() && root
                    < e.tasks@[root].children@[i] < e.tasks@.len() && e.in_subgraph(
                    e.tasks@[root].children@[i] as int,
                    t,
                ));
                assert(e.in_subgraph(root, t));
            }
        }
    }
}

/// A subgraph is free of fatal failures exactly when its root did not fail
/// and the subgraph of each of the root's children is free of them.
pub proof fn lemma_subgraph_fatal_free_unfold(e: Engine, root: int)
    requires
        e.wf(),
        0 <= root < e.tasks@.len(),
    ensures
        e.subgraph_fatal_free(root) <==> (!(e.tasks@[root].output is Failed) && forall|i: int|
            0 <= i < e.tasks@[root].children@.len() ==> e.subgraph_fatal_free(
                #[trigger] e.tasks@[root].children@[i] as int,
            )),
{
    assert(e.in_subgraph(root, root));
    assert(e.task_wf(root));
    if !(e.tasks@[root].output is Failed) && forall|i: int|
        0 <= i < e.tasks@[root].children@.len() ==> e.subgraph_fatal_free(
            #[trigger] e.tasks@[root].children@[i] as int,
        ) {
        assert forall|t: int| #[trigger]
            e.in_subgraph(root, t) implies !(e.tasks@[t].output is Failed) by {
            if t != root {
                lemma_in_child_subgraph(e, root, 0, t);
                let j = choose|j: int|
                    0 <= j < e.tasks@[root].children@.len() && root < e.tasks@[root].children@[j]
                        < e.tasks@.len() && e.in_subgraph(
                        #[trigger] e.tasks@[root].children@[j] as int,
                        t,
                    );
                assert(e.subgraph_fatal_free(e.tasks@[root].children@[j] as int));
            }
        }
    }
    if e.subgraph_fatal_free(root) {
        assert forall|i: int|
            0 <= i < e.tasks@[root].children@.len() implies e.subgraph_fatal_free(
            #[trigger] e.tasks@[root].children@[i] as int,
        ) by {
            let c = e.tasks@[root].children@[i] as int;
            assert forall|t: int| #[trigger]
                e.in_subgraph(c, t) implies !(e.tasks@[t].output is Failed) by {
                lemma_in_child_subgraph(e, root, 0, t);
                assert(0 <= i < e.tasks@[root].children@.len() && root
                    < e.tasks@[root].children@[i] < e.tasks@.len() && e.in_subgraph(
                    e.tasks@[root].children@[i] as int,
                    t,
                ));
                assert(e.in_subgraph(root, t));
            }
        }
    }
}

/// The slot the dedup-by-equality mode found really is in range and holds an
/// observably equal value of the right type.
pub proof fn lemma_first_match_in_range(
    cells: Seq<SharedReference>,
    type_id: ValueTypeId,
    v: ValueV,
    i: int,
)
    ensures
        first_match(cells, type_id, v, i) matches Some(j) ==> i <= j < cells.len()
            && cells[j].type_id == type_id && crate::value::arc_value(cells[j].data)@ == v,
    decreases cells.len() - i,
{
    if 0 <= i < cells.len() {
        lemma_first_match_in_range(cells, type_id, v, i + 1);
    }
}

} // verus!
