//! Task creation and management over the preemptive scheduling layer.
//!
//! A task is a unit of execution owned and scheduled by the preemptive
//! scheduler, not by the cooperative executor. That layer is held as explicit
//! state, [`SimScheduler`]: a registry of task records keyed by a
//! scheduler-assigned identifier, together with the scheduler-suspension
//! bookkeeping. A [`TaskHandle`] is a shared, clonable reference to a task by
//! identifier; it does not own the task's lifetime, and any number of handles
//! may alias the same task.
//!
//! A spawned task's closure is stored exactly once in its record and taken
//! out of it exactly once — by `join` (which runs it to completion) — or
//! dropped without ever running by `abort`, so a task body can never run
//! twice, and a failed creation never runs or keeps it at all.

use vstd::prelude::*;

use crate::clock::SimClock;

verus! {

use vstd::string::StringExecFns;

/// Native state code: the task is running on the processor.
pub const TASK_STATE_RUNNING: u32 = 0;

/// Native state code: the task is ready to run.
pub const TASK_STATE_READY: u32 = 1;

/// Native state code: the task is blocked, e.g. sleeping.
pub const TASK_STATE_BLOCKED: u32 = 2;

/// Native state code: the task is suspended.
pub const TASK_STATE_SUSPENDED: u32 = 3;

/// Native state code: the task has been deleted.
pub const TASK_STATE_DELETED: u32 = 4;

/// Native state code: the task's state is invalid.
pub const TASK_STATE_INVALID: u32 = 5;

/// Native error code: the scheduler ran out of memory.
pub const ENOMEM: u32 = 12;

/// The current state of a task, as the scheduler reports it.
#[derive(Clone, Copy, Debug, PartialEq, Eq, Structural)]
pub enum TaskState {
    /// The task is currently utilizing the processor.
    Running,
    /// The task is currently yielding but may run in the future.
    Ready,
    /// The task is blocked: sleeping, or waiting on a resource.
    Blocked,
    /// The task is suspended and will not run until resumed.
    Suspended,
    /// The task has been deleted.
    Deleted,
    /// The task's state is invalid somehow. Unrecognized native codes map
    /// here, and the variant is never asserted against.
    Invalid,
}

/// The task state a native scheduler code stands for; anything unrecognized
/// is `Invalid`.
pub open spec fn state_of_code(code: u32) -> TaskState {
    if code == TASK_STATE_RUNNING {
        TaskState::Running
    } else if code == TASK_STATE_READY {
        TaskState::Ready
    } else if code == TASK_STATE_BLOCKED {
        TaskState::Blocked
    } else if code == TASK_STATE_SUSPENDED {
        TaskState::Suspended
    } else if code == TASK_STATE_DELETED {
        TaskState::Deleted
    } else {
        TaskState::Invalid
    }
}

impl From<u32> for TaskState {
    /// Decode a native scheduler state code; unrecognized codes become the
    /// `Invalid` catch-all.
    fn from(code: u32) -> (state: TaskState) {
        if code == TASK_STATE_RUNNING {
            TaskState::Running
        } else if code == TASK_STATE_READY {
            TaskState::Ready
        } else if code == TASK_STATE_BLOCKED {
            TaskState::Blocked
        } else if code == TASK_STATE_SUSPENDED {
            TaskState::Suspended
        } else if code == TASK_STATE_DELETED {
            TaskState::Deleted
        } else {
            TaskState::Invalid
        }
    }
}

impl vstd::std_specs::convert::FromSpecImpl<u32> for TaskState {
    open spec fn obeys_from_spec() -> bool {
        true
    }

    open spec fn from_spec(code: u32) -> TaskState {
        state_of_code(code)
    }
}

/// How much of the processor the scheduler should give a task.
#[derive(Clone, Copy, Debug, PartialEq, Eq, Structural)]
pub enum TaskPriority {
    High,
    Default,
    Low,
}

impl TaskPriority {
    /// The numeric scheduler weight the priority maps to.
    pub open spec fn weight_spec(self) -> u32 {
        match self {
            TaskPriority::High => 16,
            TaskPriority::Default => 8,
            TaskPriority::Low => 1,
        }
    }

    /// The numeric scheduler weight the priority maps to.
    pub fn weight(self) -> (w: u32)
        ensures
            w == self.weight_spec(),
    {
        match self {
            TaskPriority::High => 16,
            TaskPriority::Default => 8,
            TaskPriority::Low => 1,
        }
    }
}

impl Default for TaskPriority {
    fn default() -> (priority: Self)
        ensures
            priority == TaskPriority::Default,
    {
        TaskPriority::Default
    }
}

/// How large a stack a task gets. Tasks with few variables can use the low
/// depth.
#[derive(Clone, Copy, Debug, PartialEq, Eq, Structural)]
pub enum TaskStackDepth {
    Default,
    Low,
}

impl TaskStackDepth {
    /// The stack allocation, in words, the depth maps to.
    pub open spec fn words_spec(self) -> u32 {
        match self {
            TaskStackDepth::Default => 8192,
            TaskStackDepth::Low => 512,
        }
    }

    /// The stack allocation, in words, the depth maps to.
    pub fn words(self) -> (w: u32)
        ensures
            w == self.words_spec(),
    {
        match self {
            TaskStackDepth::Default => 8192,
            TaskStackDepth::Low => 512,
        }
    }
}

impl Default for TaskStackDepth {
    fn default() -> (depth: Self)
        ensures
            depth == TaskStackDepth::Default,
    {
        TaskStackDepth::Default
    }
}

/// Why creating a task failed: the native error code the scheduler
/// signalled, as a typed error.
#[derive(Clone, Copy, Debug, PartialEq, Eq, Structural)]
pub enum SpawnError {
    /// The scheduler signalled resource exhaustion: the task control block
    /// could not be created.
    TCBNotCreated,
    /// Any other native failure: the opaque fallback, carrying the raw
    /// native error code.
    Errno(u32),
}

/// The typed spawn failure a native error code maps to: resource exhaustion
/// becomes `TCBNotCreated`; every unmapped code passes through as the opaque
/// fallback carrying the code.
pub open spec fn spawn_error_of_code(code: u32) -> SpawnError {
    if code == ENOMEM {
        SpawnError::TCBNotCreated
    } else {
        SpawnError::Errno(code)
    }
}

/// One task as the scheduler knows it: its identifier, name, scheduler
/// weight, stack allocation, current state, pending notification count, and
/// — until it has run — the work it was spawned with.
pub struct TaskRecord<F> {
    /// The scheduler-assigned identifier.
    pub id: u64,
    /// The task's name.
    pub name: String,
    /// The numeric scheduler weight.
    pub priority: u32,
    /// The stack allocation, in words.
    pub stack_words: u32,
    /// The task's current state.
    pub state: TaskState,
    /// How many notifications have been delivered and not consumed.
    pub notifications: u32,
    /// The work the task was spawned with, still unstarted. Taken out
    /// exactly once: `join` runs it, `abort` discards it.
    pub work: Option<F>,
}

/// Records are well formed when every identifier is unique and below the
/// allocator's next fresh one, and every stored closure is callable.
pub open spec fn records_wf<F: FnOnce()>(tasks: Seq<TaskRecord<F>>, next_id: u64) -> bool {
    &&& (forall|i: int, j: int|
        0 <= i < j < tasks.len() ==> (#[trigger] tasks[i]).id != (#[trigger] tasks[j]).id)
    &&& (forall|i: int| 0 <= i < tasks.len() ==> (#[trigger] tasks[i]).id < next_id)
    &&& (forall|i: int|
        0 <= i < tasks.len() ==> ((#[trigger] tasks[i]).work matches Some(g) ==> call_requires(
            g,
            (),
        )))
}

/// The preemptive scheduling layer, held as explicit state: the registry of
/// live tasks, the identifier allocator, which task is the calling one, a
/// resource-exhaustion switch for task creation, and the scheduler-suspension
/// bookkeeping.
pub struct SimScheduler<F> {
    tasks: Vec<TaskRecord<F>>,
    next_id: u64,
    current_id: u64,
    create_fail_errno: Option<u32>,
    suspend_depth: u32,
    resume_count: u64,
}

impl<F: FnOnce()> SimScheduler<F> {
    /// The live task records.
    pub closed spec fn tasks_spec(&self) -> Seq<TaskRecord<F>> {
        self.tasks@
    }

    /// The next identifier the scheduler will assign.
    pub closed spec fn next_id_spec(&self) -> u64 {
        self.next_id
    }

    /// The identifier of the calling task.
    pub closed spec fn current_spec(&self) -> u64 {
        self.current_id
    }

    /// The native error code the next task creation fails with, if any.
    pub closed spec fn create_failure_spec(&self) -> Option<u32> {
        self.create_fail_errno
    }

    /// How many scheduler suspensions are in force.
    pub closed spec fn suspend_depth_spec(&self) -> u32 {
        self.suspend_depth
    }

    /// How many times the scheduler has been resumed.
    pub closed spec fn resume_count_spec(&self) -> u64 {
        self.resume_count
    }

    /// Well-formedness: see [`records_wf`].
    pub open spec fn wf(&self) -> bool {
        records_wf(self.tasks_spec(), self.next_id_spec())
    }

    /// Whether a task with this identifier is live.
    pub open spec fn has_task(&self, id: u64) -> bool {
        exists|i: int| 0 <= i < self.tasks_spec().len() && (#[trigger] self.tasks_spec()[i]).id == id
    }

    /// The registry index of the task with this identifier.
    pub open spec fn task_index(&self, id: u64) -> int {
        choose|i: int| 0 <= i < self.tasks_spec().len() && (#[trigger] self.tasks_spec()[i]).id == id
    }

    /// The record of the task with this identifier.
    pub open spec fn task_of(&self, id: u64) -> TaskRecord<F> {
        self.tasks_spec()[self.task_index(id)]
    }

    /// Everything but the task registry: the identifier allocator, the
    /// calling task, the creation-failure switch, and the suspension
    /// bookkeeping.
    pub open spec fn control_eq(&self, other: &Self) -> bool {
        &&& self.next_id_spec() == other.next_id_spec()
        &&& self.current_spec() == other.current_spec()
        &&& self.create_failure_spec() == other.create_failure_spec()
        &&& self.suspend_depth_spec() == other.suspend_depth_spec()
        &&& self.resume_count_spec() == other.resume_count_spec()
    }

    /// In a well-formed registry an identifier names at most one record: the
    /// record at index `i` is found by its own identifier.
    pub proof fn lemma_index_of_id(&self, i: int)
        requires
            self.wf(),
            0 <= i < self.tasks_spec().len(),
        ensures
            self.has_task(self.tasks_spec()[i].id),
            self.task_index(self.tasks_spec()[i].id) == i,
    {
        let id = self.tasks_spec()[i].id;
        assert(self.has_task(id));
        let j = self.task_index(id);
        if i < j {
            assert(self.tasks_spec()[i].id != self.tasks_spec()[j].id);
        } else if j < i {
            assert(self.tasks_spec()[j].id != self.tasks_spec()[i].id);
        }
    }

    /// A fresh scheduler: one live task — the calling one, named "main",
    /// running at the default weight — no suspension in force, and task
    /// creation succeeding.
    pub fn new() -> (sched: SimScheduler<F>)
        ensures
            sched.wf(),
            sched.has_task(sched.current_spec()),
            sched.task_of(sched.current_spec()).state == TaskState::Running,
            sched.task_of(sched.current_spec()).name@ == "main"@,
            sched.tasks_spec().len() == 1,
            sched.next_id_spec() == 1,
            sched.create_failure_spec() is None,
            sched.suspend_depth_spec() == 0,
            sched.resume_count_spec() == 0,
    {
        let main_task = TaskRecord {
            id: 0u64,
            name: String::from_str("main"),
            priority: TaskPriority::Default.weight(),
            stack_words: TaskStackDepth::Default.words(),
            state: TaskState::Running,
            notifications: 0u32,
            work: None::<F>,
        };
        let mut tasks: Vec<TaskRecord<F>> = Vec::new();
        tasks.push(main_task);
        let sched = SimScheduler {
            tasks,
            next_id: 1u64,
            current_id: 0u64,
            create_fail_errno: None,
            suspend_depth: 0u32,
            resume_count: 0u64,
        };
        proof {
            sched.lemma_index_of_id(0);
        }
        sched
    }

    /// Make task creation fail with the given native error code — as a real
    /// scheduler would signal, say, memory exhaustion — or succeed again
    /// (`None`).
    pub fn set_create_failure(&mut self, errno: Option<u32>)
        ensures
            final(self).create_failure_spec() == errno,
            final(self).tasks_spec() == old(self).tasks_spec(),
            final(self).next_id_spec() == old(self).next_id_spec(),
            final(self).current_spec() == old(self).current_spec(),
            final(self).suspend_depth_spec() == old(self).suspend_depth_spec(),
            final(self).resume_count_spec() == old(self).resume_count_spec(),
    {
        self.create_fail_errno = errno;
    }

    /// The identifier of the calling task.
    fn current_task_id(&self) -> (id: u64)
        ensures
            id == self.current_spec(),
    {
        self.current_id
    }

    /// How many tasks are live.
    pub fn task_count(&self) -> (n: usize)
        ensures
            n == self.tasks_spec().len(),
    {
        self.tasks.len()
    }

    /// How many scheduler suspensions are in force.
    pub fn suspend_depth(&self) -> (n: u32)
        ensures
            n == self.suspend_depth_spec(),
    {
        self.suspend_depth
    }

    /// How many times the scheduler has been resumed.
    pub fn resume_count(&self) -> (n: u64)
        ensures
            n == self.resume_count_spec(),
    {
        self.resume_count
    }

    /// The registry index of the task with this identifier, if it is live.
    fn find_index(&self, id: u64) -> (found: Option<usize>)
        ensures
            match found {
                Some(i) => i < self.tasks_spec().len() && self.tasks_spec()[i as int].id == id,
                None => !self.has_task(id),
            },
    {
        let mut k: usize = 0;
        while k < self.tasks.len()
            invariant
                k <= self.tasks_spec().len(),
                forall|j: int| 0 <= j < k ==> (#[trigger] self.tasks_spec()[j]).id != id,
            decreases self.tasks_spec().len() - k,
        {
            if self.tasks[k].id == id {
                return Some(k);
            }
            k = k + 1;
        }
        None
    }
}

/// An owned permission to perform actions on a task. Handles are shared:
/// cloning one, or obtaining another for the same task, yields handles that
/// compare equal and hash identically, because a handle is exactly the
/// underlying identifier.
#[derive(Clone, Copy, Debug, PartialEq, Eq, Hash, Structural)]
pub struct TaskHandle {
    /// The scheduler-assigned identifier of the task this handle aliases.
    pub id: u64,
}

/// Law: two handles to the same underlying task are interchangeable — equal
/// identifiers make equal handles (and equal values hash identically).
pub proof fn lemma_handles_to_same_task_equal(a: TaskHandle, b: TaskHandle)
    requires
        a.id == b.id,
    ensures
        a == b,
{
}

impl TaskHandle {
    /// Pause execution of the task. Careful: if the task holds a lock while
    /// paused, there is no way to retrieve the lock until the task is
    /// unpaused — a documented hazard, not checked here.
    pub fn pause<F: FnOnce()>(&self, sched: &mut SimScheduler<F>)
        requires
            old(sched).wf(),
        ensures
            final(sched).wf(),
            final(sched).control_eq(&*old(sched)),
            !old(sched).has_task(self.id) ==> final(sched).tasks_spec() == old(sched).tasks_spec(),
            old(sched).has_task(self.id) ==> final(sched).tasks_spec() == old(sched).tasks_spec().update(
                old(sched).task_index(self.id),
                (TaskRecord { state: TaskState::Suspended, ..old(sched).task_of(self.id) }),
            ),
    {
        match sched.find_index(self.id) {
            Some(i) => {
                proof {
                    sched.lemma_index_of_id(i as int);
                }
                let rec = sched.tasks.remove(i);
                let rec = TaskRecord { state: TaskState::Suspended, ..rec };
                sched.tasks.insert(i, rec);
                proof {
                    assert(sched.tasks_spec() =~= old(sched).tasks_spec().update(i as int, rec));
                }
            },
            None => {},
        }
    }

    /// Resume execution of a paused task; a task that is not suspended is
    /// left as it is.
    pub fn unpause<F: FnOnce()>(&self, sched: &mut SimScheduler<F>)
        requires
            old(sched).wf(),
        ensures
            final(sched).wf(),
            final(sched).control_eq(&*old(sched)),
            !old(sched).has_task(self.id) || old(sched).task_of(self.id).state
                != TaskState::Suspended ==> final(sched).tasks_spec() == old(sched).tasks_spec(),
            old(sched).has_task(self.id) && old(sched).task_of(self.id).state
                == TaskState::Suspended ==> final(sched).tasks_spec() == old(
                sched,
            ).tasks_spec().update(
                old(sched).task_index(self.id),
                (TaskRecord { state: TaskState::Ready, ..old(sched).task_of(self.id) }),
            ),
    {
        match sched.find_index(self.id) {
            Some(i) => {
                proof {
                    sched.lemma_index_of_id(i as int);
                }
                if sched.tasks[i].state == TaskState::Suspended {
                    let rec = sched.tasks.remove(i);
                    let rec = TaskRecord { state: TaskState::Ready, ..rec };
                    sched.tasks.insert(i, rec);
                    proof {
                        assert(sched.tasks_spec() =~= old(sched).tasks_spec().update(
                            i as int,
                            rec,
                        ));
                    }
                }
            },
            None => {},
        }
    }

    /// Set the task's scheduler weight, controlling how much processor time
    /// it is allocated.
    pub fn set_priority<F: FnOnce()>(&self, sched: &mut SimScheduler<F>, priority: TaskPriority)
        requires
            old(sched).wf(),
        ensures
            final(sched).wf(),
            final(sched).control_eq(&*old(sched)),
            !old(sched).has_task(self.id) ==> final(sched).tasks_spec() == old(sched).tasks_spec(),
            old(sched).has_task(self.id) ==> final(sched).tasks_spec() == old(sched).tasks_spec().update(
                old(sched).task_index(self.id),
                (TaskRecord { priority: priority.weight_spec(), ..old(sched).task_of(self.id) }),
            ),
    {
        match sched.find_index(self.id) {
            Some(i) => {
                proof {
                    sched.lemma_index_of_id(i as int);
                }
                let rec = sched.tasks.remove(i);
                let rec = TaskRecord { priority: priority.weight(), ..rec };
                sched.tasks.insert(i, rec);
                proof {
                    assert(sched.tasks_spec() =~= old(sched).tasks_spec().update(i as int, rec));
                }
            },
            None => {},
        }
    }

    /// The task's current state; a handle whose task is gone, or any other
    /// unrecognized identifier, reads `Invalid`.
    pub fn state<F: FnOnce()>(&self, sched: &SimScheduler<F>) -> (state: TaskState)
        requires
            sched.wf(),
        ensures
            state == if sched.has_task(self.id) {
                sched.task_of(self.id).state
            } else {
                TaskState::Invalid
            },
    {
        match sched.find_index(self.id) {
            Some(i) => {
                proof {
                    sched.lemma_index_of_id(i as int);
                }
                sched.tasks[i].state
            },
            None => TaskState::Invalid,
        }
    }

    /// Deliver a lightweight wake signal: one more pending notification
    /// (counted up to the counter's limit), and a blocked task becomes ready.
    pub fn notify<F: FnOnce()>(&self, sched: &mut SimScheduler<F>)
        requires
            old(sched).wf(),
        ensures
            final(sched).wf(),
            final(sched).control_eq(&*old(sched)),
            !old(sched).has_task(self.id) ==> final(sched).tasks_spec() == old(sched).tasks_spec(),
            old(sched).has_task(self.id) ==> final(sched).tasks_spec() == old(sched).tasks_spec().update(
                old(sched).task_index(self.id),
                (TaskRecord {
                    notifications: if old(sched).task_of(self.id).notifications == u32::MAX {
                        u32::MAX
                    } else {
                        (old(sched).task_of(self.id).notifications + 1) as u32
                    },
                    state: if old(sched).task_of(self.id).state == TaskState::Blocked {
                        TaskState::Ready
                    } else {
                        old(sched).task_of(self.id).state
                    },
                    ..old(sched).task_of(self.id)
                }),
            ),
    {
        match sched.find_index(self.id) {
            Some(i) => {
                proof {
                    sched.lemma_index_of_id(i as int);
                }
                let rec = sched.tasks.remove(i);
                let bumped = if rec.notifications == u32::MAX {
                    u32::MAX
                } else {
                    rec.notifications + 1
                };
                let woken = if rec.state == TaskState::Blocked {
                    TaskState::Ready
                } else {
                    rec.state
                };
                let rec = TaskRecord { notifications: bumped, state: woken, ..rec };
                sched.tasks.insert(i, rec);
                proof {
                    assert(sched.tasks_spec() =~= old(sched).tasks_spec().update(i as int, rec));
                }
            },
            None => {},
        }
    }

    /// Wait for the task to finish and then reclaim its scheduler resources,
    /// consuming the handle. The task's stored work — if it has not run —
    /// runs here, exactly once, before the record is reclaimed.
    pub fn join<F: FnOnce()>(self, sched: &mut SimScheduler<F>)
        requires
            old(sched).wf(),
        ensures
            final(sched).wf(),
            final(sched).control_eq(&*old(sched)),
            !final(sched).has_task(self.id),
            !old(sched).has_task(self.id) ==> final(sched).tasks_spec() == old(sched).tasks_spec(),
            old(sched).has_task(self.id) ==> final(sched).tasks_spec() == old(sched).tasks_spec().remove(
                old(sched).task_index(self.id),
            ),
            old(sched).has_task(self.id) ==> (old(sched).task_of(self.id).work matches Some(g)
                ==> call_ensures(g, (), ())),
    {
        match sched.find_index(self.id) {
            Some(i) => {
                proof {
                    sched.lemma_index_of_id(i as int);
                }
                let rec = sched.tasks.remove(i);
                proof {
                    lemma_records_remove_id::<F>(
                        old(sched).tasks_spec(),
                        old(sched).next_id_spec(),
                        i as int,
                    );
                }
                match rec.work {
                    Some(f) => {
                        f();
                    },
                    None => {},
                }
            },
            None => {},
        }
    }

    /// Delete the task immediately, consuming the handle: the record is
    /// marked `Deleted`, and its stored work is discarded without ever
    /// running. Resources the task itself allocated are not reclaimed — a
    /// documented leak, as with any abort.
    pub fn abort<F: FnOnce()>(self, sched: &mut SimScheduler<F>)
        requires
            old(sched).wf(),
        ensures
            final(sched).wf(),
            final(sched).control_eq(&*old(sched)),
            !old(sched).has_task(self.id) ==> final(sched).tasks_spec() == old(sched).tasks_spec(),
            old(sched).has_task(self.id) ==> final(sched).tasks_spec() == old(sched).tasks_spec().update(
                old(sched).task_index(self.id),
                (TaskRecord {
                    state: TaskState::Deleted,
                    work: None::<F>,
                    ..old(sched).task_of(self.id)
                }),
            ),
            old(sched).has_task(self.id) ==> final(sched).has_task(self.id) && final(sched).task_of(
                self.id,
            ) == (TaskRecord {
                state: TaskState::Deleted,
                work: None::<F>,
                ..old(sched).task_of(self.id)
            }),
    {
        match sched.find_index(self.id) {
            Some(i) => {
                proof {
                    sched.lemma_index_of_id(i as int);
                }
                let rec = sched.tasks.remove(i);
                let rec = TaskRecord { state: TaskState::Deleted, work: None, ..rec };
                sched.tasks.insert(i, rec);
                proof {
                    assert(sched.tasks_spec() =~= old(sched).tasks_spec().update(i as int, rec));
                    sched.lemma_index_of_id(i as int);
                }
            },
            None => {},
        }
    }

    /// The task's name, or nothing when the task is gone.
    pub fn name<F: FnOnce()>(&self, sched: &SimScheduler<F>) -> (name: Option<String>)
        requires
            sched.wf(),
        ensures
            match name {
                Some(n) => sched.has_task(self.id) && n == sched.task_of(self.id).name,
                None => !sched.has_task(self.id),
            },
    {
        match sched.find_index(self.id) {
            Some(i) => {
                proof {
                    sched.lemma_index_of_id(i as int);
                }
                Some(sched.tasks[i].name.clone())
            },
            None => None,
        }
    }
}

/// Removing the record at `i` keeps the registry well formed, and no record
/// with the removed identifier remains.
proof fn lemma_records_remove_id<F: FnOnce()>(tasks: Seq<TaskRecord<F>>, next_id: u64, i: int)
    requires
        records_wf(tasks, next_id),
        0 <= i < tasks.len(),
    ensures
        records_wf(tasks.remove(i), next_id),
        forall|j: int|
            0 <= j < tasks.remove(i).len() ==> (#[trigger] tasks.remove(i)[j]).id != tasks[i].id,
{
    let rest = tasks.remove(i);
    assert forall|j: int| 0 <= j < rest.len() implies (#[trigger] rest[j]).id != tasks[i].id by {
        if j < i {
            assert(rest[j] == tasks[j]);
        } else {
            assert(rest[j] == tasks[j + 1]);
        }
    }
}

/// An ergonomic builder for tasks: accumulates an optional name, priority
/// and stack depth, then spawns. Alternatively use [`spawn`].
#[derive(Default)]
pub struct Builder {
    /// The task's name; useful for debugging. Defaults to "<unnamed>".
    pub name: Option<String>,
    /// The task's priority. Defaults to [`TaskPriority::Default`].
    pub priority: Option<TaskPriority>,
    /// The task's stack size. Defaults to [`TaskStackDepth::Default`].
    pub stack_depth: Option<TaskStackDepth>,
}

/// The priority a builder settles on.
pub open spec fn chosen_priority(builder: Builder) -> TaskPriority {
    match builder.priority {
        Some(p) => p,
        None => TaskPriority::Default,
    }
}

/// The stack depth a builder settles on.
pub open spec fn chosen_stack(builder: Builder) -> TaskStackDepth {
    match builder.stack_depth {
        Some(d) => d,
        None => TaskStackDepth::Default,
    }
}

/// The name a builder settles on.
pub open spec fn chosen_name(builder: Builder) -> Seq<char> {
    match builder.name {
        Some(n) => n@,
        None => "<unnamed>"@,
    }
}

impl Builder {
    /// A builder with nothing set.
    pub fn new() -> (builder: Builder)
        ensures
            builder.name is None,
            builder.priority is None,
            builder.stack_depth is None,
    {
        Builder { name: None, priority: None, stack_depth: None }
    }

    /// Set the name of the task; useful for debugging.
    pub fn name(self, name: &str) -> (builder: Builder)
        ensures
            builder.name matches Some(n) && n@ == name@,
            builder.priority == self.priority,
            builder.stack_depth == self.stack_depth,
    {
        Builder { name: Some(String::from_str(name)), ..self }
    }

    /// Set the priority of the task: how much time the scheduler gives it.
    pub fn priority(self, priority: TaskPriority) -> (builder: Builder)
        ensures
            builder.priority == Some(priority),
            builder.name == self.name,
            builder.stack_depth == self.stack_depth,
    {
        Builder { priority: Some(priority), ..self }
    }

    /// Set how large the stack for the task is. This can usually stay at the
    /// default.
    pub fn stack_depth(self, stack_depth: TaskStackDepth) -> (builder: Builder)
        ensures
            builder.stack_depth == Some(stack_depth),
            builder.name == self.name,
            builder.priority == self.priority,
    {
        Builder { stack_depth: Some(stack_depth), ..self }
    }

    /// Build and spawn the task: hand the work across the creation boundary
    /// exactly once. When the scheduler signals a failure the spawn fails
    /// with the typed error its native code maps to — resource exhaustion
    /// becomes `TCBNotCreated`, anything else the code-carrying fallback —
    /// nothing is created, and the work is reclaimed without ever running.
    /// Otherwise exactly one new task record is created, ready to run, under
    /// a fresh identifier the returned handle aliases.
    pub fn spawn<F: FnOnce()>(self, function: F, sched: &mut SimScheduler<F>) -> (spawned: Result<
        TaskHandle,
        SpawnError,
    >)
        requires
            old(sched).wf(),
            call_requires(function, ()),
            old(sched).next_id_spec() < u64::MAX,
        ensures
            final(sched).wf(),
            old(sched).create_failure_spec() matches Some(code) ==> spawned == Err::<
                TaskHandle,
                SpawnError,
            >(spawn_error_of_code(code)) && *final(sched) == *old(sched),
            old(sched).create_failure_spec() is None ==> {
                let id = old(sched).next_id_spec();
                let n = old(sched).tasks_spec().len() as int;
                &&& spawned == Ok::<TaskHandle, SpawnError>(TaskHandle { id })
                &&& !old(sched).has_task(id)
                &&& final(sched).has_task(id)
                &&& final(sched).tasks_spec().len() == n + 1
                &&& (forall|j: int|
                    0 <= j < n ==> final(sched).tasks_spec()[j] == old(sched).tasks_spec()[j])
                &&& final(sched).task_index(id) == n
                &&& final(sched).task_of(id).id == id
                &&& final(sched).task_of(id).state == TaskState::Ready
                &&& final(sched).task_of(id).priority == chosen_priority(self).weight_spec()
                &&& final(sched).task_of(id).stack_words == chosen_stack(self).words_spec()
                &&& final(sched).task_of(id).notifications == 0
                &&& final(sched).task_of(id).work == Some(function)
                &&& final(sched).task_of(id).name@ == chosen_name(self)
                &&& final(sched).next_id_spec() == id + 1
                &&& final(sched).current_spec() == old(sched).current_spec()
                &&& final(sched).create_failure_spec() == old(sched).create_failure_spec()
                &&& final(sched).suspend_depth_spec() == old(sched).suspend_depth_spec()
                &&& final(sched).resume_count_spec() == old(sched).resume_count_spec()
            },
    {
        match sched.create_fail_errno {
            Some(code) => {
                if code == ENOMEM {
                    return Err(SpawnError::TCBNotCreated);
                }
                return Err(SpawnError::Errno(code));
            },
            None => {},
        }
        let id = sched.next_id;
        proof {
            if old(sched).has_task(id) {
                let i = old(sched).task_index(id);
                assert(old(sched).tasks_spec()[i].id < id);
            }
        }
        let name = match self.name {
            Some(n) => n,
            None => String::from_str("<unnamed>"),
        };
        let priority = match self.priority {
            Some(p) => p,
            None => TaskPriority::Default,
        };
        let stack = match self.stack_depth {
            Some(d) => d,
            None => TaskStackDepth::Default,
        };
        let rec = TaskRecord {
            id,
            name,
            priority: priority.weight(),
            stack_words: stack.words(),
            state: TaskState::Ready,
            notifications: 0u32,
            work: Some(function),
        };
        sched.next_id = sched.next_id + 1;
        sched.tasks.push(rec);
        proof {
            sched.lemma_index_of_id(old(sched).tasks_spec().len() as int);
        }
        Ok(TaskHandle { id })
    }
}

/// Create a task from a closure, with the default name, priority and stack
/// depth. The closure runs at most once, when the task does.
pub fn spawn<F: FnOnce()>(function: F, sched: &mut SimScheduler<F>) -> (handle: TaskHandle)
    requires
        old(sched).wf(),
        call_requires(function, ()),
        old(sched).next_id_spec() < u64::MAX,
        old(sched).create_failure_spec() is None,
    ensures
        final(sched).wf(),
        handle.id == old(sched).next_id_spec(),
        final(sched).has_task(handle.id),
        final(sched).task_of(handle.id).state == TaskState::Ready,
        final(sched).task_of(handle.id).work == Some(function),
        final(sched).task_of(handle.id).name@ == "<unnamed>"@,
        final(sched).task_of(handle.id).priority == TaskPriority::Default.weight_spec(),
        final(sched).task_of(handle.id).stack_words == TaskStackDepth::Default.words_spec(),
{
    let spawned = Builder::new().spawn(function, sched);
    match spawned {
        Ok(handle) => handle,
        Err(_) => {
            proof {
                assert(false);
            }
            TaskHandle { id: 0 }
        },
    }
}

/// The handle of the task the caller is running on.
pub fn current<F: FnOnce()>(sched: &SimScheduler<F>) -> (handle: TaskHandle)
    ensures
        handle.id == sched.current_spec(),
{
    TaskHandle { id: sched.current_task_id() }
}

/// Take the first pending notification of the calling task: return the
/// pending count and consume one notification. When none is pending the
/// native call would block until one is delivered, so a pending notification
/// is a precondition here.
pub fn get_notification<F: FnOnce()>(sched: &mut SimScheduler<F>) -> (count: u32)
    requires
        old(sched).wf(),
        old(sched).has_task(old(sched).current_spec()),
        old(sched).task_of(old(sched).current_spec()).notifications > 0,
    ensures
        final(sched).wf(),
        final(sched).control_eq(&*old(sched)),
        count == old(sched).task_of(old(sched).current_spec()).notifications,
        final(sched).tasks_spec() == old(sched).tasks_spec().update(
            old(sched).task_index(old(sched).current_spec()),
            (TaskRecord {
                notifications: (old(sched).task_of(old(sched).current_spec()).notifications
                    - 1) as u32,
                ..old(sched).task_of(old(sched).current_spec())
            }),
        ),
{
    let id = sched.current_task_id();
    match sched.find_index(id) {
        Some(i) => {
            proof {
                sched.lemma_index_of_id(i as int);
            }
            let rec = sched.tasks.remove(i);
            let count = rec.notifications;
            let rec = TaskRecord { notifications: count - 1, ..rec };
            sched.tasks.insert(i, rec);
            proof {
                assert(sched.tasks_spec() =~= old(sched).tasks_spec().update(i as int, rec));
            }
            count
        },
        None => {
            proof {
                assert(false);
            }
            0
        },
    }
}

/// Block the calling task for the given number of milliseconds. This blocks
/// the entire unit of execution, preventing concurrent execution of
/// cooperative futures on it: in an async context use
/// [`crate::sleep::sleep`] instead.
pub fn delay(clock: &mut SimClock, duration_ms: u32)
    requires
        old(clock)@ + duration_ms <= u32::MAX,
    ensures
        final(clock)@ == old(clock)@ + duration_ms,
{
    clock.advance_by(duration_ms);
}

/// An interval for running code at a fixed average rate: each delay advances
/// the stored unblock instant by exactly the delta, not by the time that
/// actually elapsed, so overruns in one iteration shorten the next wait
/// instead of accumulating as drift.
pub struct Interval {
    last_unblock_time: u32,
}

impl Interval {
    /// The instant the interval last unblocked at (or started at).
    pub closed spec fn last_unblock_spec(&self) -> u32 {
        self.last_unblock_time
    }

    /// The instant the interval last unblocked at (or started at).
    pub fn last_unblock(&self) -> (t: u32)
        ensures
            t == self.last_unblock_spec(),
    {
        self.last_unblock_time
    }

    /// Capture the current instant as the interval's start.
    pub fn start(clock: &SimClock) -> (interval: Interval)
        ensures
            interval.last_unblock_spec() == clock@,
    {
        Interval { last_unblock_time: clock.now() }
    }

    /// Block the calling task until `delta_ms` has elapsed since the last
    /// unblock instant, then advance that instant by exactly `delta_ms`. A
    /// call that comes in late (the clock already past the target) does not
    /// wait, and the next target stays on the fixed grid.
    pub fn delay(&mut self, delta_ms: u32, clock: &mut SimClock)
        requires
            old(self).last_unblock_spec() + delta_ms <= u32::MAX,
        ensures
            final(self).last_unblock_spec() == old(self).last_unblock_spec() + delta_ms,
            final(clock)@ == if old(self).last_unblock_spec() + delta_ms >= old(clock)@ {
                (old(self).last_unblock_spec() + delta_ms) as u32
            } else {
                old(clock)@
            },
    {
        let target = self.last_unblock_time + delta_ms;
        clock.advance_to(target);
        self.last_unblock_time = target;
    }
}

/// The unblock instant after `n` interval delays of `delta_ms` each,
/// whatever the per-iteration overruns were: each delay advances the instant
/// by exactly the delta, as [`Interval::delay`] ensures.
pub open spec fn interval_unblock_time(start_ms: u32, delta_ms: u32, n: nat) -> int
    decreases n,
{
    if n == 0 {
        start_ms as int
    } else {
        interval_unblock_time(start_ms, delta_ms, (n - 1) as nat) + delta_ms
    }
}

/// Law: repeated interval delays do not drift. After `n` delays the unblock
/// instant stands at exactly `start + n * delta`, independent of how late
/// any iteration ran, so the long-run average period is exactly the delta.
pub proof fn lemma_interval_keeps_average_period(start_ms: u32, delta_ms: u32, n: nat)
    ensures
        interval_unblock_time(start_ms, delta_ms, n) == start_ms + n * delta_ms,
    decreases n,
{
    if n == 0 {
        assert(n * delta_ms == 0) by (nonlinear_arith)
            requires
                n == 0,
        ;
    } else {
        lemma_interval_keeps_average_period(start_ms, delta_ms, (n - 1) as nat);
        assert(interval_unblock_time(start_ms, delta_ms, n) == interval_unblock_time(
            start_ms,
            delta_ms,
            (n - 1) as nat,
        ) + delta_ms);
        assert(((n - 1) as nat) * delta_ms + delta_ms == n * delta_ms) by (nonlinear_arith)
            requires
                n >= 1,
        ;
    }
}

/// A scoped critical section: while the guard is alive, preemptive context
/// switches are disabled. Releasing the guard — its one consuming exit —
/// resumes the scheduler exactly once; no other way to resume it through a
/// guard exists, so a guard can never resume the scheduler twice. Any
/// operation that could suspend or block the calling task is a documented
/// precondition violation while a guard is alive; it is not checked here.
#[must_use]
pub struct SchedulerSuspendGuard {
    _private: (),
}

impl SchedulerSuspendGuard {
    /// Resume the preemptive scheduler, consuming the guard: exactly one
    /// resume per guard.
    pub fn release<F: FnOnce()>(self, sched: &mut SimScheduler<F>)
        requires
            old(sched).resume_count_spec() < u64::MAX,
        ensures
            final(sched).resume_count_spec() == old(sched).resume_count_spec() + 1,
            final(sched).suspend_depth_spec() == if old(sched).suspend_depth_spec() > 0 {
                (old(sched).suspend_depth_spec() - 1) as u32
            } else {
                0
            },
            final(sched).tasks_spec() == old(sched).tasks_spec(),
            final(sched).next_id_spec() == old(sched).next_id_spec(),
            final(sched).current_spec() == old(sched).current_spec(),
            final(sched).create_failure_spec() == old(sched).create_failure_spec(),
    {
        if sched.suspend_depth > 0 {
            sched.suspend_depth = sched.suspend_depth - 1;
        }
        sched.resume_count = sched.resume_count + 1;
    }
}

/// Suspend the preemptive scheduler, preventing context switches: no other
/// task runs until the returned guard is released.
pub fn suspend_all<F: FnOnce()>(sched: &mut SimScheduler<F>) -> (guard: SchedulerSuspendGuard)
    requires
        old(sched).suspend_depth_spec() < u32::MAX,
    ensures
        final(sched).suspend_depth_spec() == old(sched).suspend_depth_spec() + 1,
        final(sched).resume_count_spec() == old(sched).resume_count_spec(),
        final(sched).tasks_spec() == old(sched).tasks_spec(),
        final(sched).next_id_spec() == old(sched).next_id_spec(),
        final(sched).current_spec() == old(sched).current_spec(),
        final(sched).create_failure_spec() == old(sched).create_failure_spec(),
{
    sched.suspend_depth = sched.suspend_depth + 1;
    SchedulerSuspendGuard { _private: () }
}

} // verus!
