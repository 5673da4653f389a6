//! Executors: the workers that poll tasks, each on a stack of its own.
//!
//! An executor is a state machine here. `run` takes it to the next thing
//! that only the host can do (poll a task, hand control to the runtime,
//! wait for an interrupt), and `end_poll` takes in how a poll ended.

use crate::context::{Context, SavedContext};
use crate::key::Key;
use crate::task::Task;
use crate::task_collection::{index_of, key_for, CollectionView, TaskCollection};
use crate::waker_page::{DroperRef, WakerRef};
use vstd::prelude::*;

verus! {

/// What has become of an executor.
#[derive(Debug, Clone, Copy, PartialEq, Eq, Structural)]
pub enum ExecutorState {
    /// The executor of its runtime that polls task after task.
    STRONG,
    /// An executor that was preempted in a poll: it ends that poll and
    /// then stops.
    WEAK,
    /// A weak executor that has ended its poll.
    KILLED,
    /// An executor that was made and not preempted since.
    UNUSED,
}

/// The size of the stack of an executor, in bytes.
pub const STACK_SIZE: usize = 131072;

/// An executor.
#[derive(Debug, Clone, Copy)]
pub struct Executor {
    /// The number of the executor.
    pub id: usize,
    /// The lowest address of its stack.
    pub stack_base: usize,
    /// Where its registers are saved while it does not run.
    pub context: Context,
    /// The number of the task that it polls, or zero between polls.
    pub task_id: usize,
    pub state: ExecutorState,
}

/// What an executor does next.
#[derive(Debug, Clone, Copy)]
pub enum RunStep {
    /// Poll the task, with a waker made of `waker`, and report the end of
    /// the poll with `droper`.
    Poll { key: Key, task: Task, waker: WakerRef, droper: DroperRef },
    /// Hand control to the runtime.
    Yield,
    /// Wait for an interrupt.
    WaitForInterrupt,
}

/// What an executor does when there is no task to poll: it hands control
/// to the runtime where the runtime is to return once no task is left and
/// none is, or where weak executors wait for their turn; else it waits for
/// an interrupt.
pub open spec fn idle_step(task_num: nat, weak_executors: nat, exit_when_idle: bool) -> RunStep {
    if exit_when_idle && task_num == 0 {
        RunStep::Yield
    } else if weak_executors != 0 {
        RunStep::Yield
    } else {
        RunStep::WaitForInterrupt
    }
}

/// The step to poll the task at slab index `i` of `tasks`.
pub open spec fn poll_step(tasks: CollectionView, i: usize) -> RunStep {
    RunStep::Poll {
        key: key_for(i),
        task: tasks.level.tasks[i],
        waker: WakerRef { key: key_for(i), task_id: tasks.level.tasks[i].id },
        droper: WakerRef { key: key_for(i), task_id: tasks.level.tasks[i].id },
    }
}

/// The next step of an executor that asks `tasks` for a task: to poll the
/// task that the cursor hands out, or, where it hands out none, what
/// `idle_step` says for the tasks that are left then.
pub open spec fn run_step(tasks: CollectionView, weak_executors: nat, exit_when_idle: bool)
    -> RunStep {
    match tasks.next_hit() {
        Some(i) => poll_step(tasks, i),
        None => idle_step(tasks.next().task_num(), weak_executors, exit_when_idle),
    }
}

/// Hands out the number in `counter` and steps the counter, which wraps
/// around at the end of its range.
pub fn executor_alloc_id(counter: &mut usize) -> (id: usize)
    ensures
        id == *old(counter),
        *final(counter) == if *old(counter) == usize::MAX {
            0
        } else {
            *old(counter) + 1
        },
{
    let id = *counter;
    *counter = if id == usize::MAX {
        0
    } else {
        id + 1
    };
    id
}

/// The address of a value of `size` bytes that is pushed onto a stack
/// whose top is at `stack_top`: the new top of the stack.
pub fn push_stack(stack_top: usize, size: usize) -> (top: usize)
    requires
        size <= stack_top,
    ensures
        top == stack_top - size,
{
    stack_top - size
}

/// The size of a machine word in bytes.
pub fn word_size() -> (size: usize)
    ensures
        size == usize::BITS / 8,
        size == 4 || size == 8,
{
    (usize::BITS / 8) as usize
}

impl Executor {
    /// The executor after it has asked `tasks` for a task: it has noted
    /// the number of the task that the cursor hands out, if it hands out
    /// one.
    pub open spec fn after_run(self, tasks: CollectionView) -> Executor {
        match tasks.next_hit() {
            Some(i) => Executor { task_id: tasks.level.tasks[i].id, ..self },
            None => self,
        }
    }

    /// The executor after a poll has ended: it polls no task, and is
    /// killed if it was weak.
    pub open spec fn after_poll(self) -> Executor {
        Executor {
            task_id: 0,
            state: if self.state == ExecutorState::WEAK {
                ExecutorState::KILLED
            } else {
                self.state
            },
            ..self
        }
    }

    /// A new executor with the number `id` and the stack at `stack_base`.
    /// It polls no task, and its context points nowhere yet.
    pub fn new(id: usize, stack_base: usize) -> (executor: Self)
        ensures
            executor.id == id,
            executor.stack_base == stack_base,
            executor.context@ == 0,
            executor.task_id == 0,
            executor.state == ExecutorState::UNUSED,
    {
        Executor {
            id,
            stack_base,
            context: Context::default(),
            task_id: 0,
            state: ExecutorState::UNUSED,
        }
    }

    /// Lays out the top of the stack of a new executor and makes its saved
    /// register record. The topmost word of the stack is for what the entry
    /// code finds the executor by; its address is the stack pointer with
    /// which the executor starts. The record, of `record_size` bytes,
    /// starts the executor at `entry` with the page-table base `pgbr`. It
    /// lies right below the topmost word where the architecture keeps it
    /// on the stack, and at `record_addr` where it does not; the context
    /// of the executor points at it. Returns the address of the topmost
    /// word and the record, for the host to write both.
    pub fn init_stack_and_context<D: SavedContext>(
        &mut self,
        entry: usize,
        pgbr: usize,
        record_size: usize,
        record_addr: usize,
    ) -> (r: (usize, D))
        requires
            old(self).stack_base + STACK_SIZE <= usize::MAX,
            record_size + 8 <= STACK_SIZE,
        ensures
            r.0 == old(self).stack_base + STACK_SIZE - usize::BITS / 8,
            final(self).context@ == if D::on_stack() {
                r.0 - record_size
            } else {
                record_addr as int
            },
            r.1.saved_pc() == entry,
            r.1.saved_pgbr() == pgbr,
            r.1.saved_sp(final(self).context@) == if D::on_stack() {
                final(self).context@
            } else {
                r.0
            },
            *final(self) == (Executor { context: final(self).context, ..*old(self) }),
    {
        let stack_top = self.stack_base + STACK_SIZE;
        let top = push_stack(stack_top, word_size());
        if D::lies_on_stack() {
            let record = push_stack(top, record_size);
            self.context.set_context(record);
        } else {
            self.context.set_context(record_addr);
        }
        (top, D::fresh(entry, top, pgbr))
    }

    /// Takes the executor to its next step. It asks `tasks` for a task.
    /// Where there is one, the executor notes the number of the task and
    /// the step is to poll it. Where there is none, the executor yields or
    /// waits as `idle_step` says, for the number of tasks that are left,
    /// the number `weak_executors` of weak executors of the runtime, and
    /// whether the runtime is to return once no task is left.
    pub fn run(
        &mut self,
        tasks: &mut TaskCollection,
        weak_executors: usize,
        exit_when_idle: bool,
    ) -> (step: RunStep)
        requires
            old(tasks).wf(),
        ensures
            final(tasks).wf(),
            final(tasks)@ == old(tasks)@.next(),
            *final(self) == old(self).after_run(old(tasks)@),
            step == run_step(old(tasks)@, weak_executors as nat, exit_when_idle),
            old(tasks)@.next_hit() matches Some(i) ==> {
                &&& index_of(key_for(i)) == Some(i)
                &&& old(tasks)@.level.pollable(i)
                &&& final(tasks)@.level.pollable(i)
                &&& final(tasks)@.level.tasks[i] == old(tasks)@.level.tasks[i]
            },
    {
        match tasks.take_task() {
            Some((key, task, waker, droper)) => {
                self.task_id = task.id();
                RunStep::Poll { key, task, waker, droper }
            },
            None => {
                let task_num = tasks.task_num();
                if exit_when_idle && task_num == 0 {
                    RunStep::Yield
                } else if weak_executors != 0 {
                    RunStep::Yield
                } else {
                    RunStep::WaitForInterrupt
                }
            },
        }
    }

    /// Takes in the end of a poll. The executor polls no task any more.
    /// Where the task is `ready`, its completion is reported through
    /// `droper`. A weak executor is killed by the end of its poll; the
    /// result tells whether the executor stops.
    pub fn end_poll(
        &mut self,
        tasks: &mut TaskCollection,
        droper: &DroperRef,
        ready: bool,
    ) -> (stop: bool)
        requires
            old(tasks).wf(),
        ensures
            final(tasks).wf(),
            final(tasks)@ == if ready {
                old(tasks)@.finish(droper.key, droper.task_id)
            } else {
                old(tasks)@
            },
            *final(self) == old(self).after_poll(),
            stop == (old(self).state == ExecutorState::WEAK),
    {
        self.task_id = 0;
        if ready {
            droper.drop_by_ref(tasks);
        }
        if self.state == ExecutorState::WEAK {
            self.state = ExecutorState::KILLED;
            true
        } else {
            false
        }
    }

    /// Whether the executor is in a poll. The runtime asks this when the
    /// executor hands control back: an executor that was in a poll did not
    /// yield, it was preempted.
    pub fn is_running_future(&self) -> (running: bool)
        ensures
            running == (self.task_id != 0),
    {
        self.task_id != 0
    }

    /// Whether the executor is a weak executor that has ended its poll.
    pub fn killed(&self) -> (killed: bool)
        ensures
            killed == (self.state == ExecutorState::KILLED),
    {
        self.state == ExecutorState::KILLED
    }

    /// Makes the executor a weak one: it stops at the end of the poll in
    /// which it was preempted.
    pub fn mark_weak(&mut self)
        ensures
            *final(self) == (Executor { state: ExecutorState::WEAK, ..*old(self) }),
    {
        self.state = ExecutorState::WEAK;
    }

    /// The number of the executor.
    pub fn id(&self) -> (id: usize)
        ensures
            id == self.id,
    {
        self.id
    }

    /// The number of the task that the executor polls, or zero.
    pub fn task_id(&self) -> (task_id: usize)
        ensures
            task_id == self.task_id,
    {
        self.task_id
    }
}

} // verus!
