//! Task records: what the scheduler knows of a task besides its state
//! machine, which stays with the host.

use vstd::prelude::*;

verus! {

/// Whether a task waits for a poll or is being polled.
#[derive(Debug, Clone, Copy, PartialEq, Eq, Structural)]
pub enum TaskState {
    RUNNABLE,
    RUNNING,
}

/// A task as the scheduler sees it.
#[derive(Debug, Clone, Copy)]
pub struct Task {
    /// The number by which executors name the task.
    pub id: usize,
    /// The priority level, fixed at creation.
    pub priority: usize,
    pub state: TaskState,
    /// Whether interrupts were enabled when the last poll of the task ended.
    pub intr_enable: bool,
    /// Whether the task has completed.
    pub finish: bool,
}

impl Task {
    /// A fresh task: runnable, not completed, to be polled with
    /// interrupts disabled.
    pub open spec fn new_spec(id: usize, priority: usize) -> Task {
        Task { id, priority, state: TaskState::RUNNABLE, intr_enable: false, finish: false }
    }

    /// A fresh task: runnable, not completed, to be polled with
    /// interrupts disabled.
    pub fn new(id: usize, priority: usize) -> (task: Self)
        ensures
            task == Task::new_spec(id, priority),
    {
        Task { id, priority, state: TaskState::RUNNABLE, intr_enable: false, finish: false }
    }

    /// The number by which executors name the task.
    pub fn id(&self) -> (id: usize)
        ensures
            id == self.id,
    {
        self.id
    }
}

/// Hands out the number in `counter` and steps the counter, which wraps
/// around at the end of its range.
pub fn alloc_id(counter: &mut usize) -> (id: usize)
    ensures
        id == *old(counter),
        *final(counter) == if *old(counter) == usize::MAX {
            0
        } else {
            *old(counter) + 1
        },
{
    let id = *counter;
    *counter = if id == usize::MAX {
        0
    } else {
        id + 1
    };
    id
}

} // verus!
