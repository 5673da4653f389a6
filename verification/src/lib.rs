//! The core of a preemptive scheduler for coroutines: task keys, waker
//! pages, the task collection of a CPU, and the executors and the runtime
//! that take turns on it.
//!
//! The library holds the state of the scheduler and decides every step.
//! It owns no stack, switches no context and polls no future: the host
//! does what a step asks for and reports back. State is passed in the
//! open, so that every operation has a contract over the state before and
//! after it.
//!
//! - `key`: the packed keys of tasks.
//! - `bits`, `waker_page`: the bitmaps that record which slots are woken,
//!   completed or being polled.
//! - `task`, `slab`, `future_collection`, `task_collection`: the tasks of
//!   a CPU and the cursor that hands out the next task to poll.
//! - `context`, `arch`: saved register records.
//! - `executor`, `runtime`: the state machines of the executors and of
//!   the runtime of a CPU.
//! - `laws`: what holds of all of this in every order of events.

pub mod arch;
pub mod bits;
pub mod context;
pub mod executor;
pub mod future_collection;
pub mod key;
pub mod laws;
pub mod runtime;
pub mod slab;
pub mod task;
pub mod task_collection;
pub mod waker_page;

pub use crate::runtime::{handle_timeout, run_until_idle, sched_yield, spawn};
