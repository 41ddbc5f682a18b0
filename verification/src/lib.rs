//! Verified core of a minimal cooperative task runtime.
//!
//! The crate holds the decisions of a single-threaded executor and of a
//! timer-backed awaitable as plain state machines: a bounded ready queue, a
//! task slot, the state that a timer shares with its clock, and an executor
//! that ties them together. Threads, clocks and blocking waits belong to the
//! embedding program, which feeds their events into these state machines.

pub mod executor;
pub mod poll;
pub mod queue;
pub mod schedule;
pub mod task;
pub mod timer;
pub mod wake;

pub use executor::new_executor_and_spawner;
pub use executor::Executor;
pub use executor::RunEnd;
pub use executor::Spawner;
pub use executor::Step;
pub use executor::MAX_QUEUED_TASKS;
pub use poll::Poll;
pub use queue::CapacityExceeded;
pub use queue::QueueView;
pub use queue::ReadyQueue;
pub use queue::SendOutcome;
pub use queue::SpawnError;
pub use schedule::Schedule;
pub use task::Computation;
pub use task::Task;
pub use task::TaskView;
pub use timer::TimerFuture;
pub use timer::TimerView;
pub use wake::WakeHandle;
