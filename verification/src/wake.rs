//! The token by which a suspended task is made ready again.

use vstd::prelude::*;

verus! {

/// Token that names one task of an executor. Handing it to the executor's
/// `wake` submits that task to the ready queue again.
///
/// Handles are derived from tasks: the executor passes a task's handle to
/// every poll of the task, and hands it out on request. A handle is a plain
/// copyable value. It does not own its task, and it may outlive the task's
/// computation: waking a finished task is harmless.
#[derive(Clone, Copy, Debug, PartialEq, Eq, Structural)]
pub struct WakeHandle {
    task: usize,
}

impl WakeHandle {
    /// The task that the handle names.
    pub closed spec fn id(&self) -> usize {
        self.task
    }

    /// The handle of the task with the number `task`.
    pub(crate) fn new(task: usize) -> (handle: Self)
        ensures
            handle.id() == task,
    {
        WakeHandle { task }
    }

    /// The number of the task that the handle names.
    pub fn task(&self) -> (task: usize)
        ensures
            task == self.id(),
    {
        self.task
    }
}

} // verus!
