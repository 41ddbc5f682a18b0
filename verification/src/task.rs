//! Tasks: a computation and the slot that owns it between polls.

use crate::poll::Poll;
use vstd::prelude::*;

verus! {

/// A unit of deferred work that advances by polls until it reports `Ready`.
///
/// `W` is the type of the handle that a poll receives. A computation that
/// reports `Pending` is expected to have left a copy of the handle where the
/// event it waits for will find and invoke it.
///
/// What one step may do is the implementation's to say, by the relation
/// `stepped`. An implementation that leaves the relation as it is declared
/// here says nothing: every step is admitted. The library assumes nothing of
/// the relation. It only records, in the contracts of the functions that
/// poll, that what they return and leave behind came out of a step.
pub trait Computation<W>: Sized {
    /// True if one step that starts from `before`, is given `waker` and
    /// reports `outcome` may end in `self`.
    open spec fn stepped(&self, before: &Self, waker: &W, outcome: Poll) -> bool {
        true
    }

    /// Advances the computation by one step on behalf of the task that
    /// `waker` wakes.
    fn poll(&mut self, waker: &W) -> (outcome: Poll)
        ensures
            final(self).stepped(old(self), waker, outcome),
    ;
}

/// Mathematical state of a task.
pub struct TaskView<C> {
    /// The computation, while the task owns it: absent while a poll is under
    /// way and after the computation has finished.
    pub slot: Option<C>,
    /// How often the computation was handed out to be polled.
    pub polls: nat,
}

impl<C> TaskView<C> {
    /// The state of a task that was just created around `computation`.
    pub open spec fn fresh(computation: C) -> Self {
        TaskView { slot: Some(computation), polls: 0 }
    }

    /// The state after an attempt to start a poll: the slot is empty, and the
    /// attempt counts as a poll exactly if there was a computation to hand out.
    pub open spec fn take(self) -> Self {
        TaskView {
            slot: None,
            polls: if self.slot is Some {
                self.polls + 1
            } else {
                self.polls
            },
        }
    }

    /// The state after a poll of `computation` ended with `outcome`: a pending
    /// computation goes back into the slot, a finished one leaves it empty.
    pub open spec fn settle(self, computation: C, outcome: Poll) -> Self {
        TaskView { slot: outcome.leaves(computation), ..self }
    }
}

/// The executor's polling unit: a slot that owns a computation between polls.
pub struct Task<C> {
    slot: Option<C>,
    polls: Ghost<nat>,
}

impl<C> View for Task<C> {
    type V = TaskView<C>;

    closed spec fn view(&self) -> TaskView<C> {
        TaskView { slot: self.slot, polls: self.polls@ }
    }
}

impl<C> Task<C> {
    /// A task that owns `computation` and has not been polled.
    pub fn new(computation: C) -> (task: Self)
        ensures
            task@ == TaskView::fresh(computation),
    {
        Task { slot: Some(computation), polls: Ghost(0) }
    }

    /// True while the task owns a computation that has not finished.
    pub fn is_pending(&self) -> (b: bool)
        ensures
            b == self@.slot is Some,
    {
        self.slot.is_some()
    }

    /// Starts a poll: moves the computation out of the slot. `None` means that
    /// there is nothing to poll, because the computation has finished or
    /// because a poll of it is under way.
    pub fn take(&mut self) -> (computation: Option<C>)
        ensures
            computation == old(self)@.slot,
            final(self)@ == old(self)@.take(),
    {
        proof {
            if self.slot is Some {
                self.polls@ = self.polls@ + 1;
            }
        }
        self.slot.take()
    }

    /// Ends a poll that gave `outcome`: a pending `computation` is put back, a
    /// finished one is dropped and the slot stays empty for good.
    pub fn settle(&mut self, computation: C, outcome: Poll)
        ensures
            final(self)@ == old(self)@.settle(computation, outcome),
    {
        match outcome {
            Poll::Pending => {
                self.slot = Some(computation);
            },
            Poll::Ready => {
                self.slot = None;
            },
        }
    }

    /// One scheduling cycle of the task. With an empty slot nothing happens and
    /// `None` is returned. Otherwise the computation makes one step with
    /// `waker`, the outcome of the step is returned, and the computation as the
    /// step left it is back in the slot exactly if it reported `Pending`.
    pub fn poll_once<W>(&mut self, waker: &W) -> (outcome: Option<Poll>) where C: Computation<W>
        ensures
            old(self)@.slot is None ==> outcome is None && final(self)@ == old(self)@,
            old(self)@.slot is Some ==> outcome is Some && final(self)@.polls == old(self)@.polls
                + 1,
            old(self)@.slot is Some ==> exists|after: C|
                #[trigger] after.stepped(&old(self)@.slot->0, waker, outcome->0)
                    && final(self)@.slot == outcome->0.leaves(after),
    {
        match self.take() {
            None => None,
            Some(mut computation) => {
                let ghost before = computation;
                let outcome = computation.poll(waker);
                let ghost after = computation;
                self.settle(computation, outcome);
                let polled = Some(outcome);
                assert(before == old(self)@.slot->0);
                assert(after.stepped(&old(self)@.slot->0, waker, polled->0) && self@.slot
                    == polled->0.leaves(after));
                polled
            },
        }
    }
}

/// While a poll of a task is under way a second attempt finds nothing to poll,
/// so no two polls of one computation overlap. The same holds after the
/// computation has finished.
pub proof fn lemma_single_active_poll<C>(task: TaskView<C>)
    ensures
        task.take().slot is None,
        task.take().take() == task.take(),
{
}

} // verus!
