//! The state machine of a timer: pending until its clock fires it, ready
//! from then on.

use crate::poll::Poll;
use crate::task::Computation;
use std::time::Duration;
use vstd::prelude::*;

verus! {

/// Mathematical state that a timer shares between its awaiting side and the
/// clock that fires it.
pub struct TimerView<W> {
    /// The delay that the timer was created with.
    pub duration: Duration,
    /// True once the delay has elapsed.
    pub completed: bool,
    /// The handle to invoke when the delay elapses: the one that the latest
    /// poll left.
    pub waker: Option<W>,
}

impl<W> TimerView<W> {
    /// A completed timer keeps no handle: the firing took it.
    pub open spec fn wf(self) -> bool {
        self.completed ==> self.waker is None
    }

    /// The state of a timer that was just created for `duration`.
    pub open spec fn fresh(duration: Duration) -> Self {
        TimerView { duration, completed: false, waker: None }
    }

    /// What a poll reports in this state.
    pub open spec fn outcome(self) -> Poll {
        if self.completed {
            Poll::Ready
        } else {
            Poll::Pending
        }
    }

    /// The state after a poll that brought `waker`: a pending timer replaces
    /// whatever handle it held, a completed one is left alone.
    pub open spec fn poll(self, waker: W) -> Self {
        if self.completed {
            self
        } else {
            TimerView { waker: Some(waker), ..self }
        }
    }

    /// The state after the delay elapsed.
    pub open spec fn fire(self) -> Self {
        TimerView { completed: true, waker: None, ..self }
    }
}

/// A computation that becomes ready once its delay has elapsed.
///
/// The value is the state that the awaiting task and the timer's clock share.
/// The awaiting side calls `poll`; whoever keeps the time calls `fire` once
/// `duration` has passed and invokes the handle that `fire` hands out.
pub struct TimerFuture<W> {
    duration: Duration,
    completed: bool,
    waker: Option<W>,
}

impl<W> View for TimerFuture<W> {
    type V = TimerView<W>;

    closed spec fn view(&self) -> TimerView<W> {
        TimerView { duration: self.duration, completed: self.completed, waker: self.waker }
    }
}

impl<W> TimerFuture<W> {
    /// A pending timer for `duration`, with no handle stored yet.
    pub fn new(duration: Duration) -> (timer: Self)
        ensures
            timer@ == TimerView::<W>::fresh(duration),
            timer@.wf(),
    {
        TimerFuture { duration, completed: false, waker: None }
    }

    /// The delay after which `fire` is due.
    pub fn duration(&self) -> (d: Duration)
        ensures
            d == self@.duration,
    {
        self.duration
    }

    /// True once the timer has fired.
    pub fn is_completed(&self) -> (b: bool)
        ensures
            b == self@.completed,
    {
        self.completed
    }

    /// The handle that the next firing would hand out.
    pub fn waker(&self) -> (w: Option<&W>)
        ensures
            w is Some <==> self@.waker is Some,
            w is Some ==> *w->0 == self@.waker->0,
    {
        self.waker.as_ref()
    }

    /// One poll of the timer on behalf of the task that `waker` wakes.
    ///
    /// A completed timer reports `Ready` and stays as it is. A pending one
    /// reports `Pending` and stores `waker` in place of any handle left by an
    /// earlier poll, so that the firing always wakes the task that polled last.
    pub fn poll(&mut self, waker: W) -> (outcome: Poll)
        ensures
            outcome == old(self)@.outcome(),
            final(self)@ == old(self)@.poll(waker),
            old(self)@.wf() ==> final(self)@.wf(),
    {
        if self.completed {
            Poll::Ready
        } else {
            self.waker = Some(waker);
            Poll::Pending
        }
    }

    /// Records that the delay has elapsed and hands out the stored handle, which
    /// the caller is to invoke. Nothing is handed out when no poll has stored a
    /// handle yet, or when the timer had fired before.
    pub fn fire(&mut self) -> (waker: Option<W>)
        ensures
            waker == old(self)@.waker,
            final(self)@ == old(self)@.fire(),
            final(self)@.wf(),
    {
        self.completed = true;
        self.waker.take()
    }
}

/// The timer as a computation: a step is one poll on behalf of the task that
/// `waker` wakes, with a clone of the waker for the timer to keep.
impl<W: Clone> Computation<W> for TimerFuture<W> {
    /// A step reports what the timer's state says and changes nothing but the
    /// stored handle, which a pending timer replaces by a clone of `waker`.
    open spec fn stepped(&self, before: &Self, waker: &W, outcome: Poll) -> bool {
        &&& outcome == before@.outcome()
        &&& before@.completed ==> self@ == before@
        &&& !before@.completed ==> self@.waker is Some && cloned(*waker, self@.waker->0) && self@
            == before@.poll(self@.waker->0)
    }

    fn poll(&mut self, waker: &W) -> (outcome: Poll) {
        if self.completed {
            Poll::Ready
        } else {
            TimerFuture::poll(self, waker.clone())
        }
    }
}

/// Completion is monotonic: neither a poll nor a firing brings a completed
/// timer back to pending. Neither changes the delay.
pub proof fn lemma_completed_is_monotonic<W>(timer: TimerView<W>, waker: W)
    requires
        timer.completed,
    ensures
        timer.poll(waker).completed,
        timer.fire().completed,
        timer.poll(waker).duration == timer.duration,
        timer.fire().duration == timer.duration,
{
}

/// A timer that fires after it was polled hands out exactly the handle of the
/// latest poll, whatever earlier polls had stored, and the next poll reports
/// `Ready`.
pub proof fn lemma_latest_waker_is_woken<W>(timer: TimerView<W>, earlier: W, latest: W)
    requires
        timer.wf(),
        !timer.completed,
    ensures
        timer.poll(earlier).poll(latest).waker == Some(latest),
        timer.poll(earlier).poll(latest).fire().outcome() == Poll::Ready,
{
}

/// A timer that fires before any poll hands out nothing, and its first poll
/// reports `Ready` without storing the handle it was given.
pub proof fn lemma_fire_before_poll<W>(duration: Duration, waker: W)
    ensures
        TimerView::<W>::fresh(duration).waker is None,
        TimerView::<W>::fresh(duration).fire().outcome() == Poll::Ready,
        TimerView::<W>::fresh(duration).fire().poll(waker) == TimerView::<W>::fresh(
            duration,
        ).fire(),
{
}

} // verus!
