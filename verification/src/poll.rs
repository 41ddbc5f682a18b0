//! The outcome of one poll.

use vstd::prelude::*;

verus! {

/// Result of one evaluation step of a computation.
#[derive(Clone, Copy, Debug, PartialEq, Eq, Structural)]
pub enum Poll {
    /// The computation reached its terminal state.
    Ready,
    /// The computation is suspended until its wake handle is invoked.
    Pending,
}

impl Poll {
    /// What a poll with this outcome leaves of `computation` in the slot of
    /// its task: the computation if it is pending, nothing if it is ready.
    pub open spec fn leaves<C>(self, computation: C) -> Option<C> {
        if self == Poll::Pending {
            Some(computation)
        } else {
            None
        }
    }

    /// True exactly for `Poll::Pending`.
    pub fn is_pending(&self) -> (b: bool)
        ensures
            b == (*self == Poll::Pending),
    {
        match self {
            Poll::Pending => true,
            Poll::Ready => false,
        }
    }

    /// True exactly for `Poll::Ready`.
    pub fn is_ready(&self) -> (b: bool)
        ensures
            b == (*self == Poll::Ready),
    {
        match self {
            Poll::Ready => true,
            Poll::Pending => false,
        }
    }
}

} // verus!
