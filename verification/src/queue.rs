//! The bounded FIFO queue that carries ready tasks to the executor.

use std::collections::VecDeque;
use vstd::prelude::*;

verus! {

/// A submission met a ready queue that already held as many items as its
/// capacity allows.
#[derive(Clone, Copy, Debug, PartialEq, Eq, Structural)]
pub struct CapacityExceeded;

impl CapacityExceeded {
    /// The text with which a caller that treats the overflow as fatal stops.
    pub fn message(&self) -> (text: &'static str)
        ensures
            text@ == "too many tasks queued"@,
    {
        "too many tasks queued"
    }
}

/// Why a new task was not admitted.
#[derive(Clone, Copy, Debug, PartialEq, Eq, Structural)]
pub enum SpawnError {
    /// The ready queue already held as many entries as its capacity allows.
    CapacityExceeded,
    /// The ready queue is closed: its executor has ended, and nothing would
    /// ever poll the task.
    Closed,
}

impl SpawnError {
    /// The text with which a caller that treats the refusal as fatal stops.
    pub fn message(&self) -> (text: &'static str)
        ensures
            *self == SpawnError::CapacityExceeded ==> text@ == "too many tasks queued"@,
            *self == SpawnError::Closed ==> text@ == "ready queue is closed"@,
    {
        match self {
            SpawnError::CapacityExceeded => "too many tasks queued",
            SpawnError::Closed => "ready queue is closed",
        }
    }
}

/// What became of a submission to a bounded queue.
#[derive(Clone, Copy, Debug, PartialEq, Eq, Structural)]
pub enum SendOutcome {
    /// The item waits in the queue.
    Sent,
    /// The queue was full. The item is not in it.
    Full,
    /// The queue was closed. The item is not in it.
    Closed,
}

impl SendOutcome {
    /// What a wake makes of the outcome of its submission: a full queue is an
    /// error, a closed one is tolerated, since nobody is left to be woken.
    pub open spec fn wake_rule(self) -> Result<(), CapacityExceeded> {
        match self {
            SendOutcome::Sent => Ok(()),
            SendOutcome::Full => Err(CapacityExceeded),
            SendOutcome::Closed => Ok(()),
        }
    }

    /// What a spawn makes of the outcome of its submission: only a task that
    /// waits in the queue counts as spawned.
    pub open spec fn spawn_rule(self) -> Result<(), SpawnError> {
        match self {
            SendOutcome::Sent => Ok(()),
            SendOutcome::Full => Err(SpawnError::CapacityExceeded),
            SendOutcome::Closed => Err(SpawnError::Closed),
        }
    }

    /// The result of a wake whose submission ended with this outcome.
    pub fn for_wake(self) -> (woken: Result<(), CapacityExceeded>)
        ensures
            woken == self.wake_rule(),
    {
        match self {
            SendOutcome::Sent => Ok(()),
            SendOutcome::Full => Err(CapacityExceeded),
            SendOutcome::Closed => Ok(()),
        }
    }

    /// The result of a spawn whose submission ended with this outcome.
    pub fn for_spawn(self) -> (spawned: Result<(), SpawnError>)
        ensures
            spawned == self.spawn_rule(),
    {
        match self {
            SendOutcome::Sent => Ok(()),
            SendOutcome::Full => Err(SpawnError::CapacityExceeded),
            SendOutcome::Closed => Err(SpawnError::Closed),
        }
    }
}

/// Mathematical state of a bounded FIFO queue.
pub struct QueueView<T> {
    /// The waiting items, the oldest first.
    pub items: Seq<T>,
    /// The largest number of items that may wait at once.
    pub capacity: nat,
    /// False once the consuming side has gone away.
    pub open: bool,
}

impl<T> QueueView<T> {
    /// A queue never holds more than its capacity, and a closed one holds
    /// nothing.
    pub open spec fn wf(self) -> bool {
        &&& self.items.len() <= self.capacity
        &&& !self.open ==> self.items.len() == 0
    }

    /// An open queue without a free place.
    pub open spec fn full(self) -> bool {
        self.open && self.items.len() >= self.capacity
    }

    /// What becomes of a submission in this state.
    pub open spec fn verdict(self) -> SendOutcome {
        if !self.open {
            SendOutcome::Closed
        } else if self.items.len() >= self.capacity {
            SendOutcome::Full
        } else {
            SendOutcome::Sent
        }
    }

    /// The state after a submission of `item`: appended at the back if the
    /// queue is open and has a free place, left out otherwise.
    pub open spec fn send(self, item: T) -> Self {
        if self.verdict() == SendOutcome::Sent {
            QueueView { items: self.items.push(item), ..self }
        } else {
            self
        }
    }

    /// The item that the next receive hands out, if any.
    pub open spec fn front(self) -> Option<T> {
        if self.items.len() > 0 {
            Some(self.items[0])
        } else {
            None
        }
    }

    /// The state after a receive: the oldest item is gone, the rest keeps its
    /// order.
    pub open spec fn pop(self) -> Self {
        if self.items.len() > 0 {
            QueueView { items: self.items.skip(1), ..self }
        } else {
            self
        }
    }

    /// The state after the consuming side went away: nothing waits, nothing
    /// will be accepted.
    pub open spec fn close(self) -> Self {
        QueueView { items: Seq::empty(), open: false, ..self }
    }
}

/// Bounded FIFO transport of ready items between the producers that submit
/// them and the single consumer that receives them.
pub struct ReadyQueue<T> {
    items: VecDeque<T>,
    capacity: usize,
    open: bool,
}

impl<T> View for ReadyQueue<T> {
    type V = QueueView<T>;

    closed spec fn view(&self) -> QueueView<T> {
        QueueView { items: self.items@, capacity: self.capacity as nat, open: self.open }
    }
}

impl<T> ReadyQueue<T> {
    /// An open, empty queue with room for `capacity` items.
    pub fn new(capacity: usize) -> (queue: Self)
        ensures
            queue@ == (QueueView::<T> { items: Seq::empty(), capacity: capacity as nat, open: true }),
            queue@.wf(),
    {
        ReadyQueue { items: VecDeque::new(), capacity, open: true }
    }

    /// The largest number of items that may wait at once.
    pub fn capacity(&self) -> (n: usize)
        ensures
            n == self@.capacity,
    {
        self.capacity
    }

    /// The number of items that wait.
    pub fn len(&self) -> (n: usize)
        ensures
            n == self@.items.len(),
    {
        self.items.len()
    }

    /// True when no item waits.
    pub fn is_empty(&self) -> (b: bool)
        ensures
            b == (self@.items.len() == 0),
    {
        self.items.len() == 0
    }

    /// False once `close` was called.
    pub fn is_open(&self) -> (b: bool)
        ensures
            b == self@.open,
    {
        self.open
    }

    /// Submits `item`. An open queue with a free place appends it. A full or a
    /// closed queue stays as it was and the item is dropped. The outcome says
    /// which of the three happened.
    pub fn send(&mut self, item: T) -> (outcome: SendOutcome)
        ensures
            outcome == old(self)@.verdict(),
            final(self)@ == old(self)@.send(item),
            old(self)@.wf() ==> final(self)@.wf(),
    {
        if !self.open {
            SendOutcome::Closed
        } else if self.items.len() >= self.capacity {
            SendOutcome::Full
        } else {
            self.items.push_back(item);
            SendOutcome::Sent
        }
    }

    /// Hands out the oldest waiting item, or `None` when nothing waits.
    pub fn recv(&mut self) -> (item: Option<T>)
        ensures
            item == old(self)@.front(),
            final(self)@ == old(self)@.pop(),
            old(self)@.wf() ==> final(self)@.wf(),
    {
        self.items.pop_front()
    }

    /// Marks the consuming side as gone: what still waits is dropped, and
    /// every later submission is turned away as `Closed`.
    pub fn close(&mut self)
        ensures
            final(self)@ == old(self)@.close(),
            final(self)@.wf(),
    {
        self.items.clear();
        self.open = false;
    }
}

} // verus!
