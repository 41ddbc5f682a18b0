//! The executor as a mathematical state machine, and what holds of every
//! run of it.

use crate::poll::Poll;
use crate::queue::QueueView;
use crate::queue::SendOutcome;
use crate::task::Computation;
use crate::task::TaskView;
use crate::timer::TimerView;
use crate::wake::WakeHandle;
use vstd::prelude::*;

verus! {

/// Mathematical state of an executor.
pub struct Schedule<C> {
    /// The ready queue: numbers of the tasks that wait for a poll, in the order
    /// in which they became ready.
    pub ready: QueueView<usize>,
    /// Every task ever spawned, by its number.
    pub tasks: Seq<TaskView<C>>,
    /// The number of spawner handles that have not been released.
    pub spawners: nat,
}

impl<C> Schedule<C> {
    /// The ready queue is well formed and names only tasks that exist.
    pub open spec fn wf(self) -> bool {
        &&& self.ready.wf()
        &&& forall|i: int| 0 <= i < self.ready.items.len() ==> self.ready.items[i] < self.tasks.len()
    }

    /// The state of a new executor with one spawner handle.
    pub open spec fn fresh(capacity: nat) -> Self {
        Schedule {
            ready: QueueView { items: Seq::empty(), capacity, open: true },
            tasks: Seq::empty(),
            spawners: 1,
        }
    }

    /// True if `task` exists and still owns its computation.
    pub open spec fn runnable(self, task: usize) -> bool {
        task < self.tasks.len() && self.tasks[task as int].slot is Some
    }

    /// The state after a spawn of `computation`. If the ready queue is open
    /// and has a free place, a new task owns the computation and waits at the
    /// back of the queue. Otherwise nothing changes.
    pub open spec fn spawn(self, computation: C) -> Self {
        if self.ready.verdict() == SendOutcome::Sent {
            Schedule {
                ready: self.ready.send(self.tasks.len() as usize),
                tasks: self.tasks.push(TaskView::fresh(computation)),
                ..self
            }
        } else {
            self
        }
    }

    /// The state after the handle of `task` was invoked. If the ready queue is
    /// open and has a free place, the task waits once more at its back. A full
    /// or closed queue, or a handle that names no task of this executor,
    /// changes nothing.
    pub open spec fn wake(self, task: usize) -> Self {
        if task < self.tasks.len() {
            Schedule { ready: self.ready.send(task), ..self }
        } else {
            self
        }
    }

    /// The state after one more spawner handle was handed out.
    pub open spec fn add_spawner(self) -> Self {
        Schedule { spawners: self.spawners + 1, ..self }
    }

    /// The state after one spawner handle was released.
    pub open spec fn drop_spawner(self) -> Self {
        Schedule {
            spawners: if self.spawners > 0 {
                (self.spawners - 1) as nat
            } else {
                0
            },
            ..self
        }
    }

    /// The state after one scheduling cycle. The oldest entry leaves the ready
    /// queue. If it names a runnable task, that task is polled once and `slot`
    /// is what the poll leaves in the task's slot: the computation if it
    /// reported `Pending`, nothing if it reported `Ready`. Otherwise the entry
    /// is stale and nothing else changes. With an empty ready queue nothing
    /// happens.
    pub open spec fn step(self, slot: Option<C>) -> Self {
        match self.ready.front() {
            None => self,
            Some(task) => if self.runnable(task) {
                Schedule {
                    ready: self.ready.pop(),
                    tasks: self.tasks.update(
                        task as int,
                        TaskView { slot, polls: self.tasks[task as int].polls + 1 },
                    ),
                    ..self
                }
            } else {
                Schedule { ready: self.ready.pop(), ..self }
            },
        }
    }

    /// The state after as many scheduling cycles as `slots` is long, where
    /// `slots[i]` is what the poll of the `i`-th cycle leaves in its task's
    /// slot.
    pub open spec fn drain(self, slots: Seq<Option<C>>) -> Self
        decreases slots.len(),
    {
        if slots.len() == 0 {
            self
        } else {
            self.drain(slots.drop_last()).step(slots.last())
        }
    }

    /// No work is left and none can arrive: the ready queue is empty, every
    /// spawner handle is released, and every task has finished.
    pub open spec fn exhausted(self) -> bool {
        &&& self.ready.items.len() == 0
        &&& self.spawners == 0
        &&& forall|task: int| 0 <= task < self.tasks.len() ==> self.tasks[task].slot is None
    }

    /// The state in which a run ends: an exhausted executor closes its ready
    /// queue, any other is left as it is.
    pub open spec fn conclude(self) -> Self {
        if self.exhausted() {
            Schedule { ready: self.ready.close(), ..self }
        } else {
            self
        }
    }
}

impl<C: Computation<WakeHandle>> Schedule<C> {
    /// True if a poll of `task` may report `outcome` and leave `slot` behind:
    /// the task's computation made one step, with the handle of this very task,
    /// and the slot holds what that step leaves.
    pub open spec fn polled(self, task: usize, outcome: Poll, slot: Option<C>) -> bool {
        exists|after: C, handle: WakeHandle|
            handle.id() == task && #[trigger] after.stepped(
                &self.tasks[task as int].slot->0,
                &handle,
                outcome,
            ) && slot == outcome.leaves(after)
    }

    /// True if the next scheduling cycle may leave `slot` behind: where the
    /// cycle polls a task, `slot` comes out of that poll.
    pub open spec fn admits(self, slot: Option<C>) -> bool {
        match self.ready.front() {
            Some(task) => self.runnable(task) ==> exists|outcome: Poll|
                #[trigger] self.polled(task, outcome, slot),
            None => true,
        }
    }

    /// True if `slots` may be what the polls of a drain leave behind, cycle by
    /// cycle.
    pub open spec fn drains(self, slots: Seq<Option<C>>) -> bool
        decreases slots.len(),
    {
        slots.len() == 0 || (self.drains(slots.drop_last()) && self.drain(
            slots.drop_last(),
        ).admits(slots.last()))
    }
}

/// How often `task` occurs in `entries`.
pub open spec fn occurrences(entries: Seq<usize>, task: int) -> nat
    decreases entries.len(),
{
    if entries.len() == 0 {
        0
    } else {
        occurrences(entries.drop_last(), task) + if entries.last() == task {
            1nat
        } else {
            0nat
        }
    }
}

/// An entry appended at the back counts once if it names `task`.
pub proof fn lemma_occurrences_push(entries: Seq<usize>, entry: usize, task: int)
    ensures
        occurrences(entries.push(entry), task) == occurrences(entries, task) + if entry == task {
            1nat
        } else {
            0nat
        },
{
    assert(entries.push(entry).drop_last() =~= entries);
}

/// A task occurs in a sequence of entries exactly if the sequence contains it.
pub proof fn lemma_occurrences_contains(entries: Seq<usize>, task: usize)
    ensures
        occurrences(entries, task as int) > 0 <==> entries.contains(task),
    decreases entries.len(),
{
    if entries.len() > 0 {
        let front = entries.drop_last();
        lemma_occurrences_contains(front, task);
        if entries.contains(task) {
            let i = choose|i: int| 0 <= i < entries.len() && entries[i] == task;
            if i < entries.len() - 1 {
                assert(front[i] == task);
            }
        }
    }
}

/// What the first `slots.len()` scheduling cycles of a drain do to the ready
/// queue and to one task.
proof fn lemma_drain_prefix<C>(s: Schedule<C>, slots: Seq<Option<C>>, task: int)
    requires
        slots.len() <= s.ready.items.len(),
    ensures
        ({
            let d = s.drain(slots);
            let k = slots.len() as int;
            let n = occurrences(s.ready.items.take(k), task);
            &&& d.ready == (QueueView { items: s.ready.items.skip(k), ..s.ready })
            &&& d.spawners == s.spawners
            &&& d.tasks.len() == s.tasks.len()
            &&& 0 <= task < s.tasks.len() ==> {
                &&& s.tasks[task].slot is None ==> d.tasks[task] == s.tasks[task]
                &&& n == 0 ==> d.tasks[task] == s.tasks[task]
                &&& d.tasks[task].polls >= s.tasks[task].polls
                &&& d.tasks[task].polls <= s.tasks[task].polls + n
                &&& s.tasks[task].slot is Some && n > 0 ==> d.tasks[task].polls
                    > s.tasks[task].polls
                &&& d.tasks[task].slot is Some ==> s.tasks[task].slot is Some
                    && d.tasks[task].polls == s.tasks[task].polls + n
            }
        }),
    decreases slots.len(),
{
    let q = s.ready.items;
    let k = slots.len() as int;
    if k == 0 {
        assert(q.skip(0) =~= q);
    } else {
        let before = slots.drop_last();
        lemma_drain_prefix(s, before, task);
        assert(q.skip(k - 1).skip(1) =~= q.skip(k));
        assert(q.take(k).drop_last() =~= q.take(k - 1));
    }
}

/// A drain only consumes the front of the ready queue: after `slots.len()`
/// cycles that many entries are gone, the rest waits in its old order, and no
/// task and no spawner handle was added or removed. A well-formed state stays
/// well formed.
pub proof fn lemma_drain_consumes_front<C>(s: Schedule<C>, slots: Seq<Option<C>>)
    requires
        slots.len() <= s.ready.items.len(),
    ensures
        s.drain(slots).ready == (QueueView {
            items: s.ready.items.skip(slots.len() as int),
            ..s.ready
        }),
        s.drain(slots).tasks.len() == s.tasks.len(),
        s.drain(slots).spawners == s.spawners,
        s.wf() ==> s.drain(slots).wf(),
{
    lemma_drain_prefix(s, slots, 0);
}

/// A finished task stays finished: whatever entries are received, the task is
/// not polled and gets no computation again.
pub proof fn lemma_finished_task_stays_finished<C>(
    s: Schedule<C>,
    task: usize,
    slots: Seq<Option<C>>,
)
    requires
        slots.len() <= s.ready.items.len(),
        task < s.tasks.len(),
        s.tasks[task as int].slot is None,
    ensures
        s.drain(slots).tasks[task as int] == s.tasks[task as int],
{
    lemma_drain_prefix(s, slots, task as int);
}

/// Waking a task whose computation has finished is harmless. The submission
/// leaves the ready queue well formed and touches no task, and when the entry
/// is received, the task is neither polled nor given a computation again.
pub proof fn lemma_stale_wake_is_harmless<C>(s: Schedule<C>, task: usize, slots: Seq<Option<C>>)
    requires
        s.wf(),
        !s.ready.full(),
        task < s.tasks.len(),
        s.tasks[task as int].slot is None,
        slots.len() <= s.wake(task).ready.items.len(),
    ensures
        s.wake(task).wf(),
        s.wake(task).tasks == s.tasks,
        s.wake(task).drain(slots).wf(),
        s.wake(task).drain(slots).tasks[task as int] == s.tasks[task as int],
{
    lemma_drain_prefix(s.wake(task), slots, task as int);
}

/// A task of which no entry is received is left alone: it is not polled, and
/// its computation stays where it is. So a suspended task is polled again only
/// after its handle was invoked.
pub proof fn lemma_unqueued_task_is_untouched<C>(
    s: Schedule<C>,
    task: usize,
    slots: Seq<Option<C>>,
)
    requires
        slots.len() <= s.ready.items.len(),
        task < s.tasks.len(),
        !s.ready.items.take(slots.len() as int).contains(task),
    ensures
        s.drain(slots).tasks[task as int] == s.tasks[task as int],
{
    lemma_occurrences_contains(s.ready.items.take(slots.len() as int), task);
    lemma_drain_prefix(s, slots, task as int);
}

/// A task is polled at most as often as entries that name it are received,
/// and exactly that often if its computation is still pending afterwards.
pub proof fn lemma_polls_bounded_by_entries<C>(s: Schedule<C>, task: usize, slots: Seq<Option<C>>)
    requires
        slots.len() <= s.ready.items.len(),
        task < s.tasks.len(),
    ensures
        s.drain(slots).tasks[task as int].polls >= s.tasks[task as int].polls,
        s.drain(slots).tasks[task as int].polls <= s.tasks[task as int].polls + occurrences(
            s.ready.items.take(slots.len() as int),
            task as int,
        ),
        s.drain(slots).tasks[task as int].slot is Some ==> s.drain(slots).tasks[task as int].polls
            == s.tasks[task as int].polls + occurrences(
            s.ready.items.take(slots.len() as int),
            task as int,
        ),
{
    lemma_drain_prefix(s, slots, task as int);
}

/// No wake is lost and none is doubled. If a task is suspended, that is, it
/// owns a pending computation and no entry for it waits, and its handle is
/// then invoked once, the run that drains the ready queue polls the task
/// exactly once.
pub proof fn lemma_no_lost_wake<C>(s: Schedule<C>, task: usize, slots: Seq<Option<C>>)
    requires
        s.wf(),
        s.ready.open,
        !s.ready.full(),
        s.runnable(task),
        !s.ready.items.contains(task),
        slots.len() == s.wake(task).ready.items.len(),
    ensures
        s.wake(task).ready.items == s.ready.items.push(task),
        s.wake(task).drain(slots).tasks[task as int].polls == s.tasks[task as int].polls + 1,
{
    let woken = s.wake(task);
    let q = woken.ready.items;
    assert(q.take(q.len() as int) =~= q);
    lemma_occurrences_push(s.ready.items, task, task as int);
    lemma_occurrences_contains(s.ready.items, task);
    lemma_drain_prefix(woken, slots, task as int);
}

/// Every wake of a pending task leads to a poll: if an entry for a runnable
/// task waits, the run that drains the ready queue polls the task at least
/// once.
pub proof fn lemma_queued_task_is_polled<C>(s: Schedule<C>, task: usize, slots: Seq<Option<C>>)
    requires
        s.runnable(task),
        s.ready.items.contains(task),
        slots.len() == s.ready.items.len(),
    ensures
        s.drain(slots).tasks[task as int].polls > s.tasks[task as int].polls,
{
    let q = s.ready.items;
    assert(q.take(q.len() as int) =~= q);
    lemma_occurrences_contains(q, task);
    lemma_drain_prefix(s, slots, task as int);
}

/// Exhaustion ends the run. If every spawner handle is released and no task
/// owns a pending computation, then draining the ready queue, whatever stale
/// entries it holds, leaves an exhausted executor, and the run closes the
/// ready queue.
pub proof fn lemma_exhaustion_ends_run<C>(s: Schedule<C>, slots: Seq<Option<C>>)
    requires
        s.spawners == 0,
        forall|task: int| 0 <= task < s.tasks.len() ==> s.tasks[task].slot is None,
        slots.len() == s.ready.items.len(),
    ensures
        s.drain(slots).exhausted(),
        s.drain(slots).tasks == s.tasks,
        !s.drain(slots).conclude().ready.open,
{
    let d = s.drain(slots);
    lemma_drain_prefix(s, slots, 0);
    assert forall|task: int| 0 <= task < d.tasks.len() implies d.tasks[task] == s.tasks[task] by {
        lemma_drain_prefix(s, slots, task);
    }
}

/// A task that awaits one timer is polled exactly as often as it takes to
/// see the timer complete. The task was spawned and its entry waits, among
/// any others. The run that receives it polls the task once; that poll finds
/// the timer pending and leaves the task's handle with it, and the task is
/// suspended: until the timer fires nothing waits for a poll. The firing hands
/// out that handle, and the poll that follows the wake finds the timer
/// completed and finishes the task.
pub proof fn lemma_timer_task_is_polled_twice<C>(
    s: Schedule<C>,
    timer: TimerView<WakeHandle>,
    handle: WakeHandle,
    slots: Seq<Option<C>>,
    suspended: C,
)
    requires
        s.wf(),
        s.ready.open,
        s.runnable(handle.id()),
        occurrences(s.ready.items, handle.id() as int) == 1,
        slots.len() == s.ready.items.len(),
        timer.wf(),
        !timer.completed,
        s.drain(slots).tasks[handle.id() as int].slot == timer.outcome().leaves(suspended),
    ensures
        ({
            let task = handle.id() as int;
            let parked = s.drain(slots);
            let armed = timer.poll(handle);
            let fired = armed.fire();
            let woken = parked.wake(handle.id());
            let done = woken.step(fired.outcome().leaves(suspended));
            &&& parked.tasks[task] == (TaskView {
                slot: Some(suspended),
                polls: s.tasks[task].polls + 1,
            })
            &&& parked.ready.items.len() == 0
            &&& armed.waker == Some(handle)
            &&& woken.ready.items == seq![handle.id()]
            &&& done.tasks[task] == (TaskView::<C> { slot: None, polls: s.tasks[task].polls + 2 })
            &&& done.ready.items.len() == 0
        }),
{
    let q = s.ready.items;
    assert(q.take(q.len() as int) =~= q);
    lemma_drain_prefix(s, slots, handle.id() as int);
    lemma_occurrences_contains(q, handle.id());
}

/// A task whose timer fired before the first poll is polled once: the timer
/// held no handle to hand out, and the poll after the spawn finds the timer
/// completed, leaves no handle with it, and finishes the task.
pub proof fn lemma_timer_task_is_polled_once<C>(
    s: Schedule<C>,
    timer: TimerView<WakeHandle>,
    handle: WakeHandle,
    slots: Seq<Option<C>>,
    suspended: C,
)
    requires
        s.wf(),
        s.runnable(handle.id()),
        occurrences(s.ready.items, handle.id() as int) == 1,
        slots.len() == s.ready.items.len(),
        timer.wf(),
        !timer.completed,
        timer.waker is None,
        s.drain(slots).tasks[handle.id() as int].slot == timer.fire().outcome().leaves(suspended),
    ensures
        ({
            let task = handle.id() as int;
            let fired = timer.fire();
            let done = s.drain(slots);
            &&& fired.waker is None
            &&& fired.poll(handle) == fired
            &&& done.tasks[task] == (TaskView::<C> { slot: None, polls: s.tasks[task].polls + 1 })
            &&& done.ready.items.len() == 0
        }),
{
    let q = s.ready.items;
    assert(q.take(q.len() as int) =~= q);
    lemma_drain_prefix(s, slots, handle.id() as int);
    lemma_occurrences_contains(q, handle.id());
}

} // verus!
