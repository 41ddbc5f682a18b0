//! The executor and its spawner handles.

use crate::poll::Poll;
use crate::queue::CapacityExceeded;
use crate::queue::ReadyQueue;
use crate::queue::SendOutcome;
use crate::queue::SpawnError;
use crate::schedule::lemma_drain_consumes_front;
use crate::schedule::lemma_finished_task_stays_finished;
use crate::schedule::lemma_polls_bounded_by_entries;
use crate::schedule::lemma_queued_task_is_polled;
use crate::schedule::lemma_unqueued_task_is_untouched;
use crate::schedule::occurrences;
use crate::schedule::Schedule;
use crate::task::Computation;
use crate::task::Task;
use crate::task::TaskView;
use crate::wake::WakeHandle;
use vstd::prelude::*;

verus! {

/// The number of ready tasks that may wait for a poll at once.
pub const MAX_QUEUED_TASKS: usize = 10_000;

/// What one scheduling cycle did.
#[derive(Clone, Copy, Debug, PartialEq, Eq, Structural)]
pub enum Step {
    /// The ready queue was empty.
    Idle,
    /// The entry named a task without a computation to poll.
    Skipped { task: usize },
    /// The task was polled once, with this outcome.
    Polled { task: usize, outcome: Poll },
}

/// Why a run returned.
#[derive(Clone, Copy, Debug, PartialEq, Eq, Structural)]
pub enum RunEnd {
    /// No work is left and none can arrive.
    Exhausted,
    /// The ready queue is drained, but the executor is not known to be
    /// exhausted: a spawner handle is counted or a task still owns a pending
    /// computation. Whether work can still arrive is for the embedding program
    /// to decide. The executor does not see the copies of its handles: while
    /// one is held somewhere a wake may come, and once the last copy for every
    /// pending task is gone none ever will, and the program ends the run.
    Parked,
}

/// Handle through which new computations enter an executor.
///
/// The executor counts its spawner handles: `duplicate` hands out one more,
/// `release` gives one up. As long as one is counted, no run ends
/// `Exhausted`.
pub struct Spawner {
    token: (),
}

/// Single-threaded executor: it owns the ready queue and the tasks, and polls
/// the tasks in the order in which they became ready.
///
/// A task enters the ready queue when it is spawned and whenever its handle
/// is invoked. A poll that reports `Pending` does not put the task back into
/// the queue: the task stays suspended until a wake arrives. The executor
/// never blocks. Where a thread would wait for the next wake, `run` returns,
/// and the embedding program calls it again once it has delivered one.
///
/// A spawner handle is a plain token that is not bound to the executor it
/// was made for. The count of handles is therefore only as good as the
/// program that passes them around.
pub struct Executor<C> {
    ready_queue: ReadyQueue<usize>,
    tasks: Vec<Task<C>>,
    spawners: usize,
}

impl<C> View for Executor<C> {
    type V = Schedule<C>;

    closed spec fn view(&self) -> Schedule<C> {
        Schedule {
            ready: self.ready_queue@,
            tasks: Seq::new(self.tasks@.len(), |i: int| self.tasks@[i]@),
            spawners: self.spawners as nat,
        }
    }
}

/// An executor with an empty ready queue for `MAX_QUEUED_TASKS` entries, and
/// its first spawner handle.
pub fn new_executor_and_spawner<C>() -> (pair: (Executor<C>, Spawner))
    ensures
        pair.0@ == Schedule::<C>::fresh(MAX_QUEUED_TASKS as nat),
        pair.0@.wf(),
{
    let executor = Executor {
        ready_queue: ReadyQueue::new(MAX_QUEUED_TASKS),
        tasks: Vec::new(),
        spawners: 1,
    };
    assert(executor@.tasks =~= Seq::empty());
    (executor, Spawner { token: () })
}

impl Spawner {
    /// Wraps `computation` in a new task and submits the task to the ready
    /// queue: with `Ok`, exactly one new task has entered the queue. A full or
    /// a closed ready queue refuses the task: the error says which it was, the
    /// computation is dropped, and the executor is left as it was.
    pub fn spawn<C>(&self, executor: &mut Executor<C>, computation: C) -> (spawned: Result<
        (),
        SpawnError,
    >)
        ensures
            spawned == old(executor)@.ready.verdict().spawn_rule(),
            final(executor)@ == old(executor)@.spawn(computation),
            old(executor)@.wf() ==> final(executor)@.wf(),
    {
        executor.submit(computation)
    }

    /// Hands out one more spawner handle for `executor`, or `None` if the count
    /// of its handles cannot grow.
    pub fn duplicate<C>(&self, executor: &mut Executor<C>) -> (handle: Option<Spawner>)
        ensures
            handle is Some <==> old(executor)@.spawners < usize::MAX,
            handle is Some ==> final(executor)@ == old(executor)@.add_spawner(),
            handle is None ==> final(executor)@ == old(executor)@,
    {
        if executor.spawners < usize::MAX {
            executor.spawners = executor.spawners + 1;
            Some(Spawner { token: () })
        } else {
            None
        }
    }

    /// Gives the handle up.
    pub fn release<C>(self, executor: &mut Executor<C>)
        ensures
            final(executor)@ == old(executor)@.drop_spawner(),
    {
        if executor.spawners > 0 {
            executor.spawners = executor.spawners - 1;
        }
    }
}

impl<C> Executor<C> {
    fn submit(&mut self, computation: C) -> (spawned: Result<(), SpawnError>)
        ensures
            spawned == old(self)@.ready.verdict().spawn_rule(),
            final(self)@ == old(self)@.spawn(computation),
            old(self)@.wf() ==> final(self)@.wf(),
    {
        let task: usize = self.tasks.len();
        let outcome = self.ready_queue.send(task);
        match outcome {
            SendOutcome::Sent => {
                self.tasks.push(Task::new(computation));
                assert(self@.tasks =~= old(self)@.tasks.push(TaskView::fresh(computation)));
            },
            _ => {
                assert(self@.tasks =~= old(self)@.tasks);
            },
        }
        outcome.for_spawn()
    }

    /// The number of tasks spawned so far.
    pub fn task_count(&self) -> (n: usize)
        ensures
            n == self@.tasks.len(),
    {
        self.tasks.len()
    }

    /// The number of entries that wait in the ready queue.
    pub fn ready_count(&self) -> (n: usize)
        ensures
            n == self@.ready.items.len(),
    {
        self.ready_queue.len()
    }

    /// The number of spawner handles that have not been released.
    pub fn spawner_count(&self) -> (n: usize)
        ensures
            n == self@.spawners,
    {
        self.spawners
    }

    /// True if `task` exists and its computation has not finished.
    pub fn is_pending(&self, task: usize) -> (b: bool)
        ensures
            b == self@.runnable(task),
    {
        if task < self.tasks.len() {
            self.tasks[task].is_pending()
        } else {
            false
        }
    }

    /// The handle of `task`, if the executor has a task of that number.
    pub fn handle(&self, task: usize) -> (handle: Option<WakeHandle>)
        ensures
            handle is Some <==> task < self@.tasks.len(),
            handle is Some ==> handle->0.id() == task,
    {
        if task < self.tasks.len() {
            Some(WakeHandle::new(task))
        } else {
            None
        }
    }

    /// Invokes `handle`: the task that it names is submitted to the ready
    /// queue, whether or not its computation has finished. A full ready queue
    /// refuses the submission and the error is returned. A closed ready queue
    /// is tolerated: the wake is dropped without an error. So is a handle that
    /// names no task of this executor.
    pub fn wake(&mut self, handle: &WakeHandle) -> (woken: Result<(), CapacityExceeded>)
        ensures
            woken == if handle.id() < old(self)@.tasks.len() {
                old(self)@.ready.verdict().wake_rule()
            } else {
                Ok(())
            },
            final(self)@ == old(self)@.wake(handle.id()),
            old(self)@.wf() ==> final(self)@.wf(),
    {
        let task: usize = handle.task();
        if task < self.tasks.len() {
            self.ready_queue.send(task).for_wake()
        } else {
            Ok(())
        }
    }

    /// True if no task owns a computation any more.
    fn all_finished(&self) -> (b: bool)
        ensures
            b == forall|task: int| 0 <= task < self@.tasks.len() ==> self@.tasks[task].slot is None,
    {
        let mut i: usize = 0;
        while i < self.tasks.len()
            invariant
                i <= self.tasks.len(),
                forall|task: int| 0 <= task < i ==> self@.tasks[task].slot is None,
            decreases self.tasks.len() - i,
        {
            if self.tasks[i].is_pending() {
                assert(self@.tasks[i as int].slot is Some);
                return false;
            }
            i = i + 1;
        }
        true
    }

    /// One scheduling cycle: receives the oldest entry of the ready queue and
    /// polls the task that it names once, with the task's own handle. What the
    /// cycle reports and leaves in the task's slot is the outcome of that one
    /// step of the computation. An entry whose task has no computation to poll
    /// is dropped without a poll.
    pub fn run_once(&mut self) -> (step: Step) where C: Computation<WakeHandle>
        ensures
            match step {
                Step::Idle => {
                    &&& old(self)@.ready.front() is None
                    &&& final(self)@ == old(self)@
                },
                Step::Skipped { task } => {
                    &&& old(self)@.ready.front() == Some(task)
                    &&& !old(self)@.runnable(task)
                    &&& final(self)@ == old(self)@.step(None)
                },
                Step::Polled { task, outcome } => {
                    &&& old(self)@.ready.front() == Some(task)
                    &&& old(self)@.runnable(task)
                    &&& final(self)@ == old(self)@.step(final(self)@.tasks[task as int].slot)
                    &&& old(self)@.polled(task, outcome, final(self)@.tasks[task as int].slot)
                },
            },
            old(self)@.wf() ==> final(self)@.wf(),
    {
        match self.ready_queue.recv() {
            None => Step::Idle,
            Some(task) => {
                if task < self.tasks.len() {
                    let handle = WakeHandle::new(task);
                    match self.tasks[task].poll_once(&handle) {
                        None => {
                            assert(self@.tasks =~= old(self)@.tasks);
                            Step::Skipped { task }
                        },
                        Some(outcome) => {
                            let ghost after = choose|after: C| #[trigger]
                                after.stepped(&old(self).tasks@[task as int]@.slot->0, &handle, outcome)
                                    && self.tasks@[task as int]@.slot == outcome.leaves(after);
                            assert(after.stepped(
                                &old(self)@.tasks[task as int].slot->0,
                                &handle,
                                outcome,
                            ));
                            assert(self@.tasks =~= old(self)@.tasks.update(
                                task as int,
                                TaskView {
                                    slot: self@.tasks[task as int].slot,
                                    polls: old(self)@.tasks[task as int].polls + 1,
                                },
                            ));
                            Step::Polled { task, outcome }
                        },
                    }
                } else {
                    Step::Skipped { task }
                }
            },
        }
    }

    /// Drives the executor until the ready queue is drained: each entry that
    /// waits at the start is received in turn, oldest first, and its task is
    /// polled once if it has a computation to poll. No entry is added while the
    /// executor runs, so the run ends after as many cycles as entries waited.
    ///
    /// The run ends `Exhausted`, and closes the ready queue, if by then every
    /// spawner handle is released and every task has finished. Otherwise it
    /// ends `Parked`: the executor is not known to be exhausted, and the
    /// embedding program either waits for the next wake or spawn, or ends the
    /// run itself where it knows that none can come.
    ///
    /// Every poll of the run is one step of the task's computation, made with
    /// the handle of that task.
    ///
    /// A task that has finished, or for which no entry waits, is left as it is.
    /// A pending task for which an entry waits is polled, and no task is polled
    /// more often than entries for it wait.
    pub fn run(&mut self) -> (end: RunEnd) where C: Computation<WakeHandle>
        ensures
            exists|slots: Seq<Option<C>>|
                slots.len() == old(self)@.ready.items.len() && old(self)@.drains(slots)
                    && final(self)@ == (#[trigger] old(self)@.drain(slots)).conclude(),
            end == RunEnd::Exhausted <==> final(self)@.exhausted(),
            final(self)@.ready.items.len() == 0,
            final(self)@.tasks.len() == old(self)@.tasks.len(),
            final(self)@.spawners == old(self)@.spawners,
            forall|task: usize|
                #![trigger final(self)@.tasks[task as int]]
                task < old(self)@.tasks.len() ==> ({
                    let before = old(self)@.tasks[task as int];
                    let after = final(self)@.tasks[task as int];
                    &&& before.slot is None || !old(self)@.ready.items.contains(task) ==> after
                        == before
                    &&& before.slot is Some && old(self)@.ready.items.contains(task) ==> after.polls
                        > before.polls
                    &&& before.polls <= after.polls
                    &&& after.polls <= before.polls + occurrences(
                        old(self)@.ready.items,
                        task as int,
                    )
                    &&& after.slot is Some ==> after.polls == before.polls + occurrences(
                        old(self)@.ready.items,
                        task as int,
                    )
                }),
            old(self)@.wf() ==> final(self)@.wf(),
    {
        let ghost start = self@;
        let ghost mut slots: Seq<Option<C>> = Seq::empty();
        while self.ready_queue.len() > 0
            invariant
                slots.len() + self@.ready.items.len() == start.ready.items.len(),
                self@ == start.drain(slots),
                start.drains(slots),
                start.wf() ==> self@.wf(),
            decreases self@.ready.items.len(),
        {
            let ghost before = self@;
            let step = self.run_once();
            proof {
                let slot: Option<C> = match step {
                    Step::Polled { task, outcome } => self@.tasks[task as int].slot,
                    _ => None,
                };
                assert(slots.push(slot).drop_last() =~= slots);
                assert(before.admits(slot));
                slots = slots.push(slot);
            }
        }
        proof {
            lemma_drain_consumes_front(start, slots);
            assert(start.ready.items.take(slots.len() as int) =~= start.ready.items);
            assert forall|task: usize| task < start.tasks.len() implies {
                &&& start.tasks[task as int].slot is None || !start.ready.items.contains(task)
                    ==> #[trigger] self@.tasks[task as int] == start.tasks[task as int]
                &&& start.tasks[task as int].slot is Some && start.ready.items.contains(task)
                    ==> self@.tasks[task as int].polls > start.tasks[task as int].polls
                &&& start.tasks[task as int].polls <= self@.tasks[task as int].polls
                &&& self@.tasks[task as int].polls <= start.tasks[task as int].polls + occurrences(
                    start.ready.items,
                    task as int,
                )
                &&& self@.tasks[task as int].slot is Some ==> self@.tasks[task as int].polls
                    == start.tasks[task as int].polls + occurrences(
                    start.ready.items,
                    task as int,
                )
            } by {
                lemma_polls_bounded_by_entries(start, task, slots);
                if start.tasks[task as int].slot is None {
                    lemma_finished_task_stays_finished(start, task, slots);
                } else if !start.ready.items.contains(task) {
                    lemma_unqueued_task_is_untouched(start, task, slots);
                } else {
                    lemma_queued_task_is_polled(start, task, slots);
                }
            }
        }
        if self.spawners == 0 && self.all_finished() {
            self.ready_queue.close();
            RunEnd::Exhausted
        } else {
            RunEnd::Parked
        }
    }
}

} // verus!
