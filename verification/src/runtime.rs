//! The scheduler: task records, the ready queue that drives them, and the
//! loop that queries suspended computations.
//!
//! `Runtime` owns its ready queue and hands every producer a `Notifier`
//! handle instead of ambient global state. Submitting a computation
//! (`work_on`) enqueues its task once; after that the task re-enters the
//! queue only when some notifier bound to it is invoked — synchronously
//! during a query (recorded on the lent notifier and drained by the loop) or
//! later through `wake` / `wake_by_ref`. The loop never re-enqueues a
//! pending task on its own, so a computation that reports `Pending` without
//! signalling is parked, not busy-polled.

use vstd::prelude::*;

use crate::notify::Notifier;
use crate::queue::ReadyQueue;
use crate::queue::entries_for;
use crate::queue::lemma_entries_for_push;
use crate::queue::lemma_entries_for_repeat;
use crate::queue::lemma_entries_for_concat;
use crate::queue::lemma_entries_for_tail;
use crate::queue::lemma_entries_for_index;

verus! {

/// What one query of a computation reports: finished, or suspended again.
#[derive(Clone, Copy, Debug, PartialEq, Eq, Structural)]
pub enum QueryResult {
    Ready,
    Pending,
}

/// A suspendable computation, opaque to the scheduler.
///
/// One call of `query` must return promptly with `Ready` (the work is done;
/// the result, if any, stays with the computation) or `Pending` (not yet).
/// A computation that returns `Pending` is not queried again unless the
/// notifier it was handed — or a handle cloned from it — is invoked at least
/// once after the query returns: it may record signals on the lent notifier
/// during the query, or keep a `clone_handle` for delivery later.
pub trait Computation: Sized {
    fn query(&mut self, notifier: &mut Notifier) -> QueryResult;
}

/// One task: a computation plus the scheduler's bookkeeping for it.
pub struct Task<C> {
    /// The suspended computation. It is kept behind the task record from
    /// submission on, so its storage never moves between queries.
    pub computation: C,
    /// Whether a query has reported `Ready`; final once set.
    pub done: bool,
    /// How often the computation has been queried.
    pub queries: Ghost<nat>,
}

/// The scheduler-side state of one task.
///
/// `Queued` and `Parked` tasks are both suspended; they differ in whether a
/// queue entry will get them queried again. `Completed` is terminal. A task
/// leaves `Parked` only when a notifier bound to it is invoked.
pub enum Phase {
    Queued,
    Parked,
    Completed,
}

/// What one turn of the scheduling loop did.
#[derive(Clone, Copy, Debug, PartialEq, Eq, Structural)]
pub enum StepOutcome {
    /// The ready queue was empty; nothing to do.
    Idle,
    /// The front entry named an already completed task and was dropped.
    Skipped { task: usize },
    /// The front entry's computation was queried once. `fired` is the number
    /// of wake signals it recorded on the lent notifier, each of which became
    /// one new queue entry; `completed` tells whether it reported `Ready`.
    Queried { task: usize, fired: u64, completed: bool },
}

/// The scheduler. It owns the single ready queue; task ids index `tasks`.
pub struct Runtime<C> {
    pub tasks: Vec<Task<C>>,
    pub ready: ReadyQueue,
}

impl<C: Computation> Runtime<C> {
    /// Every queue entry refers to an existing task.
    pub open spec fn wf(self) -> bool {
        forall|i: int| 0 <= i < self.ready@.len() ==> (#[trigger] self.ready@[i]) < self.tasks@.len()
    }

    /// How many tasks have been submitted.
    pub open spec fn task_count(self) -> nat {
        self.tasks@.len()
    }

    /// Whether the task still holds work: submitted and not yet completed.
    pub open spec fn live(self, id: usize) -> bool {
        id < self.tasks@.len() && !self.tasks@[id as int].done
    }

    /// How often the task's computation has been queried.
    pub open spec fn queries(self, id: usize) -> nat {
        self.tasks@[id as int].queries@
    }

    /// How many ready-queue entries name the task.
    pub open spec fn entries(self, id: usize) -> nat {
        entries_for(self.ready@, id)
    }

    /// The task's scheduling phase; see `Phase`.
    pub open spec fn phase(self, id: usize) -> Phase
        recommends
            id < self.tasks@.len(),
    {
        if self.tasks@[id as int].done {
            Phase::Completed
        } else if entries_for(self.ready@, id) > 0 {
            Phase::Queued
        } else {
            Phase::Parked
        }
    }

    /// Accept a computation for execution and enqueue its task once.
    ///
    /// Returns the new task's id, to which notifier handles can be bound.
    pub fn work_on(&mut self, computation: C) -> (id: usize)
        requires
            old(self).wf(),
        ensures
            final(self).wf(),
            id as nat == old(self).task_count(),
            final(self).task_count() == old(self).task_count() + 1,
            final(self).tasks@[id as int].computation == computation,
            final(self).live(id),
            final(self).queries(id) == 0,
            forall|j: int| 0 <= j < old(self).tasks@.len()
                ==> final(self).tasks@[j] == old(self).tasks@[j],
            final(self).ready@ == old(self).ready@.push(id),
            final(self).phase(id) is Queued,
    {
        let id = self.tasks.len();
        self.tasks.push(Task { computation, done: false, queries: Ghost(0nat) });
        let ghost before = self.ready@;
        self.ready.push(id);
        proof {
            lemma_entries_for_push(before, id, id);
        }
        id
    }

    /// Deliver one wake signal from a stored handle: one more queue entry
    /// for its task, and for no other, so a parked task is queued again.
    /// A handle that names no existing task is ignored.
    pub fn wake_by_ref(&mut self, handle: &Notifier)
        requires
            old(self).wf(),
        ensures
            final(self).wf(),
            final(self).tasks@ == old(self).tasks@,
            (handle.task as nat) < old(self).task_count() ==> final(self).ready@ == old(self).ready@.push(handle.task),
            (handle.task as nat) < old(self).task_count() ==> final(self).entries(handle.task)
                == old(self).entries(handle.task) + 1,
            !((handle.task as nat) < old(self).task_count()) ==> final(self).ready@ == old(self).ready@,
            forall|j: usize| j != handle.task ==> final(self).entries(j) == old(self).entries(j),
            old(self).live(handle.task) ==> final(self).phase(handle.task) is Queued,
    {
        if handle.task < self.tasks.len() {
            let ghost before = self.ready@;
            self.ready.push(handle.task);
            proof {
                assert forall|j: usize| j != handle.task implies entries_for(
                    self.ready@,
                    j,
                ) == entries_for(before, j) by {
                    lemma_entries_for_push(before, handle.task, j);
                }
                lemma_entries_for_push(before, handle.task, handle.task);
            }
        }
    }

    /// Deliver one wake signal and spend the handle doing so.
    /// Same effect as `wake_by_ref`.
    pub fn wake(&mut self, handle: Notifier)
        requires
            old(self).wf(),
        ensures
            final(self).wf(),
            final(self).tasks@ == old(self).tasks@,
            (handle.task as nat) < old(self).task_count() ==> final(self).ready@ == old(self).ready@.push(handle.task),
            (handle.task as nat) < old(self).task_count() ==> final(self).entries(handle.task)
                == old(self).entries(handle.task) + 1,
            !((handle.task as nat) < old(self).task_count()) ==> final(self).ready@ == old(self).ready@,
            forall|j: usize| j != handle.task ==> final(self).entries(j) == old(self).entries(j),
            old(self).live(handle.task) ==> final(self).phase(handle.task) is Queued,
    {
        self.wake_by_ref(&handle);
    }

    /// One turn of the scheduling loop.
    ///
    /// Pop the front entry, if any. A completed task's entry is dropped. A
    /// live task is queried exactly once with a fresh notifier; `Ready`
    /// completes it, `Pending` leaves it as the notifier decides: the loop
    /// itself enqueues nothing beyond the signals the query recorded, so a
    /// query that recorded none parks the task, and one that recorded some
    /// keeps it queued for the same processing pass.
    pub fn step(&mut self) -> (outcome: StepOutcome)
        requires
            old(self).wf(),
        ensures
            final(self).wf(),
            final(self).task_count() == old(self).task_count(),
            (outcome is Idle) <==> old(self).ready@.len() == 0,
            outcome is Idle ==> final(self).ready@ == old(self).ready@ && final(self).tasks@ == old(self).tasks@,
            outcome matches StepOutcome::Skipped { task } ==> {
                &&& old(self).ready@.len() > 0 && task == old(self).ready@[0]
                &&& old(self).tasks@[task as int].done
                &&& final(self).tasks@ == old(self).tasks@
                &&& final(self).ready@ == old(self).ready@.subrange(1, old(self).ready@.len() as int)
                &&& final(self).entries(task) + 1 == old(self).entries(task)
                &&& forall|j: usize| j != task ==> final(self).entries(j) == old(self).entries(j)
            },
            outcome matches StepOutcome::Queried { task, fired, completed } ==> {
                &&& old(self).ready@.len() > 0 && task == old(self).ready@[0]
                &&& old(self).live(task)
                &&& final(self).queries(task) == old(self).queries(task) + 1
                &&& final(self).live(task) == !completed
                &&& forall|j: int| 0 <= j < old(self).tasks@.len() && j != task as int
                    ==> final(self).tasks@[j] == old(self).tasks@[j]
                &&& final(self).ready@ == old(self).ready@.subrange(1, old(self).ready@.len() as int)
                    + Seq::new(fired as nat, |i: int| task)
                &&& final(self).entries(task) + 1 == old(self).entries(task) + fired
                &&& forall|j: usize| j != task ==> final(self).entries(j) == old(self).entries(j)
                &&& completed ==> final(self).phase(task) is Completed
                &&& !completed ==> ((final(self).phase(task) is Queued) <==> old(self).entries(task)
                    + fired > 1)
            },
    {
        let popped = self.ready.pop_front();
        match popped {
            None => StepOutcome::Idle,
            Some(id) => {
                proof {
                    assert(old(self).ready@[0] < old(self).tasks@.len());
                    lemma_entries_for_tail(old(self).ready@, id);
                    assert forall|j: usize| j != id implies entries_for(self.ready@, j)
                        == entries_for(old(self).ready@, j) by {
                        lemma_entries_for_tail(old(self).ready@, j);
                    }
                }
                if self.tasks[id].done {
                    StepOutcome::Skipped { task: id }
                } else {
                    let ghost tail = self.ready@;
                    let mut task = self.tasks.remove(id);
                    let mut notifier = Notifier::new(id);
                    let res = task.computation.query(&mut notifier);
                    task.queries = Ghost(task.queries@ + 1);
                    let completed = match res {
                        QueryResult::Ready => true,
                        QueryResult::Pending => false,
                    };
                    if completed {
                        task.done = true;
                    }
                    let ghost placed = task;
                    self.tasks.insert(id, task);
                    proof {
                        assert(self.tasks@ =~= old(self).tasks@.update(id as int, placed));
                    }
                    let fired = notifier.fired;
                    let ghost tasks_after = self.tasks@;
                    let mut i: u64 = 0;
                    while i < fired
                        invariant
                            i <= fired,
                            self.ready@ == tail + Seq::new(i as nat, |k: int| id),
                            self.tasks@ == tasks_after,
                        decreases fired - i,
                    {
                        self.ready.push(id);
                        proof {
                            assert(self.ready@ =~= tail + Seq::new((i + 1) as nat, |k: int| id));
                        }
                        i = i + 1;
                    }
                    proof {
                        let fresh = Seq::new(fired as nat, |k: int| id);
                        lemma_entries_for_concat(tail, fresh, id);
                        lemma_entries_for_repeat(fired as nat, id, id);
                        assert forall|j: usize| j != id implies entries_for(self.ready@, j)
                            == entries_for(old(self).ready@, j) by {
                            lemma_entries_for_concat(tail, fresh, j);
                            lemma_entries_for_repeat(fired as nat, id, j);
                            lemma_entries_for_tail(old(self).ready@, j);
                        }
                        assert forall|i2: int|
                            0 <= i2 < self.ready@.len() implies (#[trigger] self.ready@[i2])
                            < self.tasks@.len() by {
                            if i2 < tail.len() {
                                assert(tail[i2] == old(self).ready@[i2 + 1]);
                            }
                        }
                    }
                    StepOutcome::Queried { task: id, fired, completed }
                }
            },
        }
    }

    /// Run the scheduling loop for at most `budget` turns, returning whether
    /// the ready queue was drained.
    ///
    /// The loop owes real work for its budget: an empty queue drains at
    /// once; a positive budget gets the front entry's task queried if it is
    /// live; a budget covering the initial queue length gets every initially
    /// waiting live task queried at least once, and drains the queue
    /// outright if those entries all named completed tasks. The same holds
    /// whenever the call reports the queue drained. Queries only accumulate,
    /// completion is final, and a completed task is never touched again. A
    /// task that starts out parked stays parked and untouched: the loop
    /// re-queries only tasks with queue entries, and only a wake delivery
    /// makes new ones for a parked task.
    pub fn process(&mut self, budget: u64) -> (drained: bool)
        requires
            old(self).wf(),
        ensures
            final(self).wf(),
            final(self).task_count() == old(self).task_count(),
            drained <==> final(self).ready@.len() == 0,
            old(self).ready@.len() == 0 ==> drained,
            forall|id: usize| (id as nat) < old(self).task_count()
                ==> final(self).queries(id) >= old(self).queries(id),
            forall|id: usize| (id as nat) < old(self).task_count() && !old(self).live(id)
                ==> final(self).tasks@[id as int] == old(self).tasks@[id as int],
            forall|id: usize| (id as nat) < old(self).task_count() && old(self).live(id)
                && !final(self).live(id) ==> final(self).queries(id) > old(self).queries(id),
            forall|m: int|
                0 <= m < budget && m < old(self).ready@.len() && old(self).live(
                    #[trigger] old(self).ready@[m],
                ) ==> final(self).queries(old(self).ready@[m]) > old(self).queries(
                    old(self).ready@[m],
                ),
            budget as int >= old(self).ready@.len() as int || drained ==> forall|i: int|
                0 <= i < old(self).ready@.len() && old(self).live(#[trigger] old(self).ready@[i])
                    ==> final(self).queries(old(self).ready@[i]) > old(self).queries(
                    old(self).ready@[i],
                ),
            budget as int >= old(self).ready@.len() as int && (forall|i: int|
                0 <= i < old(self).ready@.len() ==> !old(self).live(
                    #[trigger] old(self).ready@[i],
                )) ==> drained,
            forall|id: usize| (id as nat) < old(self).task_count() && old(self).phase(id) is Parked
                ==> final(self).phase(id) is Parked && final(self).tasks@[id as int] == old(
                self,
            ).tasks@[id as int],
    {
        let mut remaining = budget;
        let ghost mut seen: int = 0;
        loop
            invariant
                self.wf(),
                remaining <= budget,
                self.task_count() == old(self).task_count(),
                forall|id: usize| (id as nat) < old(self).task_count()
                    ==> self.queries(id) >= old(self).queries(id),
                forall|id: usize| (id as nat) < old(self).task_count() && !old(self).live(id)
                    ==> self.tasks@[id as int] == old(self).tasks@[id as int],
                forall|id: usize| (id as nat) < old(self).task_count() && old(self).live(id)
                    && !self.live(id) ==> self.queries(id) > old(self).queries(id),
                0 <= seen <= old(self).ready@.len() as int,
                seen >= budget - remaining || seen == old(self).ready@.len() as int,
                self.ready@.len() as int >= old(self).ready@.len() as int - seen,
                forall|m: int| 0 <= m < old(self).ready@.len() as int - seen
                    ==> self.ready@[m] == old(self).ready@[m + seen],
                forall|m: int| 0 <= m < seen && old(self).live(#[trigger] old(self).ready@[m])
                    ==> self.queries(old(self).ready@[m]) > old(self).queries(old(self).ready@[m]),
                old(self).ready@.len() == 0 ==> self.ready@.len() == 0,
                (forall|i: int| 0 <= i < old(self).ready@.len() ==> !old(self).live(
                    #[trigger] old(self).ready@[i],
                )) ==> self.ready@.len() as int + seen == old(self).ready@.len() as int && (
                forall|m: int| 0 <= m < self.ready@.len() ==> !self.live(
                    #[trigger] self.ready@[m],
                )),
                forall|id: usize| (id as nat) < old(self).task_count() && old(self).phase(
                    id,
                ) is Parked ==> self.phase(id) is Parked && self.tasks@[id as int] == old(
                    self,
                ).tasks@[id as int],
            decreases remaining,
        {
            if remaining == 0 {
                let empty = self.ready.is_empty();
                proof {
                    if budget as int >= old(self).ready@.len() as int {
                        assert(seen == old(self).ready@.len() as int);
                    }
                    if empty {
                        assert(seen == old(self).ready@.len() as int);
                    }
                }
                return empty;
            }
            let ghost before = *self;
            let ghost seen_before = seen;
            let outcome = self.step();
            match outcome {
                StepOutcome::Idle => {
                    proof {
                        assert(seen == old(self).ready@.len() as int);
                    }
                    return true;
                },
                _ => {},
            }
            proof {
                let len0 = old(self).ready@.len() as int;
                assert(before.ready@.len() > 0);
                if seen < len0 {
                    seen = seen + 1;
                }
                assert forall|m: int| 0 <= m < len0 - seen implies self.ready@[m] == old(
                    self,
                ).ready@[m + seen] by {
                    assert(before.ready@[m + 1] == old(self).ready@[m + 1 + seen_before]);
                }
                assert forall|m: int|
                    0 <= m < seen && old(self).live(old(self).ready@[m]) implies self.queries(
                    old(self).ready@[m],
                ) > old(self).queries(old(self).ready@[m]) by {
                    let id = old(self).ready@[m];
                    if m < seen_before {
                        assert(before.queries(id) > old(self).queries(id));
                        match outcome {
                            StepOutcome::Queried { task, fired, completed } => {
                                if id != task {
                                    assert(self.tasks@[id as int] == before.tasks@[id as int]);
                                }
                            },
                            _ => {},
                        }
                    } else {
                        assert(id == before.ready@[0]);
                        match outcome {
                            StepOutcome::Queried { task, fired, completed } => {
                                assert(task == id);
                                assert(self.queries(id) == before.queries(id) + 1);
                                assert(before.queries(id) >= old(self).queries(id));
                            },
                            StepOutcome::Skipped { task } => {
                                assert(task == id);
                                assert(!before.live(id));
                                assert(before.queries(id) > old(self).queries(id));
                                assert(self.queries(id) == before.queries(id));
                            },
                            StepOutcome::Idle => {},
                        }
                    }
                }
                if forall|i: int| 0 <= i < old(self).ready@.len() ==> !old(self).live(
                    #[trigger] old(self).ready@[i],
                ) {
                    match outcome {
                        StepOutcome::Queried { task, fired, completed } => {
                            assert(!before.live(before.ready@[0]));
                            assert(false);
                        },
                        _ => {},
                    }
                    assert(self.ready@.len() as int + seen == len0);
                    assert forall|m: int| 0 <= m < self.ready@.len() implies !self.live(
                        #[trigger] self.ready@[m],
                    ) by {
                        assert(self.ready@[m] == before.ready@[m + 1]);
                        assert(!before.live(before.ready@[m + 1]));
                    }
                }
                if !(outcome is Idle) {
                    let popped = before.ready@[0];
                    lemma_entries_for_index(before.ready@, 0);
                    assert forall|id: usize| (id as nat) < old(self).task_count() && old(
                        self,
                    ).phase(id) is Parked implies self.phase(id) is Parked && self.tasks@[id as int]
                        == old(self).tasks@[id as int] by {
                        assert(entries_for(before.ready@, popped) > 0);
                        assert(entries_for(before.ready@, id) == 0);
                        assert(self.entries(id) == before.entries(id));
                        assert(self.tasks@[id as int] == before.tasks@[id as int]);
                    }
                }
            }
            remaining = remaining - 1;
        }
    }
}

impl<C: Computation> Default for Runtime<C> {
    /// A fresh scheduler with no task and an empty ready queue.
    fn default() -> (rt: Self)
        ensures
            rt.wf(),
            rt.task_count() == 0,
            rt.ready@ == Seq::<usize>::empty(),
    {
        Runtime { tasks: Vec::new(), ready: ReadyQueue::new() }
    }
}

} // verus!
