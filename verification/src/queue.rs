//! The ready queue: a first-in-first-out queue of task ids awaiting a query.
//!
//! The scheduler's contracts count queue entries per task, so this module
//! also defines `entries_for` and the lemmas that track how entries move
//! when the queue is popped, pushed, or extended.

use std::collections::VecDeque;
use vstd::prelude::*;

verus! {

/// How many entries of the queue snapshot `q` refer to task `id`.
pub open spec fn entries_for(q: Seq<usize>, id: usize) -> nat
    decreases q.len(),
{
    if q.len() == 0 {
        0
    } else {
        entries_for(q.drop_last(), id) + (if q.last() == id {
            1nat
        } else {
            0nat
        })
    }
}

/// Appending one entry raises the count for its task by exactly one and
/// leaves every other task's count unchanged.
pub proof fn lemma_entries_for_push(q: Seq<usize>, x: usize, id: usize)
    ensures
        entries_for(q.push(x), id) == entries_for(q, id) + (if x == id {
            1nat
        } else {
            0nat
        }),
{
    assert(q.push(x).drop_last() =~= q);
}

/// Entry counts add up across concatenation.
pub proof fn lemma_entries_for_concat(a: Seq<usize>, b: Seq<usize>, id: usize)
    ensures
        entries_for(a + b, id) == entries_for(a, id) + entries_for(b, id),
    decreases b.len(),
{
    if b.len() == 0 {
        assert(a + b =~= a);
    } else {
        assert((a + b).drop_last() =~= a + b.drop_last());
        lemma_entries_for_concat(a, b.drop_last(), id);
    }
}

/// A run of `k` equal entries counts `k` for that task and zero for others.
pub proof fn lemma_entries_for_repeat(k: nat, t: usize, id: usize)
    ensures
        entries_for(Seq::new(k, |i: int| t), id) == if t == id {
            k
        } else {
            0nat
        },
    decreases k,
{
    let s = Seq::new(k, |i: int| t);
    if k > 0 {
        assert(s.drop_last() =~= Seq::new((k - 1) as nat, |i: int| t));
        lemma_entries_for_repeat((k - 1) as nat, t, id);
    }
}

/// A task that appears in the queue has at least one entry counted for it.
pub proof fn lemma_entries_for_index(q: Seq<usize>, i: int)
    requires
        0 <= i < q.len(),
    ensures
        entries_for(q, q[i]) > 0,
    decreases q.len(),
{
    if i < q.len() - 1 {
        assert(q.drop_last()[i] == q[i]);
        lemma_entries_for_index(q.drop_last(), i);
    }
}

/// Popping the front entry lowers the count for the task it named by one.
pub proof fn lemma_entries_for_tail(q: Seq<usize>, id: usize)
    requires
        q.len() > 0,
    ensures
        entries_for(q, id) == entries_for(q.subrange(1, q.len() as int), id) + (if q[0] == id {
            1nat
        } else {
            0nat
        }),
{
    let head = seq![q[0]];
    let tail = q.subrange(1, q.len() as int);
    assert(q =~= head + tail);
    lemma_entries_for_concat(head, tail, id);
    assert(head.drop_last() =~= Seq::<usize>::empty());
    assert(entries_for(Seq::<usize>::empty(), id) == 0);
}

/// The queue of tasks that have asked to be queried.
///
/// Entries are task ids; one task may appear several times, once for each
/// wake signal delivered on its behalf. Producers append at the back, the
/// scheduling loop consumes from the front, so delivery is first-in
/// first-out.
pub struct ReadyQueue {
    items: VecDeque<usize>,
}

impl View for ReadyQueue {
    type V = Seq<usize>;

    closed spec fn view(&self) -> Seq<usize> {
        self.items@
    }
}

impl ReadyQueue {
    /// An empty queue.
    pub fn new() -> (q: ReadyQueue)
        ensures
            q@ == Seq::<usize>::empty(),
    {
        ReadyQueue { items: VecDeque::new() }
    }

    /// Append one entry at the back.
    pub fn push(&mut self, id: usize)
        ensures
            final(self)@ == old(self)@.push(id),
    {
        self.items.push_back(id);
    }

    /// Take the front entry, if any.
    pub fn pop_front(&mut self) -> (r: Option<usize>)
        ensures
            old(self)@.len() == 0 ==> r is None && final(self)@ == old(self)@,
            old(self)@.len() > 0 ==> r == Some(old(self)@[0]) && final(self)@ == old(self)@.subrange(
                1,
                old(self)@.len() as int,
            ),
    {
        self.items.pop_front()
    }

    /// How many entries are waiting.
    pub fn len(&self) -> (n: usize)
        ensures
            n == self@.len(),
    {
        self.items.len()
    }

    /// Whether no entry is waiting.
    pub fn is_empty(&self) -> (b: bool)
        ensures
            b <==> self@.len() == 0,
    {
        self.items.len() == 0
    }
}

} // verus!
