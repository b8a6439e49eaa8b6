//! A small suspendable computation for exercising the scheduler end to end.

use vstd::prelude::*;

use crate::notify::Notifier;
use crate::notify::Wakeable;
use crate::runtime::Computation;
use crate::runtime::QueryResult;

verus! {

/// A computation that produces its number only after a fixed count of
/// queries.
///
/// Each query before the `give_after_tries`-th reports `Pending`, bumps
/// `current_tries`, and records one wake signal so the task is re-queried in
/// the same processing pass; the `give_after_tries`-th query reports `Ready`.
/// With `give_after_tries` of zero or one the very first query is `Ready`.
pub struct GiveNumber {
    /// The query on which the computation reports `Ready`.
    pub give_after_tries: u32,
    /// How many queries have reported `Pending` so far.
    pub current_tries: u32,
}

impl GiveNumber {
    /// A computation that will be ready on the `give_after_tries`-th query.
    pub fn new(give_after_tries: u32) -> (g: GiveNumber)
        ensures
            g.give_after_tries == give_after_tries,
            g.current_tries == 0,
    {
        GiveNumber { give_after_tries, current_tries: 0 }
    }
}

impl Computation for GiveNumber {
    /// `Pending` — with exactly one wake signal recorded — for every query
    /// that leaves `current_tries + 1` short of `give_after_tries`; `Ready`,
    /// touching nothing, otherwise.
    fn query(&mut self, notifier: &mut Notifier) -> (r: QueryResult)
        ensures
            (r is Pending) <==> old(self).give_after_tries > old(self).current_tries + 1,
            final(self).give_after_tries == old(self).give_after_tries,
            final(notifier).task == old(notifier).task,
            r is Ready ==> final(self).current_tries == old(self).current_tries
                && final(notifier).fired == old(notifier).fired,
            r is Pending ==> final(self).current_tries == old(self).current_tries + 1,
            r is Pending ==> final(notifier).fired == (if old(notifier).fired == u64::MAX {
                u64::MAX
            } else {
                (old(notifier).fired + 1) as u64
            }),
    {
        if self.give_after_tries >= 1 && self.give_after_tries - 1 > self.current_tries {
            self.current_tries = self.current_tries + 1;
            notifier.wake_by_ref();
            QueryResult::Pending
        } else {
            QueryResult::Ready
        }
    }
}

} // verus!
