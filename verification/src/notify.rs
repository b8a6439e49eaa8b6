//! The notification handle a suspended computation uses to ask "re-check me".
//!
//! A `Notifier` is bound to one task. While a computation is being queried it
//! holds the notifier by mutable reference and may record any number of wake
//! signals on it; the scheduler reads the recorded count back afterwards and
//! turns each signal into one ready-queue entry. A computation may also keep
//! a fresh handle (`clone_handle`) to be delivered later through the
//! scheduler, from outside any query.

use vstd::prelude::*;

verus! {

/// The capability to record a "re-check me" signal.
///
/// Recording a signal any number of times is always safe: it can at most
/// cause duplicate (harmless) re-queries of the owning task, and the count
/// saturates rather than overflowing.
pub trait Wakeable: Sized {
    /// How many wake signals this value has recorded and not yet delivered.
    spec fn signals(&self) -> u64;

    /// Record one wake signal.
    fn wake_by_ref(&mut self)
        ensures
            final(self).signals() == if old(self).signals() == u64::MAX {
                u64::MAX
            } else {
                (old(self).signals() + 1) as u64
            },
    ;
}

/// A notification handle bound to one task.
///
/// `task` names the task to re-query; `fired` counts the wake signals
/// recorded on this handle and not yet drained into the ready queue.
pub struct Notifier {
    pub task: usize,
    pub fired: u64,
}

impl Notifier {
    /// A fresh handle for the given task, with no signal recorded yet.
    pub fn new(task: usize) -> (n: Notifier)
        ensures
            n.task == task,
            n.fired == 0,
    {
        Notifier { task, fired: 0 }
    }

    /// A fresh handle for the same task.
    ///
    /// The clone starts with no recorded signal of its own; signals already
    /// recorded on `self` stay with `self`.
    pub fn clone_handle(&self) -> (n: Notifier)
        ensures
            n.task == self.task,
            n.fired == 0,
    {
        Notifier { task: self.task, fired: 0 }
    }
}

impl Wakeable for Notifier {
    open spec fn signals(&self) -> u64 {
        self.fired
    }

    /// Record one wake signal; the handle stays bound to the same task.
    fn wake_by_ref(&mut self)
        ensures
            final(self).task == old(self).task,
    {
        if self.fired < u64::MAX {
            self.fired = self.fired + 1;
        }
    }
}

} // verus!
