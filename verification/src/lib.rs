//! A minimal cooperative task scheduler for suspendable computations.
//!
//! The scheduler holds a collection of suspended computations, lets each one
//! register interest in being resumed through a notification handle, and
//! re-queries only the computations that have signalled readiness, driven by
//! a single ready queue.
//!
//! The pieces, leaves first:
//! - [`notify`]: the notification handle (`Notifier`) a computation uses to
//!   ask "re-check me", and the `Wakeable` capability behind it.
//! - [`queue`]: the ready queue of task ids awaiting their next query, and
//!   the entry-counting function the scheduling contracts are stated over.
//! - [`runtime`]: the task records and the scheduling loop itself.
//! - [`computations`]: a small suspendable computation for exercising the
//!   scheduler end to end.
//! - [`pinned`]: records that keep a reference back to their own contents,
//!   modelled as an owned snapshot.

pub mod computations;
pub mod notify;
pub mod pinned;
pub mod queue;
pub mod runtime;
