//! A bounded pool of request/reply workers, driven entirely by completion
//! notifications.
//!
//! Each worker pairs one exchange context with one reusable asynchronous
//! operation handle and cycles through two phases: it waits for a request,
//! then sends the reply, then waits again. A fixed number of workers share one
//! listening socket, so the pool size caps how many exchanges are in flight.
//!
//! This crate holds the decisions of that design and none of its I/O. A driver
//! performs the transport operations and reports what happened; the pool says
//! what to do next:
//!
//! * [`worker`] is the two-phase cycle of a single worker;
//! * [`pool`] sequences startup (build every worker, then listen, then issue
//!   the first receives) and dispatches completions to workers;
//! * [`load`] counts the requests in flight;
//! * [`trace`] states what holds of every sequence of events;
//! * [`payload`] fixes the bytes on the wire.

pub mod event;
pub mod load;
pub mod payload;
pub mod pool;
pub mod trace;
pub mod worker;
