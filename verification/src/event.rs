//! The vocabulary shared by workers, the pool and the driver: what the
//! transport reports, and what the driver is told to do about it.

use vstd::prelude::*;

verus! {

/// The kind of asynchronous operation that an operation handle can carry.
#[derive(Clone, Copy, Debug, PartialEq, Eq, Structural)]
pub enum OpKind {
    /// Waiting for a request to arrive.
    Receive,
    /// Sending a reply.
    Send,
    /// A timer. This workload never starts one.
    Sleep,
}

/// How an operation, or a step of startup, ended.
#[derive(Clone, Copy, Debug, PartialEq, Eq, Structural)]
pub enum Outcome {
    Success,
    Failure,
}

/// A completion notification: one operation on one worker has finished.
#[derive(Clone, Copy, Debug, PartialEq, Eq, Structural)]
pub struct Completion {
    pub kind: OpKind,
    pub outcome: Outcome,
}

/// Why the server must stop. There is no retry and no recovery: every fault is
/// fatal to the whole process.
#[derive(Clone, Copy, Debug, PartialEq, Eq, Structural)]
pub enum Fault {
    /// An operation completed with a failure.
    OperationFailed { kind: OpKind },
    /// A timer completed, although no worker ever starts one.
    UnexpectedSleep,
    /// An operation completed that was not the one in flight.
    OutOfTurn { pending: OpKind, completed: OpKind },
    /// A completion was reported for a worker that has nothing in flight.
    NothingInFlight,
}

/// What the driver must do after a completion. Exactly one of these follows
/// every completion, so a running worker always has exactly one operation in
/// flight.
#[derive(Clone, Copy, Debug, PartialEq, Eq, Structural)]
pub enum Action {
    /// A request has arrived: start sending the reply on the same worker.
    SendReply,
    /// The reply has gone out: start the next receive on the same worker.
    ReceiveRequest,
    /// Stop the process.
    Abort(Fault),
}

impl Completion {
    /// The notification for an operation of kind `kind` that succeeded.
    pub fn success(kind: OpKind) -> (c: Completion)
        ensures
            c == (Completion { kind, outcome: Outcome::Success }),
    {
        Completion { kind, outcome: Outcome::Success }
    }

    /// The notification for an operation of kind `kind` that failed.
    pub fn failure(kind: OpKind) -> (c: Completion)
        ensures
            c == (Completion { kind, outcome: Outcome::Failure }),
    {
        Completion { kind, outcome: Outcome::Failure }
    }
}

} // verus!
