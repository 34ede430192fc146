//! One worker: the receive/send cycle of a single exchange context.

use crate::event::{Action, Completion, Fault, OpKind, Outcome};
use vstd::prelude::*;

verus! {

/// The two phases of a worker's cycle.
#[derive(Clone, Copy, Debug, PartialEq, Eq, Structural)]
pub enum WorkerState {
    /// A receive is in flight. This is where every worker starts.
    AwaitingRequest,
    /// A request has arrived and the send of its reply is in flight.
    SendingReply,
}

impl WorkerState {
    /// The operation that a running worker in this phase has in flight.
    pub open spec fn pending(self) -> OpKind {
        match self {
            WorkerState::AwaitingRequest => OpKind::Receive,
            WorkerState::SendingReply => OpKind::Send,
        }
    }

    /// The other phase.
    pub open spec fn flipped(self) -> WorkerState {
        match self {
            WorkerState::AwaitingRequest => WorkerState::SendingReply,
            WorkerState::SendingReply => WorkerState::AwaitingRequest,
        }
    }
}

/// What follows a completion `c` on a worker in phase `state`.
///
/// Any failure is fatal, whatever failed. A timer completion is a fault of its
/// own. Otherwise the completion must be that of the operation in flight: a
/// request that arrived is answered, a reply that went out is followed by the
/// next receive.
pub open spec fn decide(state: WorkerState, c: Completion) -> Action {
    if c.outcome is Failure {
        Action::Abort(Fault::OperationFailed { kind: c.kind })
    } else if c.kind is Sleep {
        Action::Abort(Fault::UnexpectedSleep)
    } else if c.kind != state.pending() {
        Action::Abort(Fault::OutOfTurn { pending: state.pending(), completed: c.kind })
    } else if c.kind is Receive {
        Action::SendReply
    } else {
        Action::ReceiveRequest
    }
}

/// The phase of the worker after completion `c`: it moves on exactly when the
/// completion is acted upon, and stays where it was on a fault.
pub open spec fn successor(state: WorkerState, c: Completion) -> WorkerState {
    if decide(state, c) is Abort {
        state
    } else {
        state.flipped()
    }
}

/// The transition function of a worker: the next phase and the action that
/// `c` calls for.
pub fn transition(state: WorkerState, c: Completion) -> (next: (WorkerState, Action))
    ensures
        next.0 == successor(state, c),
        next.1 == decide(state, c),
{
    match (c.outcome, c.kind, state) {
        (Outcome::Failure, kind, _) => (state, Action::Abort(Fault::OperationFailed { kind })),
        (Outcome::Success, OpKind::Sleep, _) => (state, Action::Abort(Fault::UnexpectedSleep)),
        (Outcome::Success, OpKind::Receive, WorkerState::AwaitingRequest) => (
            WorkerState::SendingReply,
            Action::SendReply,
        ),
        (Outcome::Success, OpKind::Send, WorkerState::SendingReply) => (
            WorkerState::AwaitingRequest,
            Action::ReceiveRequest,
        ),
        (Outcome::Success, OpKind::Receive, WorkerState::SendingReply) => (
            state,
            Action::Abort(Fault::OutOfTurn { pending: OpKind::Send, completed: OpKind::Receive }),
        ),
        (Outcome::Success, OpKind::Send, WorkerState::AwaitingRequest) => (
            state,
            Action::Abort(Fault::OutOfTurn { pending: OpKind::Receive, completed: OpKind::Send }),
        ),
    }
}

/// A worker: one exchange context paired with one operation handle. All that
/// the cycle needs to remember of it is its phase.
#[derive(Clone, Copy, Debug)]
pub struct Worker {
    state: WorkerState,
}

impl View for Worker {
    type V = WorkerState;

    closed spec fn view(&self) -> WorkerState {
        self.state
    }
}

impl Worker {
    /// A fresh worker, about to wait for its first request.
    pub fn new() -> (w: Worker)
        ensures
            w@ == WorkerState::AwaitingRequest,
    {
        Worker { state: WorkerState::AwaitingRequest }
    }

    /// The phase the worker is in.
    pub fn state(&self) -> (s: WorkerState)
        ensures
            s == self@,
    {
        self.state
    }

    /// The operation that the worker has in flight once it is running.
    pub fn pending(&self) -> (kind: OpKind)
        ensures
            kind == self@.pending(),
    {
        match self.state {
            WorkerState::AwaitingRequest => OpKind::Receive,
            WorkerState::SendingReply => OpKind::Send,
        }
    }

    /// Takes the completion `c` of this worker's operation, moves the worker to
    /// its next phase and returns the one action to perform.
    pub fn on_completion(&mut self, c: Completion) -> (action: Action)
        ensures
            action == decide(old(self)@, c),
            final(self)@ == successor(old(self)@, c),
    {
        let (next, action) = transition(self.state, c);
        self.state = next;
        action
    }
}

/// The operations, in order, whose completions a worker starting in phase
/// `state` acts upon when it is notified of `cs` one after another. A
/// completion that the worker answers with a fault is not among them.
pub open spec fn completed(state: WorkerState, cs: Seq<Completion>) -> Seq<OpKind>
    decreases cs.len(),
{
    if cs.len() == 0 {
        Seq::empty()
    } else if decide(state, cs[0]) is Abort {
        completed(state, cs.drop_first())
    } else {
        seq![cs[0].kind] + completed(successor(state, cs[0]), cs.drop_first())
    }
}

/// The phase of a worker that started in `state` after the notifications `cs`.
pub open spec fn settled(state: WorkerState, cs: Seq<Completion>) -> WorkerState
    decreases cs.len(),
{
    if cs.len() == 0 {
        state
    } else {
        settled(successor(state, cs[0]), cs.drop_first())
    }
}

/// Strict alternation. Whatever notifications reach a worker, the operations
/// it completes are receive, send, receive, send and so on from the operation
/// of its starting phase: a fresh worker starts with a receive, and no two
/// receives and no two sends ever follow each other. The worker ends in its
/// starting phase after an even number of completed operations and in the
/// other phase after an odd number.
pub proof fn lemma_strict_alternation(state: WorkerState, cs: Seq<Completion>)
    ensures
        forall|i: int|
            0 <= i < completed(state, cs).len() ==> #[trigger] completed(state, cs)[i] == (if i % 2
                == 0 {
                state.pending()
            } else {
                state.flipped().pending()
            }),
        forall|i: int|
            0 <= i < completed(state, cs).len() - 1 ==> #[trigger] completed(state, cs)[i]
                != completed(state, cs)[i + 1],
        forall|i: int|
            0 <= i < completed(state, cs).len() ==> #[trigger] completed(state, cs)[i]
                != OpKind::Sleep,
        settled(state, cs) == (if completed(state, cs).len() % 2 == 0 {
            state
        } else {
            state.flipped()
        }),
    decreases cs.len(),
{
    if cs.len() > 0 {
        let rest = cs.drop_first();
        if decide(state, cs[0]) is Abort {
            lemma_strict_alternation(state, rest);
        } else {
            let next = successor(state, cs[0]);
            lemma_strict_alternation(next, rest);
            let tail = completed(next, rest);
            let ops = completed(state, cs);
            assert(ops == seq![cs[0].kind] + tail);
            assert(ops[0] == state.pending());
            assert forall|i: int| 1 <= i < ops.len() implies ops[i] == tail[i - 1] by {}
            assert forall|i: int| 0 <= i < ops.len() implies #[trigger] ops[i] == (if i % 2 == 0 {
                state.pending()
            } else {
                state.flipped().pending()
            }) by {
                if i > 0 {
                    assert(ops[i] == tail[i - 1]);
                }
            }
        }
    }
}

} // verus!
