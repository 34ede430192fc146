use reply_pool::event::{Action, Completion, Fault, OpKind, Outcome};
use reply_pool::worker::{transition, Worker, WorkerState};

fn ok(kind: OpKind) -> Completion {
    Completion { kind, outcome: Outcome::Success }
}

fn failed(kind: OpKind) -> Completion {
    Completion { kind, outcome: Outcome::Failure }
}

#[test]
fn fresh_worker_awaits_a_request() {
    let w = Worker::new();
    assert_eq!(w.state(), WorkerState::AwaitingRequest);
    assert_eq!(w.pending(), OpKind::Receive);
}

#[test]
fn completion_constructors_fill_both_fields() {
    assert_eq!(Completion::success(OpKind::Send), ok(OpKind::Send));
    assert_eq!(Completion::failure(OpKind::Receive), failed(OpKind::Receive));
    assert_ne!(Completion::success(OpKind::Send), Completion::failure(OpKind::Send));
}

#[test]
fn request_is_answered_with_a_reply() {
    assert_eq!(
        transition(WorkerState::AwaitingRequest, ok(OpKind::Receive)),
        (WorkerState::SendingReply, Action::SendReply)
    );
}

#[test]
fn sent_reply_is_followed_by_the_next_receive() {
    assert_eq!(
        transition(WorkerState::SendingReply, ok(OpKind::Send)),
        (WorkerState::AwaitingRequest, Action::ReceiveRequest)
    );
}

#[test]
fn any_failure_is_fatal_in_either_phase() {
    for state in [WorkerState::AwaitingRequest, WorkerState::SendingReply] {
        for kind in [OpKind::Receive, OpKind::Send, OpKind::Sleep] {
            assert_eq!(
                transition(state, failed(kind)),
                (state, Action::Abort(Fault::OperationFailed { kind }))
            );
        }
    }
}

#[test]
fn timer_completion_is_a_fault() {
    for state in [WorkerState::AwaitingRequest, WorkerState::SendingReply] {
        assert_eq!(
            transition(state, ok(OpKind::Sleep)),
            (state, Action::Abort(Fault::UnexpectedSleep))
        );
    }
}

#[test]
fn completion_out_of_turn_is_a_fault() {
    assert_eq!(
        transition(WorkerState::AwaitingRequest, ok(OpKind::Send)),
        (
            WorkerState::AwaitingRequest,
            Action::Abort(Fault::OutOfTurn { pending: OpKind::Receive, completed: OpKind::Send })
        )
    );
    assert_eq!(
        transition(WorkerState::SendingReply, ok(OpKind::Receive)),
        (
            WorkerState::SendingReply,
            Action::Abort(Fault::OutOfTurn { pending: OpKind::Send, completed: OpKind::Receive })
        )
    );
}

#[test]
fn worker_alternates_receive_and_send() {
    let mut w = Worker::new();
    for round in 0..1000 {
        assert_eq!(w.pending(), OpKind::Receive, "round {}", round);
        assert_eq!(w.on_completion(ok(OpKind::Receive)), Action::SendReply);
        assert_eq!(w.state(), WorkerState::SendingReply);
        assert_eq!(w.pending(), OpKind::Send);
        assert_eq!(w.on_completion(ok(OpKind::Send)), Action::ReceiveRequest);
        assert_eq!(w.state(), WorkerState::AwaitingRequest);
    }
}

#[test]
fn worker_never_completes_the_same_operation_twice_in_a_row() {
    // Feed every kind of successful completion in a fixed, repeating pattern
    // and keep the ones that the worker acts upon.
    let pattern = [
        OpKind::Send,
        OpKind::Receive,
        OpKind::Receive,
        OpKind::Sleep,
        OpKind::Send,
        OpKind::Send,
        OpKind::Receive,
    ];
    let mut w = Worker::new();
    let mut acted: Vec<OpKind> = Vec::new();
    for i in 0..70 {
        let kind = pattern[i % pattern.len()];
        match w.on_completion(ok(kind)) {
            Action::Abort(_) => {}
            _ => acted.push(kind),
        }
    }
    assert!(acted.len() >= 20);
    for (i, kind) in acted.iter().enumerate() {
        let expected = if i % 2 == 0 { OpKind::Receive } else { OpKind::Send };
        assert_eq!(*kind, expected, "position {}", i);
    }
}

#[test]
fn fault_leaves_the_worker_where_it_was() {
    let mut w = Worker::new();
    assert_eq!(w.on_completion(ok(OpKind::Receive)), Action::SendReply);
    assert_eq!(
        w.on_completion(failed(OpKind::Send)),
        Action::Abort(Fault::OperationFailed { kind: OpKind::Send })
    );
    assert_eq!(w.state(), WorkerState::SendingReply);
    assert_eq!(w.on_completion(ok(OpKind::Sleep)), Action::Abort(Fault::UnexpectedSleep));
    assert_eq!(w.state(), WorkerState::SendingReply);
}
