use reply_pool::event::{Action, Completion, Fault, OpKind, Outcome};
use reply_pool::payload::{reply_payload, request_payload};
use reply_pool::pool::{SetupStep, WorkerPool};
use reply_pool::worker::WorkerState;

const RECEIVED: Completion = Completion { kind: OpKind::Receive, outcome: Outcome::Success };
const SENT: Completion = Completion { kind: OpKind::Send, outcome: Outcome::Success };

fn serving_pool(size: usize) -> WorkerPool {
    let mut pool = WorkerPool::new(size);
    while pool.next_step() != SetupStep::Serve {
        pool.record(Outcome::Success);
    }
    pool
}

#[test]
fn four_concurrent_requests_fill_a_pool_of_four() {
    let mut pool = serving_pool(4);
    assert_eq!(pool.available(), 4);
    // Four peers send at once; the requests land on the workers in any order.
    for (taken, worker) in [2usize, 0, 3, 1].into_iter().enumerate() {
        assert_eq!(pool.outstanding(), taken);
        assert_eq!(pool.on_completion(worker, RECEIVED), Action::SendReply);
        assert_eq!(pool.worker_state(worker), Some(WorkerState::SendingReply));
    }
    assert_eq!(pool.outstanding(), 4);
    assert_eq!(pool.available(), 0);
    assert_eq!(reply_payload(), b"Ferris".to_vec());

    // A fifth request finds no worker: on whichever worker it were reported,
    // it would not be taken up.
    for worker in 0..4 {
        let mut probe = pool.clone();
        assert_eq!(
            probe.on_completion(worker, RECEIVED),
            Action::Abort(Fault::OutOfTurn { pending: OpKind::Send, completed: OpKind::Receive })
        );
        assert_eq!(probe.outstanding(), 4);
    }

    // Once one of the four exchanges is over, its worker takes the fifth.
    assert_eq!(pool.on_completion(3, SENT), Action::ReceiveRequest);
    assert_eq!(pool.outstanding(), 3);
    assert_eq!(pool.available(), 1);
    assert_eq!(pool.on_completion(3, RECEIVED), Action::SendReply);
    assert_eq!(pool.outstanding(), 4);
    assert_eq!(pool.fault(), None);
}

#[test]
fn burst_of_pool_size_is_received_and_replied_once_each() {
    let size = 16;
    let mut pool = serving_pool(size);
    let before = pool.clone();
    let mut replies = 0;
    for worker in (0..size).rev() {
        if pool.on_completion(worker, RECEIVED) == Action::SendReply {
            replies += 1;
        }
    }
    assert_eq!(replies, size);
    assert_eq!(pool.outstanding(), size);
    let mut receives = 0;
    for worker in 0..size {
        if pool.on_completion(worker, SENT) == Action::ReceiveRequest {
            receives += 1;
        }
    }
    assert_eq!(receives, size);
    assert_eq!(pool.outstanding(), 0);
    assert_eq!(pool.available(), size);
    for worker in 0..size {
        assert_eq!(pool.worker_state(worker), before.worker_state(worker));
    }
    assert_eq!(pool.fault(), None);
}

#[test]
fn outstanding_never_exceeds_the_pool_size() {
    let size = 5;
    let mut pool = serving_pool(size);
    // A deterministic stream of completions that does not respect anything.
    let mut x: u32 = 12345;
    for _ in 0..2000 {
        x = x.wrapping_mul(1664525).wrapping_add(1013904223);
        let worker = (x >> 8) as usize % size;
        let completion = if (x >> 20) % 2 == 0 { RECEIVED } else { SENT };
        let mut probe = pool.clone();
        match probe.on_completion(worker, completion) {
            Action::Abort(_) => {}
            _ => pool = probe,
        }
        assert!(pool.outstanding() <= size);
        assert_eq!(pool.outstanding() + pool.available(), size);
        assert_eq!(pool.size(), size);
    }
}

#[test]
fn completion_touches_only_its_own_worker() {
    let mut pool = serving_pool(3);
    assert_eq!(pool.on_completion(1, RECEIVED), Action::SendReply);
    assert_eq!(pool.worker_state(0), Some(WorkerState::AwaitingRequest));
    assert_eq!(pool.worker_state(1), Some(WorkerState::SendingReply));
    assert_eq!(pool.worker_state(2), Some(WorkerState::AwaitingRequest));
}

#[test]
fn transport_failure_on_one_worker_stops_the_pool() {
    let mut pool = serving_pool(4);
    assert_eq!(pool.on_completion(0, RECEIVED), Action::SendReply);
    let failed = Completion { kind: OpKind::Send, outcome: Outcome::Failure };
    let fault = Fault::OperationFailed { kind: OpKind::Send };
    assert_eq!(pool.on_completion(0, failed), Action::Abort(fault));
    assert_eq!(pool.fault(), Some(fault));
    // Nothing is started any more, on any worker.
    assert_eq!(pool.on_completion(1, RECEIVED), Action::Abort(fault));
    assert_eq!(pool.on_completion(0, SENT), Action::Abort(fault));
    assert_eq!(pool.next_step(), SetupStep::Halt(fault));
    pool.record(Outcome::Success);
    assert_eq!(pool.next_step(), SetupStep::Halt(fault));
    assert_eq!(pool.worker_state(0), Some(WorkerState::SendingReply));
    assert_eq!(pool.worker_state(1), Some(WorkerState::AwaitingRequest));
    assert_eq!(pool.outstanding(), 1);
}

#[test]
fn receive_failure_names_the_receive() {
    let mut pool = serving_pool(2);
    let failed = Completion { kind: OpKind::Receive, outcome: Outcome::Failure };
    assert_eq!(
        pool.on_completion(1, failed),
        Action::Abort(Fault::OperationFailed { kind: OpKind::Receive })
    );
    assert_eq!(pool.fault(), Some(Fault::OperationFailed { kind: OpKind::Receive }));
}

#[test]
fn timer_completion_stops_the_pool() {
    let mut pool = serving_pool(2);
    let slept = Completion { kind: OpKind::Sleep, outcome: Outcome::Success };
    assert_eq!(pool.on_completion(0, slept), Action::Abort(Fault::UnexpectedSleep));
    assert_eq!(pool.fault(), Some(Fault::UnexpectedSleep));
    let timed_out = Completion { kind: OpKind::Sleep, outcome: Outcome::Failure };
    let mut pool = serving_pool(2);
    assert_eq!(
        pool.on_completion(0, timed_out),
        Action::Abort(Fault::OperationFailed { kind: OpKind::Sleep })
    );
}

#[test]
fn completion_for_an_unknown_worker_stops_the_pool() {
    let mut pool = serving_pool(2);
    assert_eq!(pool.on_completion(2, RECEIVED), Action::Abort(Fault::NothingInFlight));
    assert_eq!(pool.on_completion(usize::MAX, RECEIVED), Action::Abort(Fault::NothingInFlight));
    assert_eq!(pool.fault(), Some(Fault::NothingInFlight));
}

#[test]
fn clone_is_an_independent_pool_in_the_same_state() {
    let mut pool = serving_pool(3);
    assert_eq!(pool.on_completion(2, RECEIVED), Action::SendReply);
    let copy = pool.clone();
    assert_eq!(copy.size(), 3);
    assert_eq!(copy.built(), 3);
    assert_eq!(copy.primed(), 3);
    assert!(copy.is_listening());
    assert_eq!(copy.outstanding(), 1);
    assert_eq!(copy.worker_state(2), Some(WorkerState::SendingReply));
    assert_eq!(pool.on_completion(2, SENT), Action::ReceiveRequest);
    assert_eq!(copy.worker_state(2), Some(WorkerState::SendingReply));
    assert_eq!(pool.worker_state(2), Some(WorkerState::AwaitingRequest));
}

#[test]
fn reply_is_the_word_ferris() {
    assert_eq!(reply_payload(), vec![0x46, 0x65, 0x72, 0x72, 0x69, 0x73]);
    assert_eq!(reply_payload(), reply_payload());
}

#[test]
fn request_is_eight_bytes_least_significant_first() {
    assert_eq!(request_payload(10), vec![10, 0, 0, 0, 0, 0, 0, 0]);
    assert_eq!(
        request_payload(0x0102_0304_0506_0708),
        vec![0x08, 0x07, 0x06, 0x05, 0x04, 0x03, 0x02, 0x01]
    );
    assert_eq!(request_payload(u64::MAX), vec![0xff; 8]);
    assert_eq!(request_payload(0), vec![0; 8]);
}
