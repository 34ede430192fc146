//! Counting the workers that are busy, and what moving one worker does to
//! the count.

use crate::worker::WorkerState;
use vstd::prelude::*;

verus! {

/// What one worker adds to the count: one if it is sending a reply.
pub open spec fn share(state: WorkerState) -> nat {
    if state is SendingReply {
        1
    } else {
        0
    }
}

/// How many of `workers` are sending a reply.
pub open spec fn busy(workers: Seq<WorkerState>) -> nat
    decreases workers.len(),
{
    if workers.len() == 0 {
        0
    } else {
        busy(workers.drop_last()) + share(workers.last())
    }
}

/// No more workers can be busy than there are workers.
pub proof fn lemma_busy_at_most_len(workers: Seq<WorkerState>)
    ensures
        busy(workers) <= workers.len(),
    decreases workers.len(),
{
    if workers.len() > 0 {
        lemma_busy_at_most_len(workers.drop_last());
    }
}

/// Workers that all wait for a request from index `from` on can be left out
/// of the count, so at most `from` workers are busy.
pub proof fn lemma_busy_of_prefix(workers: Seq<WorkerState>, from: nat)
    requires
        from <= workers.len(),
        forall|i: int| from <= i < workers.len() ==> workers[i] == WorkerState::AwaitingRequest,
    ensures
        busy(workers) == busy(workers.take(from as int)),
        busy(workers) <= from,
    decreases workers.len(),
{
    if workers.len() == from {
        assert(workers.take(from as int) =~= workers);
        lemma_busy_at_most_len(workers);
    } else {
        lemma_busy_of_prefix(workers.drop_last(), from);
        assert(workers.drop_last().take(from as int) =~= workers.take(from as int));
    }
}

/// Moving one worker to another phase changes the count by that worker's
/// share and by nothing else.
pub proof fn lemma_busy_update(workers: Seq<WorkerState>, at: int, state: WorkerState)
    requires
        0 <= at < workers.len(),
    ensures
        busy(workers.update(at, state)) + share(workers[at]) == busy(workers) + share(state),
    decreases workers.len(),
{
    let updated = workers.update(at, state);
    if at == workers.len() - 1 {
        assert(updated.drop_last() =~= workers.drop_last());
    } else {
        assert(updated.drop_last() =~= workers.drop_last().update(at, state));
        lemma_busy_update(workers.drop_last(), at, state);
    }
}

/// No worker is busy exactly when every worker waits for a request.
pub proof fn lemma_busy_none(workers: Seq<WorkerState>)
    ensures
        busy(workers) == 0 <==> forall|i: int|
            0 <= i < workers.len() ==> workers[i] == WorkerState::AwaitingRequest,
    decreases workers.len(),
{
    if workers.len() > 0 {
        let front = workers.drop_last();
        lemma_busy_none(front);
        if busy(workers) == 0 {
            assert forall|i: int| 0 <= i < workers.len() implies workers[i]
                == WorkerState::AwaitingRequest by {
                if i < front.len() {
                    assert(workers[i] == front[i]);
                }
            }
        }
        if forall|i: int| 0 <= i < workers.len() ==> workers[i] == WorkerState::AwaitingRequest {
            assert forall|i: int| 0 <= i < front.len() implies front[i]
                == WorkerState::AwaitingRequest by {
                assert(front[i] == workers[i]);
            }
        }
    }
}

/// All workers are busy exactly when every worker is sending a reply.
pub proof fn lemma_busy_all(workers: Seq<WorkerState>)
    ensures
        busy(workers) == workers.len() <==> forall|i: int|
            0 <= i < workers.len() ==> workers[i] == WorkerState::SendingReply,
    decreases workers.len(),
{
    if workers.len() > 0 {
        let front = workers.drop_last();
        lemma_busy_all(front);
        lemma_busy_at_most_len(front);
        if busy(workers) == workers.len() {
            assert forall|i: int| 0 <= i < workers.len() implies workers[i]
                == WorkerState::SendingReply by {
                if i < front.len() {
                    assert(workers[i] == front[i]);
                }
            }
        }
        if forall|i: int| 0 <= i < workers.len() ==> workers[i] == WorkerState::SendingReply {
            assert forall|i: int| 0 <= i < front.len() implies front[i]
                == WorkerState::SendingReply by {
                assert(front[i] == workers[i]);
            }
        }
    }
}

} // verus!
