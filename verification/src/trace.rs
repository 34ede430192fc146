//! What holds of every run of a pool, whatever the transport and the driver
//! report and in whatever order.

use crate::event::{Action, Completion, Fault, OpKind, Outcome};
use crate::load::{
    lemma_busy_all, lemma_busy_none, lemma_busy_of_prefix, lemma_busy_update,
};
use crate::pool::{PoolView, SetupError, SetupStep};
use crate::worker::WorkerState;
use vstd::prelude::*;

verus! {

/// One thing that happens to a pool.
#[derive(Clone, Copy, Debug, PartialEq, Eq, Structural)]
pub enum Event {
    /// The driver has carried out the step of startup that was due.
    Step(Outcome),
    /// The operation of worker `worker` has completed.
    Completed { worker: usize, completion: Completion },
}

impl PoolView {
    /// The pool after event `e`.
    pub open spec fn after(self, e: Event) -> PoolView {
        match e {
            Event::Step(outcome) => self.after_step(outcome),
            Event::Completed { worker, completion } => self.after_completion(
                worker as int,
                completion,
            ),
        }
    }

    /// The pool after the events `es`, one after another.
    pub open spec fn after_all(self, es: Seq<Event>) -> PoolView
        decreases es.len(),
    {
        if es.len() == 0 {
            self
        } else {
            self.after_all(es.drop_last()).after(es.last())
        }
    }

    /// Event `e` is the arrival of a request that a worker takes up: the
    /// completion of a receive that is answered by sending the reply.
    pub open spec fn receives(self, e: Event) -> bool {
        e matches Event::Completed { worker, completion } && self.action_on(
            worker as int,
            completion,
        ) == Action::SendReply
    }

    /// Event `e` is the end of an exchange: the completion of the send of a
    /// reply, answered by the worker's next receive.
    pub open spec fn replies(self, e: Event) -> bool {
        e matches Event::Completed { worker, completion } && self.action_on(
            worker as int,
            completion,
        ) == Action::ReceiveRequest
    }

    /// The phase of worker `worker`. A worker that is not built yet will start
    /// by waiting for a request.
    pub open spec fn phase_of(self, worker: int) -> WorkerState {
        if 0 <= worker < self.workers.len() {
            self.workers[worker]
        } else {
            WorkerState::AwaitingRequest
        }
    }

    /// The operations, in order, that worker `worker` completes in the course
    /// of `es`: those of its completions that are acted upon.
    pub open spec fn completed_by(self, worker: int, es: Seq<Event>) -> Seq<OpKind>
        decreases es.len(),
    {
        if es.len() == 0 {
            Seq::empty()
        } else {
            let before = self.after_all(es.drop_last());
            let ops = self.completed_by(worker, es.drop_last());
            match es.last() {
                Event::Completed { worker: w, completion } => if w == worker && !(before.action_on(
                    worker,
                    completion,
                ) is Abort) {
                    ops.push(completion.kind)
                } else {
                    ops
                },
                Event::Step(_) => ops,
            }
        }
    }

    /// How many requests the pool takes up in the course of `es`.
    pub open spec fn received(self, es: Seq<Event>) -> nat
        decreases es.len(),
    {
        if es.len() == 0 {
            0
        } else {
            self.received(es.drop_last()) + if self.after_all(es.drop_last()).receives(es.last()) {
                1nat
            } else {
                0nat
            }
        }
    }

    /// How many exchanges the pool brings to an end in the course of `es`.
    pub open spec fn replied(self, es: Seq<Event>) -> nat
        decreases es.len(),
    {
        if es.len() == 0 {
            0
        } else {
            self.replied(es.drop_last()) + if self.after_all(es.drop_last()).replies(es.last()) {
                1nat
            } else {
                0nat
            }
        }
    }
}

/// The successful completion of one operation of kind `kind` on each of
/// `order`, in that order.
pub open spec fn round(order: Seq<usize>, kind: OpKind) -> Seq<Event> {
    order.map_values(
        |worker: usize|
            Event::Completed {
                worker,
                completion: Completion { kind, outcome: Outcome::Success },
            },
    )
}

/// Running `first` and then `second` is running them joined.
pub proof fn lemma_after_all_joined(pool: PoolView, first: Seq<Event>, second: Seq<Event>)
    ensures
        pool.after_all(first + second) == pool.after_all(first).after_all(second),
        pool.received(first + second) == pool.received(first) + pool.after_all(first).received(
            second,
        ),
        pool.replied(first + second) == pool.replied(first) + pool.after_all(first).replied(
            second,
        ),
    decreases second.len(),
{
    if second.len() == 0 {
        assert(first + second =~= first);
    } else {
        assert((first + second).drop_last() =~= first + second.drop_last());
        assert((first + second).last() == second.last());
        lemma_after_all_joined(pool, first, second.drop_last());
    }
}

/// Every reachable pool is well formed, and no run changes the size of a
/// pool.
pub proof fn lemma_run_keeps_wf(pool: PoolView, es: Seq<Event>)
    requires
        pool.wf(),
    ensures
        pool.after_all(es).wf(),
        pool.after_all(es).size == pool.size,
    decreases es.len(),
{
    if es.len() > 0 {
        lemma_run_keeps_wf(pool, es.drop_last());
    }
}

/// Strict alternation in the pool. In every run of a pool, whatever is
/// reported and in whatever order, the operations that any one worker
/// completes are receive, send, receive, send and so on from the operation of
/// the phase in which the worker started: never two receives and never two
/// sends in a row. In a pool run from its start every worker starts with a
/// receive.
pub proof fn lemma_workers_alternate(pool: PoolView, worker: int, es: Seq<Event>)
    requires
        pool.wf(),
    ensures
        ({
            let start = pool.phase_of(worker);
            let ops = pool.completed_by(worker, es);
            &&& forall|i: int|
                0 <= i < ops.len() ==> #[trigger] ops[i] == (if i % 2 == 0 {
                    start.pending()
                } else {
                    start.flipped().pending()
                })
            &&& forall|i: int| 0 <= i < ops.len() - 1 ==> #[trigger] ops[i] != ops[i + 1]
            &&& pool.after_all(es).phase_of(worker) == (if ops.len() % 2 == 0 {
                start
            } else {
                start.flipped()
            })
        }),
    decreases es.len(),
{
    if es.len() > 0 {
        lemma_workers_alternate(pool, worker, es.drop_last());
        lemma_run_keeps_wf(pool, es.drop_last());
    }
}

/// Bounded concurrency. At every point of every run, the requests that have
/// been received and not yet replied to are exactly those of the workers that
/// are sending a reply, and there are never more of them than workers with an
/// operation in flight, hence never more than the size of the pool, however
/// many completions are reported.
pub proof fn lemma_bounded_concurrency(pool: PoolView, es: Seq<Event>)
    requires
        pool.wf(),
    ensures
        pool.after_all(es).outstanding() + pool.replied(es) == pool.outstanding() + pool.received(
            es,
        ),
        pool.after_all(es).outstanding() <= pool.after_all(es).primed,
        pool.after_all(es).outstanding() <= pool.size,
    decreases es.len(),
{
    lemma_run_keeps_wf(pool, es);
    let end = pool.after_all(es);
    lemma_busy_of_prefix(end.workers, end.primed);
    if es.len() > 0 {
        let before = pool.after_all(es.drop_last());
        lemma_bounded_concurrency(pool, es.drop_last());
        lemma_run_keeps_wf(pool, es.drop_last());
        match es.last() {
            Event::Step(outcome) => {
                lemma_step_keeps_outstanding(before, outcome);
            },
            Event::Completed { worker, completion } => {
                if before.receives(es.last()) || before.replies(es.last()) {
                    let was = before.workers[worker as int];
                    lemma_busy_update(before.workers, worker as int, was.flipped());
                }
            },
        }
    }
}

/// No step of startup changes how many requests are outstanding.
pub proof fn lemma_step_keeps_outstanding(pool: PoolView, outcome: Outcome)
    ensures
        pool.after_step(outcome).outstanding() == pool.outstanding(),
{
    let pushed = pool.workers.push(WorkerState::AwaitingRequest);
    assert(pushed.drop_last() =~= pool.workers);
}

/// One round on distinct workers. If the workers of `order` are distinct, all
/// have an operation in flight and are all in phase `state`, and the
/// operation of that phase completes successfully on each of them in turn,
/// then every one of these completions is acted upon, each of these workers
/// moves to the other phase, and nothing else in the pool changes.
pub proof fn lemma_round(pool: PoolView, order: Seq<usize>, state: WorkerState)
    requires
        pool.wf(),
        pool.fault is None,
        order.no_duplicates(),
        forall|k: int|
            0 <= k < order.len() ==> order[k] < pool.primed && pool.workers[order[k] as int]
                == state,
    ensures
        ({
            let es = round(order, state.pending());
            let done = Completion { kind: state.pending(), outcome: Outcome::Success };
            let end = pool.after_all(es);
            &&& es.len() == order.len()
            &&& forall|k: int|
                0 <= k < order.len() ==> pool.after_all(#[trigger] es.take(k)).action_on(
                    order[k] as int,
                    done,
                ) == (if state is AwaitingRequest {
                    Action::SendReply
                } else {
                    Action::ReceiveRequest
                })
            &&& end == PoolView { workers: end.workers, ..pool }
            &&& end.workers.len() == pool.workers.len()
            &&& forall|w: usize|
                w < pool.workers.len() ==> #[trigger] end.workers[w as int] == (if order.contains(
                    w,
                ) {
                    state.flipped()
                } else {
                    pool.workers[w as int]
                })
            &&& pool.received(es) == (if state is AwaitingRequest {
                order.len()
            } else {
                0
            })
            &&& pool.replied(es) == (if state is AwaitingRequest {
                0
            } else {
                order.len()
            })
        }),
    decreases order.len(),
{
    let es = round(order, state.pending());
    let done = Completion { kind: state.pending(), outcome: Outcome::Success };
    if order.len() == 0 {
    } else {
        let n = order.len() - 1;
        let front = order.drop_last();
        let last = order[n];
        let front_es = round(front, state.pending());
        assert(es.drop_last() =~= front_es);
        assert(es.last() == Event::Completed { worker: last, completion: done });
        assert forall|k: int| 0 <= k < front.len() implies front[k] < pool.primed
            && pool.workers[front[k] as int] == state by {
            assert(front[k] == order[k]);
        }
        lemma_round(pool, front, state);
        let before = pool.after_all(front_es);
        assert(!front.contains(last)) by {
            if front.contains(last) {
                let j = choose|j: int| 0 <= j < front.len() && front[j] == last;
                assert(order[j] == order[n]);
            }
        }
        assert(before.workers[last as int] == state);
        assert(before.action_on(last as int, done) == (if state is AwaitingRequest {
            Action::SendReply
        } else {
            Action::ReceiveRequest
        }));
        let end = pool.after_all(es);
        assert(end == before.after_completion(last as int, done));
        assert(end.workers == before.workers.update(last as int, state.flipped()));
        assert forall|k: int| 0 <= k < order.len() implies pool.after_all(
            #[trigger] es.take(k),
        ).action_on(order[k] as int, done) == (if state is AwaitingRequest {
            Action::SendReply
        } else {
            Action::ReceiveRequest
        }) by {
            if k < n {
                assert(es.take(k) =~= front_es.take(k));
                assert(order[k] == front[k]);
            } else {
                assert(es.take(k) =~= front_es);
            }
        }
        assert forall|w: usize| w < pool.workers.len() implies #[trigger] end.workers[w as int]
            == (if order.contains(w) {
            state.flipped()
        } else {
            pool.workers[w as int]
        }) by {
            if w == last {
                assert(order[n] == w);
            } else {
                if front.contains(w) {
                    let j = choose|j: int| 0 <= j < front.len() && front[j] == w;
                    assert(order[j] == w);
                }
                if order.contains(w) {
                    let j = choose|j: int| 0 <= j < order.len() && order[j] == w;
                    assert(j < n);
                    assert(front[j] == w);
                }
            }
        }
    }
}

/// No request is lost under a burst. Take a pool of any size whose startup is
/// complete and that has no request outstanding, and let as many requests as
/// it has workers arrive at once, one on each worker, in any order. Then
/// every one of them is received and answered with the sending of exactly one
/// reply, after which the pool is full: every worker is sending a reply. When
/// these sends complete, in any order, every worker starts its next receive,
/// and the pool is again as it was before the burst: over the whole run as
/// many requests were received as there are workers, and as many replies
/// went out.
pub proof fn lemma_burst_is_served(pool: PoolView, arrivals: Seq<usize>, departures: Seq<usize>)
    requires
        pool.wf(),
        pool.serving(),
        pool.fault is None,
        pool.outstanding() == 0,
        arrivals.len() == pool.size,
        arrivals.no_duplicates(),
        forall|k: int| 0 <= k < arrivals.len() ==> arrivals[k] < pool.size,
        departures.len() == pool.size,
        departures.no_duplicates(),
        forall|k: int| 0 <= k < departures.len() ==> departures[k] < pool.size,
    ensures
        ({
            let burst = round(arrivals, OpKind::Receive);
            let full = pool.after_all(burst);
            let sends = round(departures, OpKind::Send);
            &&& forall|k: int|
                0 <= k < arrivals.len() ==> pool.after_all(#[trigger] burst.take(k)).action_on(
                    arrivals[k] as int,
                    Completion { kind: OpKind::Receive, outcome: Outcome::Success },
                ) == Action::SendReply
            &&& pool.received(burst) == pool.size
            &&& pool.replied(burst) == 0
            &&& full.fault is None
            &&& full.outstanding() == pool.size
            &&& forall|i: int|
                0 <= i < pool.size ==> #[trigger] full.workers[i] == WorkerState::SendingReply
            &&& forall|k: int|
                0 <= k < departures.len() ==> full.after_all(#[trigger] sends.take(k)).action_on(
                    departures[k] as int,
                    Completion { kind: OpKind::Send, outcome: Outcome::Success },
                ) == Action::ReceiveRequest
            &&& full.replied(sends) == pool.size
            &&& full.received(sends) == 0
            &&& full.after_all(sends) == pool
            &&& pool.after_all(burst + sends) == pool
            &&& pool.received(burst + sends) == pool.size
            &&& pool.replied(burst + sends) == pool.size
        }),
{
    let burst = round(arrivals, OpKind::Receive);
    let sends = round(departures, OpKind::Send);
    lemma_busy_none(pool.workers);
    lemma_round(pool, arrivals, WorkerState::AwaitingRequest);
    let full = pool.after_all(burst);
    lemma_bounded_concurrency(pool, burst);
    lemma_run_keeps_wf(pool, burst);
    lemma_busy_all(full.workers);
    lemma_round(full, departures, WorkerState::SendingReply);
    let end = full.after_all(sends);
    lemma_bounded_concurrency(full, sends);
    lemma_busy_none(end.workers);
    assert(end.workers =~= pool.workers);
    lemma_after_all_joined(pool, burst, sends);
}

/// Startup ordering. In every run of a pool from its start, the socket
/// listens only once every worker of the pool has been built, the driver is
/// told to listen only then, and a first receive is issued only once the
/// socket listens. Once the socket listens it is never bound again and no
/// worker is built any more. A completion is acted upon only on a worker whose
/// first receive has been issued: so no request is received before
/// construction has finished and the socket listens.
pub proof fn lemma_startup_ordering(size: nat, es: Seq<Event>, worker: int, c: Completion)
    requires
        size <= usize::MAX,
    ensures
        ({
            let pool = PoolView::initial(size).after_all(es);
            &&& pool.size == size
            &&& pool.listening ==> pool.workers.len() == size
            &&& pool.next_step() is Listen ==> pool.workers.len() == size && !pool.listening
            &&& pool.next_step() is IssueReceive ==> pool.listening
            &&& pool.listening ==> !(pool.next_step() is Listen) && !(pool.next_step()
                is CreateContext) && !(pool.next_step() is CreateOperation)
            &&& pool.primed > 0 ==> pool.listening
            &&& !(pool.action_on(worker, c) is Abort) ==> {
                &&& pool.listening
                &&& pool.workers.len() == size
                &&& 0 <= worker < pool.primed
            }
        }),
{
    lemma_run_keeps_wf(PoolView::initial(size), es);
}

/// A stopped pool stays stopped. Once a fault has occurred no event changes
/// the pool, every completion is answered with that fault, and startup is
/// told to halt: no operation is ever started again.
pub proof fn lemma_halt_is_final(pool: PoolView, es: Seq<Event>, worker: int, c: Completion)
    requires
        pool.fault is Some,
    ensures
        pool.after_all(es) == pool,
        pool.action_on(worker, c) == Action::Abort(pool.fault->0),
        pool.next_step() == SetupStep::Halt(pool.fault->0),
    decreases es.len(),
{
    if es.len() > 0 {
        lemma_halt_is_final(pool, es.drop_last(), worker, c);
    }
}

/// A failure is fatal. The failure of an operation, on any worker and in any
/// state of the pool, is answered with a fault, never with a new operation; on
/// a worker of a running pool the fault names the operation that failed. The
/// pool is stopped from then on, whatever happens next.
pub proof fn lemma_failure_is_fatal(pool: PoolView, worker: int, c: Completion, es: Seq<Event>)
    requires
        c.outcome is Failure,
    ensures
        pool.action_on(worker, c) is Abort,
        pool.fault is None && 0 <= worker < pool.primed ==> pool.action_on(worker, c)
            == Action::Abort(Fault::OperationFailed { kind: c.kind }),
        pool.after_completion(worker, c).fault is Some,
        pool.action_on(worker, c) == Action::Abort(pool.after_completion(worker, c).fault->0),
        pool.after_completion(worker, c).after_all(es) == pool.after_completion(worker, c),
{
    lemma_halt_is_final(pool.after_completion(worker, c), es, worker, c);
}

/// `n` steps of startup that all succeed.
pub open spec fn successes(n: nat) -> Seq<Event> {
    Seq::new(n, |i: int| Event::Step(Outcome::Success))
}

/// The pool for `size` workers after `k` steps of startup that all
/// succeeded: two steps build one worker, one step binds the socket, one step
/// issues one first receive.
pub open spec fn started(size: nat, k: nat) -> PoolView {
    if k <= 2 * size {
        PoolView {
            workers: Seq::new(k / 2, |i: int| WorkerState::AwaitingRequest),
            context_ready: k % 2 == 1,
            ..PoolView::initial(size)
        }
    } else {
        PoolView {
            workers: Seq::new(size, |i: int| WorkerState::AwaitingRequest),
            listening: true,
            primed: if k - 2 * size - 1 <= size {
                (k - 2 * size - 1) as nat
            } else {
                size
            },
            ..PoolView::initial(size)
        }
    }
}

/// Startup succeeds when every step does. After `k` successful steps the pool
/// for `size` workers is exactly `started(size, k)`. So it serves after
/// `3 * size + 1` steps and not before, with every worker waiting for its
/// first request, and further steps change nothing.
pub proof fn lemma_startup_completes(size: nat, k: nat)
    requires
        size <= usize::MAX,
    ensures
        PoolView::initial(size).after_all(successes(k)) == started(size, k),
        started(size, k).serving() <==> k >= 3 * size + 1,
        started(size, k).serving() ==> started(size, k).next_step() == SetupStep::Serve,
        started(size, k).outstanding() == 0,
    decreases k,
{
    let start = PoolView::initial(size);
    lemma_busy_none(started(size, k).workers);
    if k == 0 {
        assert(started(size, 0).workers =~= start.workers);
    } else {
        let before = (k - 1) as nat;
        lemma_startup_completes(size, before);
        assert(successes(k).drop_last() =~= successes(before));
        assert(successes(k).last() == Event::Step(Outcome::Success));
        let pool = started(size, before);
        assert(start.after_all(successes(k)) == pool.after_step(Outcome::Success));
        assert(pool.after_step(Outcome::Success).workers =~= started(size, k).workers);
    }
}

/// Construction is all or nothing. Once a step of startup has failed, no
/// event builds another worker, binds the socket or issues a first receive,
/// the error stays, and the driver is told to stop.
pub proof fn lemma_setup_failure_is_final(pool: PoolView, es: Seq<Event>)
    requires
        pool.wf(),
        pool.setup_error is Some,
    ensures
        ({
            let end = pool.after_all(es);
            &&& end.setup_error == pool.setup_error
            &&& end.workers.len() == pool.workers.len()
            &&& end.context_ready == pool.context_ready
            &&& end.listening == pool.listening
            &&& end.primed == pool.primed
            &&& end.next_step() is Fail || end.next_step() is Halt
        }),
    decreases es.len(),
{
    if es.len() > 0 {
        lemma_setup_failure_is_final(pool, es.drop_last());
        lemma_run_keeps_wf(pool, es.drop_last());
    }
}

/// A failed step is reported as the error of that step, and of no other.
pub proof fn lemma_setup_failure_names_the_step(pool: PoolView)
    requires
        pool.fault is None,
        pool.setup_error is None,
    ensures
        ({
            let failed = pool.after_step(Outcome::Failure);
            match pool.next_step() {
                SetupStep::CreateContext { worker } => failed.setup_error == Some(
                    SetupError::ContextCreation { worker },
                ),
                SetupStep::CreateOperation { worker } => failed.setup_error == Some(
                    SetupError::OperationSetup { worker },
                ),
                SetupStep::Listen => failed.setup_error == Some(SetupError::Bind),
                SetupStep::IssueReceive { worker } => failed.setup_error == Some(
                    SetupError::InitialReceive { worker },
                ),
                _ => failed == pool,
            }
        }),
{
}

/// A full pool admits nothing. When every worker with an operation in flight
/// is sending a reply, no completion on any worker is taken up as a new
/// request: a further request has to wait until one of the exchanges is over.
pub proof fn lemma_full_pool_admits_nothing(pool: PoolView, worker: int, c: Completion)
    requires
        pool.wf(),
        pool.outstanding() == pool.primed,
    ensures
        pool.action_on(worker, c) != Action::SendReply,
{
    if 0 <= worker < pool.primed {
        lemma_busy_of_prefix(pool.workers, pool.primed);
        lemma_busy_all(pool.workers.take(pool.primed as int));
        assert(pool.workers.take(pool.primed as int)[worker] == pool.workers[worker]);
    }
}

} // verus!
