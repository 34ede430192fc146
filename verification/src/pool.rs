//! The worker pool: a fixed number of workers on one shared socket.
//!
//! The pool decides, the driver acts. During startup the driver asks
//! [`WorkerPool::next_step`] what to do, does it, and reports the outcome
//! with [`WorkerPool::record`]. Once receives are in flight, every completion
//! notification goes through [`WorkerPool::on_completion`], which answers with
//! the one operation to start next.

use crate::event::{Action, Completion, Fault, Outcome};
use crate::load::{busy, lemma_busy_of_prefix};
use crate::worker::{decide, Worker, WorkerState};
use vstd::prelude::*;

verus! {

/// Why startup could not be completed. A pool that failed to start never
/// listens and never serves.
#[derive(Clone, Copy, Debug, PartialEq, Eq, Structural)]
pub enum SetupError {
    /// The exchange context of worker `worker` could not be created.
    ContextCreation { worker: usize },
    /// The operation handle of worker `worker` could not be set up.
    OperationSetup { worker: usize },
    /// The socket could not be bound to its address.
    Bind,
    /// The first receive of worker `worker` could not be issued.
    InitialReceive { worker: usize },
}

/// What the driver must do next to bring the pool up.
#[derive(Clone, Copy, Debug, PartialEq, Eq, Structural)]
pub enum SetupStep {
    /// Create the exchange context of worker `worker` on the shared socket.
    CreateContext { worker: usize },
    /// Create the operation handle of worker `worker` and wire its completion
    /// callback to that worker.
    CreateOperation { worker: usize },
    /// Bind the socket and start listening.
    Listen,
    /// Issue the first receive of worker `worker`.
    IssueReceive { worker: usize },
    /// Startup is complete: every worker has a receive in flight.
    Serve,
    /// Startup has failed: report the error and stop.
    Fail(SetupError),
    /// A worker has hit a fault: the process is stopping.
    Halt(Fault),
}

/// The mathematical model of a pool.
pub struct PoolView {
    /// The number of workers the pool is built for. It never changes.
    pub size: nat,
    /// The phases of the workers built so far, by index.
    pub workers: Seq<WorkerState>,
    /// The next worker's context exists, its operation handle not yet.
    pub context_ready: bool,
    /// The socket is bound and listening.
    pub listening: bool,
    /// How many workers have had their first receive issued: the workers
    /// `0 .. primed` each have exactly one operation in flight.
    pub primed: nat,
    /// The error that ended startup, if any.
    pub setup_error: Option<SetupError>,
    /// The fault that stopped the pool, if any.
    pub fault: Option<Fault>,
}

impl PoolView {
    /// A pool for `size` workers on which nothing has been done yet.
    pub open spec fn initial(size: nat) -> PoolView {
        PoolView {
            size,
            workers: Seq::empty(),
            context_ready: false,
            listening: false,
            primed: 0,
            setup_error: None,
            fault: None,
        }
    }

    /// The invariant of every pool: the socket listens only once all workers
    /// exist, receives are issued only once it listens, and a worker that has
    /// nothing in flight yet is waiting for its first request.
    pub open spec fn wf(self) -> bool {
        &&& self.size <= usize::MAX
        &&& self.workers.len() <= self.size
        &&& self.context_ready ==> !self.listening && self.workers.len() < self.size
        &&& self.listening ==> self.workers.len() == self.size
        &&& self.primed <= self.workers.len()
        &&& self.primed > 0 ==> self.listening
        &&& forall|i: int|
            self.primed <= i < self.workers.len() ==> self.workers[i]
                == WorkerState::AwaitingRequest
    }

    /// Every worker has a receive or a send in flight.
    pub open spec fn serving(self) -> bool {
        self.listening && self.primed == self.size
    }

    /// The requests that have been received and not yet replied to.
    pub open spec fn outstanding(self) -> nat {
        busy(self.workers)
    }

    /// The next step of startup: all contexts and handles first, worker by
    /// worker; then the socket; then the first receive of every worker.
    pub open spec fn next_step(self) -> SetupStep {
        if self.fault is Some {
            SetupStep::Halt(self.fault->0)
        } else if self.setup_error is Some {
            SetupStep::Fail(self.setup_error->0)
        } else if !self.listening {
            if self.workers.len() < self.size {
                if self.context_ready {
                    SetupStep::CreateOperation { worker: self.workers.len() as usize }
                } else {
                    SetupStep::CreateContext { worker: self.workers.len() as usize }
                }
            } else {
                SetupStep::Listen
            }
        } else if self.primed < self.size {
            SetupStep::IssueReceive { worker: self.primed as usize }
        } else {
            SetupStep::Serve
        }
    }

    /// The pool after the driver has carried out `next_step` with the given
    /// outcome. A failure ends startup with the error of the step that failed;
    /// where no step is due, nothing changes.
    pub open spec fn after_step(self, outcome: Outcome) -> PoolView {
        match self.next_step() {
            SetupStep::CreateContext { worker } => if outcome is Success {
                PoolView { context_ready: true, ..self }
            } else {
                PoolView { setup_error: Some(SetupError::ContextCreation { worker }), ..self }
            },
            SetupStep::CreateOperation { worker } => if outcome is Success {
                PoolView {
                    workers: self.workers.push(WorkerState::AwaitingRequest),
                    context_ready: false,
                    ..self
                }
            } else {
                PoolView { setup_error: Some(SetupError::OperationSetup { worker }), ..self }
            },
            SetupStep::Listen => if outcome is Success {
                PoolView { listening: true, ..self }
            } else {
                PoolView { setup_error: Some(SetupError::Bind), ..self }
            },
            SetupStep::IssueReceive { worker } => if outcome is Success {
                PoolView { primed: self.primed + 1, ..self }
            } else {
                PoolView { setup_error: Some(SetupError::InitialReceive { worker }), ..self }
            },
            SetupStep::Serve => self,
            SetupStep::Fail(_) => self,
            SetupStep::Halt(_) => self,
        }
    }

    /// The action that follows completion `c` on worker `worker`. A stopped
    /// pool stays stopped; a worker with nothing in flight cannot complete
    /// anything; otherwise the worker's own cycle decides.
    pub open spec fn action_on(self, worker: int, c: Completion) -> Action {
        if self.fault is Some {
            Action::Abort(self.fault->0)
        } else if !(0 <= worker < self.primed) {
            Action::Abort(Fault::NothingInFlight)
        } else {
            decide(self.workers[worker], c)
        }
    }

    /// The pool after completion `c` on worker `worker`: that worker moves to
    /// its other phase if the completion is acted upon, and the pool stops on
    /// the first fault. No other worker is touched.
    pub open spec fn after_completion(self, worker: int, c: Completion) -> PoolView {
        if self.fault is Some {
            self
        } else {
            match self.action_on(worker, c) {
                Action::Abort(fault) => PoolView { fault: Some(fault), ..self },
                _ => PoolView {
                    workers: self.workers.update(worker, self.workers[worker].flipped()),
                    ..self
                },
            }
        }
    }
}

/// A step of startup keeps the pool well formed and its size fixed.
pub proof fn lemma_step_keeps_wf(pool: PoolView, outcome: Outcome)
    requires
        pool.wf(),
    ensures
        pool.after_step(outcome).wf(),
        pool.after_step(outcome).size == pool.size,
{
}

/// A completion keeps the pool well formed and its size fixed.
pub proof fn lemma_completion_keeps_wf(pool: PoolView, worker: int, c: Completion)
    requires
        pool.wf(),
    ensures
        pool.after_completion(worker, c).wf(),
        pool.after_completion(worker, c).size == pool.size,
{
}

/// The phases of a vector of workers.
spec fn phases(workers: Seq<Worker>) -> Seq<WorkerState> {
    workers.map_values(|w: Worker| w@)
}

/// A pool of workers. Its size is fixed when it is made.
#[derive(Debug)]
pub struct WorkerPool {
    size: usize,
    workers: Vec<Worker>,
    context_ready: bool,
    listening: bool,
    primed: usize,
    setup_error: Option<SetupError>,
    fault: Option<Fault>,
}

impl View for WorkerPool {
    type V = PoolView;

    closed spec fn view(&self) -> PoolView {
        PoolView {
            size: self.size as nat,
            workers: phases(self.workers@),
            context_ready: self.context_ready,
            listening: self.listening,
            primed: self.primed as nat,
            setup_error: self.setup_error,
            fault: self.fault,
        }
    }
}

impl Clone for WorkerPool {
    /// A second pool in the same state.
    fn clone(&self) -> (copy: WorkerPool)
        ensures
            copy@ == self@,
            copy@.wf(),
    {
        proof {
            use_type_invariant(self);
        }
        let mut workers: Vec<Worker> = Vec::new();
        let mut i: usize = 0;
        while i < self.workers.len()
            invariant
                i <= self.workers.len(),
                workers@ == self.workers@.take(i as int),
            decreases self.workers.len() - i,
        {
            workers.push(self.workers[i]);
            assert(workers@ =~= self.workers@.take(i + 1));
            i = i + 1;
        }
        assert(workers@ =~= self.workers@);
        WorkerPool {
            size: self.size,
            workers,
            context_ready: self.context_ready,
            listening: self.listening,
            primed: self.primed,
            setup_error: self.setup_error,
            fault: self.fault,
        }
    }
}

impl WorkerPool {
    #[verifier::type_invariant]
    spec fn inv(&self) -> bool {
        self@.wf()
    }

    /// A pool for `size` workers, none of them built yet.
    pub fn new(size: usize) -> (pool: WorkerPool)
        ensures
            pool@ == PoolView::initial(size as nat),
            pool@.wf(),
    {
        let pool = WorkerPool {
            size,
            workers: Vec::new(),
            context_ready: false,
            listening: false,
            primed: 0,
            setup_error: None,
            fault: None,
        };
        assert(pool@.workers =~= Seq::<WorkerState>::empty());
        pool
    }

    /// What the driver must do next.
    pub fn next_step(&self) -> (step: SetupStep)
        ensures
            step == self@.next_step(),
            self@.wf(),
    {
        proof {
            use_type_invariant(self);
        }
        if let Some(fault) = self.fault {
            SetupStep::Halt(fault)
        } else if let Some(error) = self.setup_error {
            SetupStep::Fail(error)
        } else if !self.listening {
            if self.workers.len() < self.size {
                if self.context_ready {
                    SetupStep::CreateOperation { worker: self.workers.len() }
                } else {
                    SetupStep::CreateContext { worker: self.workers.len() }
                }
            } else {
                SetupStep::Listen
            }
        } else if self.primed < self.size {
            SetupStep::IssueReceive { worker: self.primed }
        } else {
            SetupStep::Serve
        }
    }

    /// Records how the step that `next_step` asked for has ended.
    pub fn record(&mut self, outcome: Outcome)
        ensures
            final(self)@ == old(self)@.after_step(outcome),
            final(self)@.wf(),
    {
        proof {
            use_type_invariant(&*self);
            lemma_step_keeps_wf(self@, outcome);
        }
        let step = self.next_step();
        let succeeded = match outcome {
            Outcome::Success => true,
            Outcome::Failure => false,
        };
        match step {
            SetupStep::CreateContext { worker } => {
                if succeeded {
                    self.context_ready = true;
                } else {
                    self.setup_error = Some(SetupError::ContextCreation { worker });
                }
            },
            SetupStep::CreateOperation { worker } => {
                if succeeded {
                    self.context_ready = false;
                    // The new worker is added outside the pool: the pool has to
                    // meet its invariant whenever a call on its vector returns,
                    // and a call that may unwind cannot be made on it in place.
                    let mut built: Vec<Worker> = Vec::new();
                    std::mem::swap(&mut self.workers, &mut built);
                    built.push(Worker::new());
                    assert(phases(built@) =~= old(self)@.workers.push(
                        WorkerState::AwaitingRequest,
                    ));
                    std::mem::swap(&mut self.workers, &mut built);
                } else {
                    self.setup_error = Some(SetupError::OperationSetup { worker });
                }
            },
            SetupStep::Listen => {
                if succeeded {
                    self.listening = true;
                } else {
                    self.setup_error = Some(SetupError::Bind);
                }
            },
            SetupStep::IssueReceive { worker } => {
                if succeeded {
                    self.primed = self.primed + 1;
                } else {
                    self.setup_error = Some(SetupError::InitialReceive { worker });
                }
            },
            SetupStep::Serve => {},
            SetupStep::Fail(_) => {},
            SetupStep::Halt(_) => {},
        }
    }

    /// The completion callback: takes the completion `c` of the operation of
    /// worker `worker` and returns the one action to perform on that worker.
    pub fn on_completion(&mut self, worker: usize, c: Completion) -> (action: Action)
        ensures
            action == old(self)@.action_on(worker as int, c),
            final(self)@ == old(self)@.after_completion(worker as int, c),
            final(self)@.wf(),
    {
        proof {
            use_type_invariant(&*self);
            lemma_completion_keeps_wf(self@, worker as int, c);
        }
        if let Some(fault) = self.fault {
            return Action::Abort(fault);
        }
        if worker >= self.primed {
            self.fault = Some(Fault::NothingInFlight);
            return Action::Abort(Fault::NothingInFlight);
        }
        let mut w: Worker = self.workers[worker];
        let action = w.on_completion(c);
        match action {
            Action::Abort(fault) => {
                self.fault = Some(fault);
            },
            _ => {
                assert forall|x: Worker| #[trigger]
                    phases(self.workers@.update(worker as int, x)) == old(self)@.workers.update(
                        worker as int,
                        x@,
                    ) by {
                    assert(phases(self.workers@.update(worker as int, x)) =~= old(
                        self,
                    )@.workers.update(worker as int, x@));
                }
                self.workers[worker] = w;
            },
        }
        action
    }

    /// The number of workers the pool is built for.
    pub fn size(&self) -> (n: usize)
        ensures
            n == self@.size,
    {
        self.size
    }

    /// The number of workers built so far.
    pub fn built(&self) -> (n: usize)
        ensures
            n == self@.workers.len(),
            n <= self@.size,
    {
        proof {
            use_type_invariant(self);
        }
        self.workers.len()
    }

    /// Whether the socket is bound and listening.
    pub fn is_listening(&self) -> (b: bool)
        ensures
            b == self@.listening,
    {
        self.listening
    }

    /// The number of workers whose first receive has been issued.
    pub fn primed(&self) -> (n: usize)
        ensures
            n == self@.primed,
            n <= self@.size,
    {
        proof {
            use_type_invariant(self);
        }
        self.primed
    }

    /// Whether startup is complete: every worker has an operation in flight.
    pub fn is_serving(&self) -> (b: bool)
        ensures
            b == self@.serving(),
    {
        proof {
            use_type_invariant(self);
        }
        self.listening && self.primed == self.size
    }

    /// The error that ended startup, if any.
    pub fn setup_error(&self) -> (error: Option<SetupError>)
        ensures
            error == self@.setup_error,
    {
        self.setup_error
    }

    /// The fault that stopped the pool, if any.
    pub fn fault(&self) -> (fault: Option<Fault>)
        ensures
            fault == self@.fault,
    {
        self.fault
    }

    /// The phase of worker `worker`, if it has been built.
    pub fn worker_state(&self, worker: usize) -> (state: Option<WorkerState>)
        ensures
            state == (if worker < self@.workers.len() {
                Some(self@.workers[worker as int])
            } else {
                None
            }),
    {
        if worker < self.workers.len() {
            Some(self.workers[worker].state())
        } else {
            None
        }
    }

    /// The number of requests that have been received and not yet replied to.
    /// It never exceeds the number of workers with an operation in flight.
    pub fn outstanding(&self) -> (n: usize)
        ensures
            n == self@.outstanding(),
            n <= self@.primed,
            n <= self@.size,
    {
        proof {
            use_type_invariant(self);
            lemma_busy_of_prefix(self@.workers, self@.primed);
        }
        let mut n: usize = 0;
        let mut i: usize = 0;
        while i < self.workers.len()
            invariant
                i <= self.workers.len(),
                n <= i,
                n == busy(self@.workers.take(i as int)),
            decreases self.workers.len() - i,
        {
            proof {
                let upto = self@.workers.take(i + 1);
                assert(upto.drop_last() =~= self@.workers.take(i as int));
                assert(upto.last() == self@.workers[i as int]);
            }
            match self.workers[i].state() {
                WorkerState::SendingReply => {
                    n = n + 1;
                },
                WorkerState::AwaitingRequest => {},
            }
            i = i + 1;
        }
        assert(self@.workers.take(i as int) =~= self@.workers);
        n
    }

    /// The number of workers that are waiting for a request: how many more
    /// requests the pool can take up at this moment.
    pub fn available(&self) -> (n: usize)
        ensures
            n == self@.primed - self@.outstanding(),
    {
        let busy_workers: usize = self.outstanding();
        self.primed - busy_workers
    }
}

} // verus!
