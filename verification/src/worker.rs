//! A worker: one slot of the pool, bound for its whole life to one ordinal
//! index, holding at most one job at a time.
use vstd::prelude::*;

verus! {

/// Where a worker stands in its life.
#[derive(Clone, Copy, Debug, PartialEq, Eq, Structural)]
pub enum WorkerState {
    /// Holds no job and may receive one.
    Idle,
    /// Holds exactly one job and runs it to completion.
    Running,
    /// Has left its loop for good and never receives again.
    Stopped,
}

/// A worker as a mathematical value: its state, and for a running worker
/// the ticket of the job it holds.
pub enum WorkerView {
    Idle,
    Running { ticket: nat },
    Stopped,
}

impl WorkerView {
    /// The state without the ticket.
    pub open spec fn state(self) -> WorkerState {
        match self {
            WorkerView::Idle => WorkerState::Idle,
            WorkerView::Running { .. } => WorkerState::Running,
            WorkerView::Stopped => WorkerState::Stopped,
        }
    }

    /// A worker is alive until it has stopped.
    pub open spec fn is_alive(self) -> bool {
        !(self is Stopped)
    }
}

/// The predicate "is idle", for counting.
pub open spec fn idle() -> spec_fn(WorkerView) -> bool {
    |w: WorkerView| w is Idle
}

/// The predicate "is running", for counting.
pub open spec fn running() -> spec_fn(WorkerView) -> bool {
    |w: WorkerView| w is Running
}

/// The predicate "is alive", for counting.
pub open spec fn alive() -> spec_fn(WorkerView) -> bool {
    |w: WorkerView| w.is_alive()
}

/// One worker of a pool.
pub struct Worker {
    id: usize,
    state: WorkerState,
    ticket: Ghost<nat>,
}

impl View for Worker {
    type V = WorkerView;

    closed spec fn view(&self) -> WorkerView {
        match self.state {
            WorkerState::Idle => WorkerView::Idle,
            WorkerState::Running => WorkerView::Running { ticket: self.ticket@ },
            WorkerState::Stopped => WorkerView::Stopped,
        }
    }
}

impl Worker {
    /// The worker's ordinal index, as a natural number.
    pub closed spec fn index(&self) -> nat {
        self.id as nat
    }

    /// A new worker with index `id`, idle.
    pub fn new(id: usize) -> (worker: Worker)
        ensures
            worker.index() == id,
            worker@ == WorkerView::Idle,
    {
        Worker { id, state: WorkerState::Idle, ticket: Ghost(0) }
    }

    /// The worker's ordinal index.
    pub fn id(&self) -> (id: usize)
        ensures
            id == self.index(),
    {
        self.id
    }

    /// The worker's state.
    pub fn state(&self) -> (state: WorkerState)
        ensures
            state == self@.state(),
    {
        self.state
    }

    /// The same worker, now holding the job with the given ticket.
    pub(crate) fn started(&self, ticket: Ghost<nat>) -> (worker: Worker)
        ensures
            worker.index() == self.index(),
            worker@ == (WorkerView::Running { ticket: ticket@ }),
    {
        Worker { id: self.id, state: WorkerState::Running, ticket }
    }

    /// The same worker, holding no job again.
    pub(crate) fn released(&self) -> (worker: Worker)
        ensures
            worker.index() == self.index(),
            worker@ == WorkerView::Idle,
    {
        Worker { id: self.id, state: WorkerState::Idle, ticket: Ghost(0) }
    }

    /// The same worker, out of its loop for good.
    pub(crate) fn stopped(&self) -> (worker: Worker)
        ensures
            worker.index() == self.index(),
            worker@ == WorkerView::Stopped,
    {
        Worker { id: self.id, state: WorkerState::Stopped, ticket: Ghost(0) }
    }
}

} // verus!
