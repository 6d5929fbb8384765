//! The worker pool: a fixed set of workers and the job queue they share.
use crate::job_queue::{JobQueue, QueueClosed, Received};
use crate::model::{alive_count, running_count, Dispatch, Execution, PoolView};
use crate::preservation::{
    lemma_alive_worker_counts, lemma_complete_wf, lemma_counts_after_update, lemma_disconnect_wf,
    lemma_fault_wf, lemma_fresh_wf, lemma_poll_wf, lemma_submit_wf,
};
use crate::tally::lemma_tally_bounded;
use crate::worker::{running, Worker, WorkerState, WorkerView};
use vstd::prelude::*;

verus! {

/// Whether a pool of `size` workers can be built: a pool has at least one
/// worker.
pub fn valid_pool_size(size: usize) -> (valid: bool)
    ensures
        valid == (size > 0),
{
    size > 0
}

/// A fixed-size pool of workers fed by one first-in, first-out job queue.
///
/// The pool is a sequential value: whoever shares it among threads calls
/// its methods one at a time. `J` is the job, opaque to the pool.
pub struct ThreadPool<J> {
    workers: Vec<Worker>,
    queue: JobQueue<J>,
    running: usize,
    alive: usize,
    started: Ghost<Seq<Execution>>,
    finished: Ghost<Seq<nat>>,
}

impl<J> View for ThreadPool<J> {
    type V = PoolView<J>;

    closed spec fn view(&self) -> PoolView<J> {
        PoolView {
            workers: self.workers@.map_values(|w: Worker| w@),
            queue: self.queue@,
            started: self.started@,
            finished: self.finished@,
        }
    }
}

impl<J> ThreadPool<J> {
    /// The stored counters and indices agree with the view.
    pub closed spec fn coherent(&self) -> bool {
        &&& self.queue.coherent()
        &&& self.running == running_count(self@.workers)
        &&& self.alive == alive_count(self@.workers)
        &&& self.indexed()
    }

    /// Every worker stands at the place of its index.
    pub closed spec fn indexed(&self) -> bool {
        forall|i: int| 0 <= i < self.workers@.len() ==> (#[trigger] self.workers@[i]).index() == i
    }

    /// The pool's invariant.
    pub open spec fn wf(&self) -> bool {
        self@.wf() && self.coherent()
    }

    /// A pool of `size` idle workers with an empty, open queue.
    pub fn new(size: usize) -> (pool: Self)
        requires
            size > 0,
        ensures
            pool.wf(),
            pool@ == PoolView::<J>::fresh(size as nat),
    {
        let mut workers: Vec<Worker> = Vec::new();
        let mut id: usize = 0;
        while id < size
            invariant
                id <= size,
                workers@.len() == id,
                forall|i: int| 0 <= i < id ==> (#[trigger] workers@[i]).index() == i,
                forall|i: int| 0 <= i < id ==> (#[trigger] workers@[i])@ == WorkerView::Idle,
            decreases size - id,
        {
            workers.push(Worker::new(id));
            id = id + 1;
        }
        let pool = ThreadPool {
            workers,
            queue: JobQueue::new(),
            running: 0,
            alive: size,
            started: Ghost(Seq::empty()),
            finished: Ghost(Seq::empty()),
        };
        proof {
            lemma_fresh_wf::<J>(size as nat);
            assert(pool@.workers =~= PoolView::<J>::fresh(size as nat).workers);
        }
        pool
    }

    /// Submits `job` for execution by some worker.
    ///
    /// While a producer is attached and a worker is alive, the job is
    /// appended behind every job accepted before. Once the queue is torn
    /// down the job comes back in the error and the pool is unchanged.
    pub fn execute(&mut self, job: J) -> (r: Result<(), QueueClosed<J>>)
        requires
            old(self).wf(),
        ensures
            final(self).wf(),
            final(self)@ == old(self)@.submit(job),
            old(self)@.accepting() ==> r == Ok::<(), QueueClosed<J>>(()),
            !old(self)@.accepting() ==> r == Err::<(), QueueClosed<J>>(QueueClosed(job)),
    {
        proof {
            lemma_submit_wf(self@, job);
        }
        self.queue.send(job)
    }

    /// The receive step of worker `worker`'s loop.
    ///
    /// Only an idle worker is answered. It receives the oldest pending job
    /// if there is one; it is told to wait if there is none and a producer
    /// is still attached; it is told to stop, and has stopped, if there is
    /// none and no producer is left.
    pub fn next_job(&mut self, worker: usize) -> (r: Option<Dispatch<J>>)
        requires
            old(self).wf(),
        ensures
            final(self).wf(),
            final(self)@ == old(self)@.poll(worker as int),
            r == old(self)@.answer(worker as int),
    {
        if worker >= self.workers.len() {
            return None;
        }
        match self.workers[worker].state() {
            WorkerState::Idle => {},
            _ => {
                return None;
            },
        }
        proof {
            lemma_poll_wf(self@, worker as int);
            lemma_alive_worker_counts(self@.workers, worker as int);
        }
        match self.queue.recv() {
            Received::Job(job) => {
                let ghost ticket = old(self)@.queue.delivered;
                proof {
                    lemma_counts_after_update(
                        old(self)@.workers,
                        worker as int,
                        WorkerView::Running { ticket },
                    );
                    lemma_tally_bounded(old(self)@.poll(worker as int).workers, running());
                    self.started@ = self.started@.push(Execution { worker: worker as nat, ticket });
                }
                let holder = self.workers[worker].started(Ghost(ticket));
                self.workers.set(worker, holder);
                self.running = self.running + 1;
                assert(self@.workers =~= old(self)@.poll(worker as int).workers);
                Some(Dispatch::Run(job))
            },
            Received::Empty => Some(Dispatch::Wait),
            Received::Disconnected => {
                self.stop_worker(worker);
                Some(Dispatch::Stop)
            },
        }
    }

    /// Worker `worker` reports that its job ran to completion. The worker
    /// is idle again. Returns whether the worker held a job; if it did
    /// not, nothing changes.
    pub fn complete(&mut self, worker: usize) -> (held: bool)
        requires
            old(self).wf(),
        ensures
            final(self).wf(),
            final(self)@ == old(self)@.complete(worker as int),
            held == old(self)@.is_running(worker as int),
    {
        if !self.holds_job(worker) {
            return false;
        }
        proof {
            lemma_complete_wf(self@, worker as int);
            lemma_counts_after_update(self@.workers, worker as int, WorkerView::Idle);
            self.finished@ = self.finished@.push(self@.held(worker as int));
        }
        let freed = self.workers[worker].released();
        self.workers.set(worker, freed);
        self.running = self.running - 1;
        assert(self@.workers =~= old(self)@.complete(worker as int).workers);
        true
    }

    /// Worker `worker` reports that its job raised a fault. The worker has
    /// stopped for good; every other worker is as it was. Returns whether
    /// the worker held a job; if it did not, nothing changes.
    pub fn fault(&mut self, worker: usize) -> (held: bool)
        requires
            old(self).wf(),
        ensures
            final(self).wf(),
            final(self)@ == old(self)@.fault(worker as int),
            held == old(self)@.is_running(worker as int),
    {
        if !self.holds_job(worker) {
            return false;
        }
        proof {
            lemma_fault_wf(self@, worker as int);
            lemma_counts_after_update(self@.workers, worker as int, WorkerView::Stopped);
            self.finished@ = self.finished@.push(self@.held(worker as int));
        }
        self.running = self.running - 1;
        self.stop_worker(worker);
        true
    }

    /// Releases the producing side. Nothing more is accepted; what is
    /// pending is still handed out, and each idle worker is told to stop
    /// once nothing is pending.
    pub fn disconnect(&mut self)
        requires
            old(self).wf(),
        ensures
            final(self).wf(),
            final(self)@ == old(self)@.disconnect(),
    {
        proof {
            lemma_disconnect_wf(self@);
        }
        self.queue.close_sending();
    }

    /// The number of workers, fixed at construction.
    pub fn size(&self) -> (n: usize)
        requires
            self.wf(),
        ensures
            n == self@.size(),
            n > 0,
    {
        self.workers.len()
    }

    /// The number of jobs accepted and not yet handed to a worker.
    pub fn pending(&self) -> (n: usize)
        requires
            self.wf(),
        ensures
            n == self@.pending().len(),
    {
        self.queue.len()
    }

    /// The number of workers that hold a job.
    pub fn running(&self) -> (n: usize)
        requires
            self.wf(),
        ensures
            n == running_count(self@.workers),
    {
        self.running
    }

    /// The number of workers that have not stopped.
    pub fn alive(&self) -> (n: usize)
        requires
            self.wf(),
        ensures
            n == alive_count(self@.workers),
    {
        self.alive
    }

    /// Whether a submission would be accepted now.
    pub fn is_accepting(&self) -> (open: bool)
        requires
            self.wf(),
        ensures
            open == self@.accepting(),
    {
        self.queue.is_open()
    }

    /// The state of worker `worker`, or `None` if the pool has no worker
    /// with that index.
    pub fn worker_state(&self, worker: usize) -> (state: Option<WorkerState>)
        requires
            self.wf(),
        ensures
            worker < self@.size() ==> state == Some(self@.workers[worker as int].state()),
            worker >= self@.size() ==> state.is_none(),
    {
        if worker < self.workers.len() {
            Some(self.workers[worker].state())
        } else {
            None
        }
    }

    /// Whether `worker` is the index of a worker that holds a job.
    fn holds_job(&self, worker: usize) -> (held: bool)
        requires
            self.wf(),
        ensures
            held == self@.is_running(worker as int),
    {
        if worker >= self.workers.len() {
            return false;
        }
        match self.workers[worker].state() {
            WorkerState::Running => true,
            _ => false,
        }
    }

    /// Marks the live worker `worker` as stopped and releases the queue's
    /// consuming end if it was the last one alive. The count of running
    /// workers must already leave this worker out.
    fn stop_worker(&mut self, worker: usize)
        requires
            worker < old(self)@.size(),
            old(self)@.workers[worker as int].is_alive(),
            old(self).queue.wf(),
            old(self).alive == alive_count(old(self)@.workers),
            old(self).running == running_count(
                old(self)@.workers.update(worker as int, WorkerView::Stopped),
            ),
            old(self).indexed(),
        ensures
            final(self)@ == old(self)@.with_stopped(worker as int),
            final(self).coherent(),
    {
        proof {
            lemma_counts_after_update(self@.workers, worker as int, WorkerView::Stopped);
            lemma_alive_worker_counts(self@.workers, worker as int);
        }
        let gone = self.workers[worker].stopped();
        self.workers.set(worker, gone);
        self.alive = self.alive - 1;
        assert(self@.workers =~= old(self)@.workers.update(worker as int, WorkerView::Stopped));
        if self.alive == 0 {
            self.queue.close_receiving();
        }
    }
}

} // verus!
