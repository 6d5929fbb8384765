//! The pool as a mathematical value, the events that change it, and the
//! invariant that every event preserves.
use crate::job_queue::{JobQueueView, Received};
use crate::tally::tally;
use crate::worker::{alive, idle, running, WorkerView};
use vstd::prelude::*;

verus! {

/// The record of one job leaving the queue: which worker received it, and
/// the job's ticket.
pub struct Execution {
    pub worker: nat,
    pub ticket: nat,
}

/// What a polling worker is told.
#[derive(Debug, PartialEq, Eq)]
pub enum Dispatch<J> {
    /// Run this job to completion, then report how it ended.
    Run(J),
    /// Nothing is pending; poll again when a job may have arrived.
    Wait,
    /// Nothing is pending and no producer is left: leave the loop.
    Stop,
}

/// One thing that can happen to a pool.
pub enum Event<J> {
    /// A producer submits a job.
    Submit(J),
    /// The worker with this index asks for its next job.
    Poll(int),
    /// The worker with this index reports that its job ran to completion.
    Complete(int),
    /// The worker with this index reports that its job raised a fault.
    Fault(int),
    /// The producing side is released.
    Disconnect,
}

/// The pool as a mathematical value.
pub struct PoolView<J> {
    /// The workers by index.
    pub workers: Seq<WorkerView>,
    /// The job queue.
    pub queue: JobQueueView<J>,
    /// One record for each job that left the queue, in the order of leaving.
    pub started: Seq<Execution>,
    /// The tickets of the jobs whose execution has ended, normally or by a
    /// fault, in the order of ending.
    pub finished: Seq<nat>,
}

/// The number of workers that hold no job and may receive one.
pub open spec fn idle_count(workers: Seq<WorkerView>) -> nat {
    tally(workers, idle())
}

/// The number of workers that hold a job.
pub open spec fn running_count(workers: Seq<WorkerView>) -> nat {
    tally(workers, running())
}

/// The number of workers that have not stopped.
pub open spec fn alive_count(workers: Seq<WorkerView>) -> nat {
    tally(workers, alive())
}

impl<J> PoolView<J> {
    /// A pool as created: `size` idle workers and an empty, open queue.
    pub open spec fn fresh(size: nat) -> Self {
        PoolView {
            workers: Seq::new(size, |i: int| WorkerView::Idle),
            queue: JobQueueView::fresh(),
            started: Seq::empty(),
            finished: Seq::empty(),
        }
    }

    /// The number of workers, fixed at construction.
    pub open spec fn size(self) -> nat {
        self.workers.len()
    }

    /// The jobs accepted and not yet handed to a worker, oldest first.
    pub open spec fn pending(self) -> Seq<J> {
        self.queue.pending()
    }

    /// The number of jobs accepted whose execution has not ended: those
    /// pending and those running.
    pub open spec fn outstanding(self) -> int {
        self.queue.accepted.len() - self.finished.len()
    }

    /// Whether a submission is accepted now.
    pub open spec fn accepting(self) -> bool {
        self.queue.is_open()
    }

    /// Whether `w` is the index of an idle worker.
    pub open spec fn is_idle(self, w: int) -> bool {
        0 <= w < self.workers.len() && self.workers[w] is Idle
    }

    /// Whether `w` is the index of a worker that holds a job.
    pub open spec fn is_running(self, w: int) -> bool {
        0 <= w < self.workers.len() && self.workers[w] is Running
    }

    /// No idle worker could receive a job now: none is idle or none is
    /// pending.
    pub open spec fn settled(self) -> bool {
        idle_count(self.workers) == 0 || self.pending().len() == 0
    }

    /// Nothing is pending and nothing is running.
    pub open spec fn drained(self) -> bool {
        self.pending().len() == 0 && running_count(self.workers) == 0
    }

    /// The workers after the one at `w` has stopped, and the queue with its
    /// consuming end released if that was the last worker alive.
    pub open spec fn with_stopped(self, w: int) -> Self {
        let workers = self.workers.update(w, WorkerView::Stopped);
        PoolView {
            workers,
            queue: if alive_count(workers) == 0 {
                self.queue.without_receiver()
            } else {
                self.queue
            },
            ..self
        }
    }

    /// The pool after a producer submits `job`.
    pub open spec fn submit(self, job: J) -> Self {
        PoolView { queue: self.queue.after_send(job), ..self }
    }

    /// What worker `w` is told when it polls: nothing unless it is idle;
    /// else the oldest pending job, or to wait, or to stop.
    pub open spec fn answer(self, w: int) -> Option<Dispatch<J>> {
        if !self.is_idle(w) {
            None
        } else {
            match self.queue.next() {
                Received::Job(job) => Some(Dispatch::Run(job)),
                Received::Empty => Some(Dispatch::Wait),
                Received::Disconnected => Some(Dispatch::Stop),
            }
        }
    }

    /// The pool after worker `w` polls. A poll by anything but an idle
    /// worker changes nothing. An idle worker that receives a job holds it
    /// and is recorded with the job's ticket; one that is told to stop has
    /// stopped; one that is told to wait is unchanged.
    pub open spec fn poll(self, w: int) -> Self {
        if !self.is_idle(w) {
            self
        } else {
            match self.queue.next() {
                Received::Job(_) => PoolView {
                    workers: self.workers.update(
                        w,
                        WorkerView::Running { ticket: self.queue.delivered },
                    ),
                    queue: self.queue.after_recv(),
                    started: self.started.push(
                        Execution { worker: w as nat, ticket: self.queue.delivered },
                    ),
                    ..self
                },
                Received::Empty => self,
                Received::Disconnected => self.with_stopped(w),
            }
        }
    }

    /// The pool after worker `w` reports that its job ran to completion:
    /// the job has finished and the worker is idle. A report by a worker
    /// that holds no job changes nothing.
    pub open spec fn complete(self, w: int) -> Self {
        if self.is_running(w) {
            PoolView {
                workers: self.workers.update(w, WorkerView::Idle),
                finished: self.finished.push(self.held(w)),
                ..self
            }
        } else {
            self
        }
    }

    /// The pool after worker `w` reports that its job raised a fault: the
    /// job has finished and the worker has stopped, for good. No other
    /// worker is touched. A report by a worker that holds no job changes
    /// nothing.
    pub open spec fn fault(self, w: int) -> Self {
        if self.is_running(w) {
            PoolView {
                finished: self.finished.push(self.held(w)),
                ..self
            }.with_stopped(w)
        } else {
            self
        }
    }

    /// The pool after its producing side is released.
    pub open spec fn disconnect(self) -> Self {
        PoolView { queue: self.queue.without_sender(), ..self }
    }

    /// The pool after one event.
    pub open spec fn step(self, event: Event<J>) -> Self {
        match event {
            Event::Submit(job) => self.submit(job),
            Event::Poll(w) => self.poll(w),
            Event::Complete(w) => self.complete(w),
            Event::Fault(w) => self.fault(w),
            Event::Disconnect => self.disconnect(),
        }
    }

    /// The pool after a sequence of events, first to last.
    pub open spec fn run(self, events: Seq<Event<J>>) -> Self
        decreases events.len(),
    {
        if events.len() == 0 {
            self
        } else {
            self.run(events.drop_last()).step(events.last())
        }
    }

    /// The pool after a producer submits `jobs`, first to last.
    pub open spec fn submit_all(self, jobs: Seq<J>) -> Self
        decreases jobs.len(),
    {
        if jobs.len() == 0 {
            self
        } else {
            self.submit_all(jobs.drop_last()).submit(jobs.last())
        }
    }

    /// The pool after worker `w` has `rounds` times polled and then
    /// reported completion.
    pub open spec fn serve(self, w: int, rounds: nat) -> Self
        decreases rounds,
    {
        if rounds == 0 {
            self
        } else {
            self.serve(w, (rounds - 1) as nat).poll(w).complete(w)
        }
    }

    /// The worker that received the job with ticket `t`.
    pub open spec fn receiver(self, t: nat) -> int {
        self.started[t as int].worker as int
    }

    /// The ticket of the job that the running worker `w` holds.
    pub open spec fn held(self, w: int) -> nat {
        self.workers[w]->ticket
    }

    /// Every record carries the ticket of its position and the index of a
    /// worker of this pool; the job it names has finished or is held by
    /// that worker.
    pub open spec fn records_wf(self) -> bool {
        forall|t: int|
            0 <= t < self.started.len() ==> {
                &&& (#[trigger] self.started[t]).ticket == t
                &&& self.started[t].worker < self.workers.len()
                &&& (self.finished.contains(t as nat)
                    || self.workers[self.receiver(t as nat)] == WorkerView::Running {
                    ticket: t as nat,
                })
            }
    }

    /// A running worker holds a job that it received itself, and every job
    /// it finished before has a smaller ticket.
    pub open spec fn runners_wf(self) -> bool {
        &&& forall|w: int|
            0 <= w < self.workers.len() && (#[trigger] self.workers[w]) is Running ==> {
                &&& self.held(w) < self.started.len()
                &&& self.receiver(self.held(w)) == w
            }
        &&& forall|w: int, i: int|
            {
                &&& 0 <= w < self.workers.len()
                &&& 0 <= i < self.finished.len()
                &&& (#[trigger] self.workers[w]) is Running
                &&& self.receiver(#[trigger] self.finished[i]) == w
            } ==> self.finished[i] < self.held(w)
    }

    /// Every finished job was started, and the jobs that one worker
    /// finished did so in the order of their tickets.
    pub open spec fn finished_wf(self) -> bool {
        &&& forall|i: int|
            0 <= i < self.finished.len() ==> #[trigger] self.finished[i] < self.started.len()
        &&& forall|i: int, j: int|
            {
                &&& 0 <= i < j < self.finished.len()
                &&& self.receiver(#[trigger] self.finished[i]) == self.receiver(
                    #[trigger] self.finished[j],
                )
            } ==> self.finished[i] < self.finished[j]
    }

    /// The pool's invariant.
    pub open spec fn wf(self) -> bool {
        &&& self.workers.len() > 0
        &&& self.queue.wf()
        &&& self.queue.receiving == (alive_count(self.workers) > 0)
        &&& self.started.len() == self.queue.delivered
        &&& self.finished.len() + running_count(self.workers) == self.started.len()
        &&& self.records_wf()
        &&& self.runners_wf()
        &&& self.finished_wf()
    }
}

} // verus!
