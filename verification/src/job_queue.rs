//! The job queue: an unbounded channel that hands jobs out in the order in
//! which it accepted them, each to exactly one receiver.
use std::collections::VecDeque;
use vstd::prelude::*;

verus! {

/// The error of a submission to a queue that is torn down. It gives the job
/// back, so that a refused job is never silently lost.
#[derive(Debug, PartialEq, Eq)]
pub struct QueueClosed<J>(pub J);

impl<J> QueueClosed<J> {
    /// The job that was refused.
    pub fn into_job(self) -> (job: J)
        ensures
            job == self.0,
    {
        self.0
    }
}

/// What one attempt to receive from the queue yields.
#[derive(Debug, PartialEq, Eq)]
pub enum Received<J> {
    /// The oldest pending job, now owned by the receiver.
    Job(J),
    /// Nothing is pending, but a producer may still submit.
    Empty,
    /// Nothing will ever be received again.
    Disconnected,
}

/// The queue as a mathematical value: every job it ever accepted, how many
/// of them it has handed out, and which of its two ends are still held.
pub struct JobQueueView<J> {
    /// Every job accepted so far, oldest first. A job's index in this
    /// sequence is its ticket.
    pub accepted: Seq<J>,
    /// The number of jobs handed out; these are the tickets below it.
    pub delivered: nat,
    /// Whether the producing end is still held.
    pub sending: bool,
    /// Whether the consuming end is still held.
    pub receiving: bool,
}

impl<J> JobQueueView<J> {
    /// No more jobs have been handed out than were accepted.
    pub open spec fn wf(self) -> bool {
        self.delivered <= self.accepted.len()
    }

    /// The queue as created: nothing accepted, both ends held.
    pub open spec fn fresh() -> Self {
        JobQueueView { accepted: Seq::empty(), delivered: 0, sending: true, receiving: true }
    }

    /// The jobs accepted and not yet handed out, oldest first.
    pub open spec fn pending(self) -> Seq<J> {
        self.accepted.skip(self.delivered as int)
    }

    /// A queue is open while both of its ends are held.
    pub open spec fn is_open(self) -> bool {
        self.sending && self.receiving
    }

    /// The result of submitting `job`: success on an open queue, else the
    /// job handed back.
    pub open spec fn offer(self, job: J) -> Result<(), QueueClosed<J>> {
        if self.is_open() {
            Ok(())
        } else {
            Err(QueueClosed(job))
        }
    }

    /// The queue after a submission of `job`: an open queue appends it, a
    /// closed one is unchanged.
    pub open spec fn after_send(self, job: J) -> Self {
        if self.is_open() {
            JobQueueView { accepted: self.accepted.push(job), ..self }
        } else {
            self
        }
    }

    /// What a receiver gets now: the oldest pending job if there is one,
    /// even after the producing end is gone; without one, `Empty` while a
    /// producer may still submit and `Disconnected` once none can. A queue
    /// whose consuming end is gone delivers nothing.
    pub open spec fn next(self) -> Received<J> {
        if !self.receiving {
            Received::Disconnected
        } else if self.delivered < self.accepted.len() {
            Received::Job(self.accepted[self.delivered as int])
        } else if self.sending {
            Received::Empty
        } else {
            Received::Disconnected
        }
    }

    /// The queue after one attempt to receive: a delivered job is removed,
    /// otherwise nothing changes.
    pub open spec fn after_recv(self) -> Self {
        if self.next() is Job {
            JobQueueView { delivered: self.delivered + 1, ..self }
        } else {
            self
        }
    }

    /// The queue after its producing end is released.
    pub open spec fn without_sender(self) -> Self {
        JobQueueView { sending: false, ..self }
    }

    /// The queue after its consuming end is released.
    pub open spec fn without_receiver(self) -> Self {
        JobQueueView { receiving: false, ..self }
    }
}

/// An unbounded first-in, first-out queue of jobs with a producing and a
/// consuming end.
pub struct JobQueue<J> {
    pending: VecDeque<J>,
    sending: bool,
    receiving: bool,
    accepted: Ghost<Seq<J>>,
    delivered: Ghost<nat>,
}

impl<J> View for JobQueue<J> {
    type V = JobQueueView<J>;

    closed spec fn view(&self) -> JobQueueView<J> {
        JobQueueView {
            accepted: self.accepted@,
            delivered: self.delivered@,
            sending: self.sending,
            receiving: self.receiving,
        }
    }
}

impl<J> JobQueue<J> {
    /// The stored jobs are exactly the pending ones of the view, in order.
    pub closed spec fn coherent(&self) -> bool {
        self.pending@ =~= self@.pending()
    }

    /// The queue's invariant.
    pub open spec fn wf(&self) -> bool {
        self@.wf() && self.coherent()
    }

    /// A new, empty queue with both ends held.
    pub fn new() -> (queue: Self)
        ensures
            queue.wf(),
            queue@ == JobQueueView::<J>::fresh(),
    {
        JobQueue {
            pending: VecDeque::new(),
            sending: true,
            receiving: true,
            accepted: Ghost(Seq::empty()),
            delivered: Ghost(0),
        }
    }

    /// Submits `job`. An open queue appends it behind every job accepted
    /// before; a queue with either end released hands it back.
    pub fn send(&mut self, job: J) -> (r: Result<(), QueueClosed<J>>)
        requires
            old(self).wf(),
        ensures
            final(self).wf(),
            r == old(self)@.offer(job),
            final(self)@ == old(self)@.after_send(job),
    {
        if self.sending && self.receiving {
            proof {
                self.accepted@ = self.accepted@.push(job);
            }
            self.pending.push_back(job);
            Ok(())
        } else {
            Err(QueueClosed(job))
        }
    }

    /// Makes one attempt to receive, without waiting.
    pub fn recv(&mut self) -> (r: Received<J>)
        requires
            old(self).wf(),
        ensures
            final(self).wf(),
            r == old(self)@.next(),
            final(self)@ == old(self)@.after_recv(),
    {
        if !self.receiving {
            return Received::Disconnected;
        }
        match self.pending.pop_front() {
            Some(job) => {
                proof {
                    self.delivered@ = self.delivered@ + 1;
                }
                Received::Job(job)
            },
            None => {
                if self.sending {
                    Received::Empty
                } else {
                    Received::Disconnected
                }
            },
        }
    }

    /// Releases the producing end: nothing more is accepted, and what is
    /// pending can still be received.
    pub fn close_sending(&mut self)
        requires
            old(self).wf(),
        ensures
            final(self).wf(),
            final(self)@ == old(self)@.without_sender(),
    {
        self.sending = false;
    }

    /// Releases the consuming end: nothing more is accepted or delivered.
    pub fn close_receiving(&mut self)
        requires
            old(self).wf(),
        ensures
            final(self).wf(),
            final(self)@ == old(self)@.without_receiver(),
    {
        self.receiving = false;
    }

    /// The number of pending jobs.
    pub fn len(&self) -> (n: usize)
        requires
            self.wf(),
        ensures
            n == self@.pending().len(),
    {
        self.pending.len()
    }

    /// Whether no job is pending.
    pub fn is_empty(&self) -> (empty: bool)
        requires
            self.wf(),
        ensures
            empty == (self@.pending().len() == 0),
    {
        self.pending.len() == 0
    }

    /// Whether a submission would be accepted now.
    pub fn is_open(&self) -> (open: bool)
        ensures
            open == self@.is_open(),
    {
        self.sending && self.receiving
    }
}

/// First in, first out: a queue that has accepted `jobs` and nothing else
/// hands them out in exactly that order, the job with ticket `k` at the
/// `k`-th receive.
pub proof fn law_queue_is_fifo<J>(q: JobQueueView<J>, k: nat)
    requires
        q.wf(),
        q.receiving,
        q.delivered == k,
        k < q.accepted.len(),
    ensures
        q.next() == Received::Job(q.accepted[k as int]),
        q.after_recv().delivered == k + 1,
        q.after_recv().accepted == q.accepted,
        q.after_recv().pending() == q.pending().skip(1),
{
}

} // verus!
