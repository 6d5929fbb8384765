//! Proofs that a new pool satisfies the invariant and that every event
//! preserves it.
use crate::job_queue::Received;
use crate::model::{alive_count, idle_count, running_count, Event, PoolView};
use crate::tally::{lemma_tally_full, lemma_tally_update, lemma_tally_zero};
use crate::worker::{alive, idle, running, WorkerView};
use vstd::prelude::*;

verus! {

/// How the three counts move when the worker at `w` changes to `next`.
pub proof fn lemma_counts_after_update(workers: Seq<WorkerView>, w: int, next: WorkerView)
    requires
        0 <= w < workers.len(),
    ensures
        idle_count(workers.update(w, next)) + (if workers[w] is Idle { 1nat } else { 0nat })
            == idle_count(workers) + (if next is Idle { 1nat } else { 0nat }),
        running_count(workers.update(w, next)) + (if workers[w] is Running { 1nat } else { 0nat })
            == running_count(workers) + (if next is Running { 1nat } else { 0nat }),
        alive_count(workers.update(w, next)) + (if workers[w].is_alive() { 1nat } else { 0nat })
            == alive_count(workers) + (if next.is_alive() { 1nat } else { 0nat }),
{
    lemma_tally_update(workers, w, next, idle());
    lemma_tally_update(workers, w, next, running());
    lemma_tally_update(workers, w, next, alive());
}

/// A pool with a worker that has not stopped has a positive count of
/// workers alive.
pub proof fn lemma_alive_worker_counts(workers: Seq<WorkerView>, w: int)
    requires
        0 <= w < workers.len(),
        workers[w].is_alive(),
    ensures
        alive_count(workers) > 0,
{
    lemma_tally_zero(workers, alive());
}

/// A new pool of at least one worker satisfies the invariant, with every
/// worker idle.
pub proof fn lemma_fresh_wf<J>(size: nat)
    requires
        size > 0,
    ensures
        PoolView::<J>::fresh(size).wf(),
        idle_count(PoolView::<J>::fresh(size).workers) == size,
        alive_count(PoolView::<J>::fresh(size).workers) == size,
        running_count(PoolView::<J>::fresh(size).workers) == 0,
{
    let pool = PoolView::<J>::fresh(size);
    lemma_tally_full(pool.workers, idle());
    lemma_tally_full(pool.workers, alive());
    lemma_tally_zero(pool.workers, running());
}

/// A submission preserves the invariant.
pub proof fn lemma_submit_wf<J>(pool: PoolView<J>, job: J)
    requires
        pool.wf(),
    ensures
        pool.submit(job).wf(),
{
}

/// Releasing the producing side preserves the invariant.
pub proof fn lemma_disconnect_wf<J>(pool: PoolView<J>)
    requires
        pool.wf(),
    ensures
        pool.disconnect().wf(),
{
}

/// A poll preserves the invariant.
pub proof fn lemma_poll_wf<J>(pool: PoolView<J>, w: int)
    requires
        pool.wf(),
    ensures
        pool.poll(w).wf(),
{
    let next = pool.poll(w);
    if pool.is_idle(w) {
        lemma_alive_worker_counts(pool.workers, w);
        match pool.queue.next() {
            Received::Job(_) => {
                let t = pool.queue.delivered;
                lemma_counts_after_update(pool.workers, w, WorkerView::Running { ticket: t });
                assert forall|u: int| 0 <= u < next.started.len() implies {
                    &&& (#[trigger] next.started[u]).ticket == u
                    &&& next.started[u].worker < next.workers.len()
                    &&& (next.finished.contains(u as nat)
                        || next.workers[next.started[u].worker as int] == WorkerView::Running {
                        ticket: u as nat,
                    })
                } by {
                    if u < pool.started.len() {
                        assert(next.started[u] == pool.started[u]);
                    }
                }
            },
            Received::Empty => {},
            Received::Disconnected => {
                lemma_counts_after_update(pool.workers, w, WorkerView::Stopped);
            },
        }
    }
}

/// The end of a job, normal or by a fault, preserves the invariant.
proof fn lemma_end_wf<J>(pool: PoolView<J>, w: int, next: PoolView<J>, after: WorkerView)
    requires
        pool.wf(),
        pool.is_running(w),
        after is Idle || after is Stopped,
        next.workers == pool.workers.update(w, after),
        next.finished == pool.finished.push(pool.held(w)),
        next.started == pool.started,
        next.queue.wf(),
        next.queue.delivered == pool.queue.delivered,
        next.queue.receiving == (alive_count(next.workers) > 0),
    ensures
        next.wf(),
{
    let t = pool.held(w);
    let n = pool.finished.len() as int;
    lemma_counts_after_update(pool.workers, w, after);
    assert(pool.workers[w] == WorkerView::Running { ticket: t });
    assert(next.finished[n] == t);
    assert forall|u: int| 0 <= u < next.started.len() implies {
        &&& (#[trigger] next.started[u]).ticket == u
        &&& next.started[u].worker < next.workers.len()
        &&& (next.finished.contains(u as nat) || next.workers[next.started[u].worker as int]
            == WorkerView::Running { ticket: u as nat })
    } by {
        if pool.finished.contains(u as nat) {
            let i = choose|i: int| 0 <= i < pool.finished.len() && pool.finished[i] == u as nat;
            assert(next.finished[i] == u as nat);
        } else if pool.started[u].worker == w {
            assert(u == t);
        }
    }
}

/// A report of completion preserves the invariant.
pub proof fn lemma_complete_wf<J>(pool: PoolView<J>, w: int)
    requires
        pool.wf(),
    ensures
        pool.complete(w).wf(),
{
    if pool.is_running(w) {
        lemma_counts_after_update(pool.workers, w, WorkerView::Idle);
        lemma_end_wf(pool, w, pool.complete(w), WorkerView::Idle);
    }
}

/// A report of a fault preserves the invariant.
pub proof fn lemma_fault_wf<J>(pool: PoolView<J>, w: int)
    requires
        pool.wf(),
    ensures
        pool.fault(w).wf(),
{
    if pool.is_running(w) {
        lemma_alive_worker_counts(pool.workers, w);
        lemma_counts_after_update(pool.workers, w, WorkerView::Stopped);
        lemma_end_wf(pool, w, pool.fault(w), WorkerView::Stopped);
    }
}

/// Every event preserves the invariant.
pub proof fn lemma_step_wf<J>(pool: PoolView<J>, event: Event<J>)
    requires
        pool.wf(),
    ensures
        pool.step(event).wf(),
{
    match event {
        Event::Submit(job) => lemma_submit_wf(pool, job),
        Event::Poll(w) => lemma_poll_wf(pool, w),
        Event::Complete(w) => lemma_complete_wf(pool, w),
        Event::Fault(w) => lemma_fault_wf(pool, w),
        Event::Disconnect => lemma_disconnect_wf(pool),
    }
}

/// Every sequence of events preserves the invariant.
pub proof fn lemma_run_wf<J>(pool: PoolView<J>, events: Seq<Event<J>>)
    requires
        pool.wf(),
    ensures
        pool.run(events).wf(),
    decreases events.len(),
{
    if events.len() > 0 {
        lemma_run_wf(pool, events.drop_last());
        lemma_step_wf(pool.run(events.drop_last()), events.last());
    }
}

} // verus!
