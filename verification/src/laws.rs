//! What the pool guarantees, in every state it can reach.
//!
//! Each law is stated of a pool that satisfies the invariant. A new pool
//! satisfies it and every event preserves it, so the laws hold after any
//! sequence of events; `law_reachable_pools_are_wf` says so.
use crate::model::{
    alive_count, idle_count, running_count, Dispatch, Event, Execution, PoolView,
};
use crate::preservation::{
    lemma_alive_worker_counts, lemma_complete_wf, lemma_counts_after_update, lemma_fresh_wf,
    lemma_poll_wf, lemma_run_wf,
};
use crate::tally::{lemma_tally_bounded, lemma_tally_full, lemma_tally_split, lemma_tally_zero};
use crate::worker::{alive, idle, running, WorkerView};
use vstd::prelude::*;

verus! {

/// Whatever happens to a pool of at least one worker, in whatever order,
/// the pool satisfies its invariant afterwards.
pub proof fn law_reachable_pools_are_wf<J>(size: nat, events: Seq<Event<J>>)
    requires
        size > 0,
    ensures
        PoolView::<J>::fresh(size).run(events).wf(),
{
    lemma_fresh_wf::<J>(size);
    lemma_run_wf(PoolView::<J>::fresh(size), events);
}

/// The size of a pool is fixed at construction: no event changes the
/// number of workers.
pub proof fn law_size_is_fixed<J>(pool: PoolView<J>, events: Seq<Event<J>>)
    ensures
        pool.run(events).size() == pool.size(),
    decreases events.len(),
{
    if events.len() > 0 {
        law_size_is_fixed(pool, events.drop_last());
    }
}

/// A pool has at least one worker, and only such a pool accepts a job:
/// there is no pool of size zero to submit to.
pub proof fn law_pool_has_a_worker<J>(pool: PoolView<J>)
    requires
        pool.wf(),
    ensures
        pool.size() > 0,
        pool.accepting() ==> alive_count(pool.workers) > 0,
{
}

/// Every accepted job leaves the queue at most once and goes to exactly
/// one worker.
///
/// Each accepted job is either still pending or on record as started, and
/// never both; no two records name the same job; no two running workers
/// hold the same job; no job finishes twice, and none finishes without
/// having started. Once nothing is pending and nothing is running, the
/// jobs that finished are exactly the jobs that were accepted: as many
/// executions as submissions, each job once.
pub proof fn law_each_job_runs_once<J>(pool: PoolView<J>)
    requires
        pool.wf(),
    ensures
        pool.started.len() + pool.pending().len() == pool.queue.accepted.len(),
        forall|t: int| 0 <= t < pool.started.len() ==> (#[trigger] pool.started[t]).ticket == t,
        forall|s: int, t: int|
            0 <= s < pool.started.len() && 0 <= t < pool.started.len() && s != t ==> (
            #[trigger] pool.started[s]).ticket != (#[trigger] pool.started[t]).ticket,
        forall|v: int, w: int|
            pool.is_running(v) && pool.is_running(w) && v != w ==> #[trigger] pool.held(v)
                != #[trigger] pool.held(w),
        pool.finished.no_duplicates(),
        forall|i: int|
            0 <= i < pool.finished.len() ==> #[trigger] pool.finished[i] < pool.started.len(),
        pool.finished.len() + running_count(pool.workers) == pool.started.len(),
        pool.drained() ==> pool.finished.len() == pool.queue.accepted.len(),
        pool.drained() ==> forall|t: nat|
            t < pool.queue.accepted.len() ==> pool.finished.contains(t),
{
    assert forall|i: int, j: int|
        0 <= i < pool.finished.len() && 0 <= j < pool.finished.len() && i != j implies
        pool.finished[i] != pool.finished[j] by {
        // Two places with one ticket would be two jobs of one worker, and
        // those are in strictly increasing order.
        if i < j {
            assert(pool.finished[i] != pool.finished[j]);
        } else {
            assert(pool.finished[j] != pool.finished[i]);
        }
    }
    if pool.drained() {
        // No worker holds a job, so every started job has finished.
        lemma_tally_zero(pool.workers, running());
        assert forall|t: nat| t < pool.queue.accepted.len() implies pool.finished.contains(t) by {
            assert(!(pool.workers[pool.receiver(t)] is Running));
        }
    }
}

/// Jobs leave the queue in the order in which they were accepted: an idle
/// worker that polls while jobs are pending receives the oldest of them,
/// which is the accepted job whose ticket is the number of jobs started
/// before, and the rest stay pending in their order.
pub proof fn law_oldest_job_first<J>(pool: PoolView<J>, w: int)
    requires
        pool.wf(),
        pool.is_idle(w),
        pool.pending().len() > 0,
    ensures
        pool.answer(w) == Some(Dispatch::Run(pool.pending()[0])),
        pool.pending()[0] == pool.queue.accepted[pool.started.len() as int],
        pool.poll(w).workers[w] == (WorkerView::Running { ticket: pool.started.len() }),
        pool.poll(w).pending() == pool.pending().skip(1),
{
    lemma_alive_worker_counts(pool.workers, w);
}

/// A polling worker is kept waiting only while nothing is pending: with an
/// idle worker and a pending job, the next poll of that worker starts the
/// job.
pub proof fn law_idle_worker_is_answered<J>(pool: PoolView<J>, w: int)
    requires
        pool.wf(),
        pool.is_idle(w),
    ensures
        pool.answer(w) is Some,
        pool.answer(w) matches Some(Dispatch::Run(_)) <==> pool.pending().len() > 0,
        pool.answer(w) == Some(Dispatch::<J>::Wait) <==> pool.pending().len() == 0
            && pool.queue.sending,
        pool.answer(w) == Some(Dispatch::<J>::Stop) <==> pool.pending().len() == 0
            && !pool.queue.sending,
{
    lemma_alive_worker_counts(pool.workers, w);
}

/// A pool that accepts jobs accepts all of a producer's jobs in the order
/// of submission, and a submission touches nothing but the queue.
pub proof fn law_submissions_keep_their_order<J>(pool: PoolView<J>, jobs: Seq<J>)
    requires
        pool.wf(),
        pool.accepting(),
    ensures
        pool.submit_all(jobs).wf(),
        pool.submit_all(jobs).accepting(),
        pool.submit_all(jobs).queue.accepted == pool.queue.accepted + jobs,
        pool.submit_all(jobs).pending() == pool.pending() + jobs,
        pool.submit_all(jobs).workers == pool.workers,
        pool.submit_all(jobs).started == pool.started,
        pool.submit_all(jobs).finished == pool.finished,
    decreases jobs.len(),
{
    if jobs.len() > 0 {
        law_submissions_keep_their_order(pool, jobs.drop_last());
    }
}

/// A new pool that is given `jobs` and then served by any one of its
/// workers runs every job exactly once: as many executions as jobs, the
/// `i`-th execution that of the `i`-th job, nothing left pending and
/// nothing left running.
pub proof fn law_every_submitted_job_runs<J>(size: nat, jobs: Seq<J>, w: int)
    requires
        size > 0,
        0 <= w < size,
    ensures
        ({
            let done = PoolView::<J>::fresh(size).submit_all(jobs).serve(w, jobs.len());
            &&& done.wf()
            &&& done.drained()
            &&& done.queue.accepted == jobs
            &&& done.started.len() == jobs.len()
            &&& done.finished.len() == jobs.len()
            &&& forall|i: int|
                0 <= i < jobs.len() ==> #[trigger] done.started[i] == (Execution {
                    worker: w as nat,
                    ticket: i as nat,
                })
            &&& forall|i: int| 0 <= i < jobs.len() ==> #[trigger] done.finished[i] == i
        }),
{
    let fresh = PoolView::<J>::fresh(size);
    let loaded = fresh.submit_all(jobs);
    lemma_fresh_wf::<J>(size);
    law_submissions_keep_their_order(fresh, jobs);
    law_live_worker_drains_queue(loaded, w, jobs.len());
}

/// One live worker is enough for every accepted job to run: an idle
/// worker that polls and completes `rounds` times, with at least that many
/// jobs pending, starts and finishes the `rounds` oldest pending jobs, one
/// after the other in the order of their tickets, and leaves the rest
/// pending and every other worker as it was.
pub proof fn law_live_worker_drains_queue<J>(pool: PoolView<J>, w: int, rounds: nat)
    requires
        pool.wf(),
        pool.is_idle(w),
        rounds <= pool.pending().len(),
    ensures
        pool.serve(w, rounds).wf(),
        pool.serve(w, rounds).workers == pool.workers,
        pool.serve(w, rounds).queue.accepted == pool.queue.accepted,
        pool.serve(w, rounds).pending() == pool.pending().skip(rounds as int),
        pool.serve(w, rounds).started.len() == pool.started.len() + rounds,
        pool.serve(w, rounds).finished == pool.finished + Seq::new(
            rounds,
            |i: int| (pool.started.len() + i) as nat,
        ),
        forall|i: int|
            0 <= i < rounds ==> #[trigger] pool.serve(w, rounds).started[pool.started.len() + i]
                == (Execution { worker: w as nat, ticket: (pool.started.len() + i) as nat }),
    decreases rounds,
{
    if rounds > 0 {
        // The last round: the worker is idle again after the rounds before,
        // receives the oldest job still pending and completes it.
        let before = pool.serve(w, (rounds - 1) as nat);
        law_live_worker_drains_queue(pool, w, (rounds - 1) as nat);
        lemma_alive_worker_counts(before.workers, w);
        lemma_poll_wf(before, w);
        lemma_complete_wf(before.poll(w), w);
    }
}

/// In a strictly increasing sequence of naturals, entries that are `j - i`
/// places apart differ by at least `j - i`.
proof fn lemma_increasing_gap(s: Seq<nat>, i: int, j: int)
    requires
        forall|a: int, b: int| 0 <= a < b < s.len() ==> #[trigger] s[a] < #[trigger] s[b],
        0 <= i <= j < s.len(),
    ensures
        s[j] - s[i] >= j - i,
    decreases j - i,
{
    if i < j {
        lemma_increasing_gap(s, i, j - 1);
    }
}

/// With exactly one worker, executions happen one at a time and in the
/// order of submission: the worker holds at most one job, and the `i`-th
/// job to finish is the `i`-th job that was accepted.
pub proof fn law_single_worker_is_fifo<J>(pool: PoolView<J>)
    requires
        pool.wf(),
        pool.size() == 1,
    ensures
        pool.started.len() <= pool.finished.len() + 1,
        forall|t: int| 0 <= t < pool.started.len() ==> (#[trigger] pool.started[t]).worker == 0,
        forall|i: int| 0 <= i < pool.finished.len() ==> #[trigger] pool.finished[i] == i,
        pool.is_running(0) ==> pool.held(0) == pool.finished.len(),
{
    let n = pool.finished.len() as int;
    lemma_tally_bounded(pool.workers, running());
    lemma_tally_full(pool.workers, running());
    // Every job went to worker 0, so the finished tickets increase
    // strictly; all of them are below their number, the held ticket
    // being the largest started. Such a sequence counts up from zero.
    assert forall|i: int| 0 <= i < n implies #[trigger] pool.finished[i] == i by {
        lemma_increasing_gap(pool.finished, 0, i);
        lemma_increasing_gap(pool.finished, i, n - 1);
    }
}

/// Whatever the number of workers, the jobs that one worker has finished
/// ended in the order of their tickets, and the job it holds now is newer
/// than all of them: a worker runs one job at a time, in the order in
/// which it received them.
pub proof fn law_worker_runs_in_order<J>(pool: PoolView<J>, i: int, j: int)
    requires
        pool.wf(),
        0 <= i < j < pool.finished.len(),
        pool.receiver(pool.finished[i]) == pool.receiver(pool.finished[j]),
    ensures
        pool.finished[i] < pool.finished[j],
        pool.is_running(pool.receiver(pool.finished[j])) ==> pool.finished[j] < pool.held(
            pool.receiver(pool.finished[j]),
        ),
{
}

/// At most as many jobs run at once as there are workers alive, and no
/// worker that could run a pending job is left out once the pool has
/// settled.
///
/// The workers alive are the idle and the running ones. The jobs accepted
/// and not finished are the running and the pending ones. When no idle
/// worker could receive a job, the number of running jobs is the smaller
/// of the number of workers alive and the number of unfinished jobs, and
/// all the others are pending.
pub proof fn law_concurrency_is_bounded<J>(pool: PoolView<J>)
    requires
        pool.wf(),
    ensures
        idle_count(pool.workers) + running_count(pool.workers) == alive_count(pool.workers),
        alive_count(pool.workers) <= pool.size(),
        running_count(pool.workers) + pool.pending().len() == pool.outstanding(),
        pool.settled() ==> running_count(pool.workers) == if alive_count(pool.workers)
            <= pool.outstanding() {
            alive_count(pool.workers) as int
        } else {
            pool.outstanding()
        },
{
    lemma_tally_split(pool.workers, idle(), running(), alive());
    lemma_tally_bounded(pool.workers, alive());
}

/// A pool whose workers are all alive, given more unfinished jobs than it
/// has workers, runs exactly one job on each worker once it has settled
/// and keeps the excess pending.
pub proof fn law_excess_jobs_wait<J>(pool: PoolView<J>, excess: nat)
    requires
        pool.wf(),
        alive_count(pool.workers) == pool.size(),
        pool.outstanding() == pool.size() + excess,
        pool.settled(),
    ensures
        running_count(pool.workers) == pool.size(),
        pool.pending().len() == excess,
        forall|w: int| 0 <= w < pool.size() ==> #[trigger] pool.workers[w] is Running,
{
    law_concurrency_is_bounded(pool);
    lemma_tally_full(pool.workers, running());
}

/// While every worker alive holds a job, pending jobs stay pending: no
/// poll starts another job until a worker reports the end of its own.
pub proof fn law_full_pool_keeps_jobs_pending<J>(pool: PoolView<J>, w: int)
    requires
        pool.wf(),
        idle_count(pool.workers) == 0,
    ensures
        pool.answer(w).is_none(),
        pool.poll(w) == pool,
{
    lemma_tally_zero(pool.workers, idle());
}

/// A fault stops the worker that ran the faulting job and no other: every
/// other worker is as it was, nothing pending is lost, and the pool goes on
/// accepting jobs exactly if it did before and another worker is alive.
pub proof fn law_fault_is_isolated<J>(pool: PoolView<J>, w: int)
    requires
        pool.wf(),
        pool.is_running(w),
    ensures
        pool.fault(w).workers[w] is Stopped,
        forall|v: int|
            0 <= v < pool.size() && v != w ==> #[trigger] pool.fault(w).workers[v]
                == pool.workers[v],
        pool.fault(w).pending() == pool.pending(),
        pool.fault(w).size() == pool.size(),
        alive_count(pool.fault(w).workers) == alive_count(pool.workers) - 1,
        pool.fault(w).accepting() <==> pool.accepting() && alive_count(pool.workers) > 1,
{
    lemma_counts_after_update(pool.workers, w, WorkerView::Stopped);
    lemma_alive_worker_counts(pool.workers, w);
}

/// A worker that has stopped stays stopped: no event brings it back.
pub proof fn law_stopped_worker_stays_stopped<J>(pool: PoolView<J>, w: int, event: Event<J>)
    requires
        0 <= w < pool.size(),
        pool.workers[w] is Stopped,
    ensures
        pool.step(event).workers[w] is Stopped,
{
}

} // verus!
