use vstd::prelude::*;
use crate::pool::{PoolModel, WorkerStep};

verus! {

/// The pool after `jobs` are submitted one after another.
pub open spec fn submit_all<J>(m: PoolModel<J>, jobs: Seq<J>) -> PoolModel<J>
    decreases jobs.len(),
{
    if jobs.len() == 0 {
        m
    } else {
        submit_all(m.submit(jobs[0]), jobs.drop_first())
    }
}

/// The pool after `k` polls by idle workers.
pub open spec fn after_polls<J>(m: PoolModel<J>, k: nat) -> PoolModel<J>
    decreases k,
{
    if k == 0 {
        m
    } else {
        after_polls(m.poll(), (k - 1) as nat)
    }
}

/// The jobs handed out by `k` polls by idle workers, in the order of the polls.
pub open spec fn handed_out<J>(m: PoolModel<J>, k: nat) -> Seq<J>
    decreases k,
{
    if k == 0 {
        Seq::empty()
    } else {
        let rest = handed_out(m.poll(), (k - 1) as nat);
        match m.poll_step() {
            WorkerStep::Run(job) => seq![job] + rest,
            _ => rest,
        }
    }
}

/// The pool after `k` running jobs terminate abnormally, one after another.
pub open spec fn after_failures<J>(m: PoolModel<J>, k: nat) -> PoolModel<J>
    decreases k,
{
    if k == 0 {
        m
    } else {
        after_failures(m.fail_job(), (k - 1) as nat)
    }
}

proof fn lemma_submit_all<J>(m: PoolModel<J>, jobs: Seq<J>)
    requires
        m.spawned <= m.max,
    ensures
        submit_all(m, jobs).queue == m.queue + jobs,
        submit_all(m, jobs).spawned == if m.spawned + jobs.len() <= m.max {
            m.spawned + jobs.len()
        } else {
            m.max
        },
        submit_all(m, jobs).active == m.active,
        submit_all(m, jobs).min == m.min,
        submit_all(m, jobs).max == m.max,
        submit_all(m, jobs).closed == m.closed,
        submit_all(m, jobs).failures == m.failures,
    decreases jobs.len(),
{
    if jobs.len() > 0 {
        lemma_submit_all(m.submit(jobs[0]), jobs.drop_first());
        assert(m.queue.push(jobs[0]) + jobs.drop_first() =~= m.queue + jobs);
    } else {
        assert(m.queue + jobs =~= m.queue);
    }
}

proof fn lemma_polls_drain_queue<J>(m: PoolModel<J>)
    requires
        m.active + m.queue.len() <= m.max,
    ensures
        handed_out(m, m.queue.len()) == m.queue,
        after_polls(m, m.queue.len()).queue.len() == 0,
        after_polls(m, m.queue.len()).active == m.active + m.queue.len(),
        after_polls(m, m.queue.len()).spawned == m.spawned,
        after_polls(m, m.queue.len()).min == m.min,
        after_polls(m, m.queue.len()).max == m.max,
        after_polls(m, m.queue.len()).failures == m.failures,
    decreases m.queue.len(),
{
    if m.queue.len() > 0 {
        let next = m.poll();
        assert(next.queue.len() == m.queue.len() - 1);
        lemma_polls_drain_queue(next);
        assert(handed_out(m, m.queue.len()) == seq![m.queue[0]] + handed_out(next, next.queue.len()));
        assert(seq![m.queue[0]] + m.queue.drop_first() =~= m.queue);
    }
}

/// Jobs submitted to a pool with room to run them all at once are handed to
/// workers exactly once each, in the order of submission, and then no job is
/// left to hand out.
pub proof fn lemma_every_job_handed_out_once<J>(m: PoolModel<J>, jobs: Seq<J>)
    requires
        m.wf(),
        m.within_bounds(),
        m.queue.len() == 0,
        m.active + jobs.len() <= m.max,
    ensures
        handed_out(submit_all(m, jobs), jobs.len()) == jobs,
        after_polls(submit_all(m, jobs), jobs.len()).queue.len() == 0,
        after_polls(submit_all(m, jobs), jobs.len()).active == m.active + jobs.len(),
{
    lemma_submit_all(m, jobs);
    assert(m.queue + jobs =~= jobs);
    lemma_polls_drain_queue(submit_all(m, jobs));
}

/// Every step keeps running workers within the live ones and the live ones
/// within the ceiling, except a resize to a lower ceiling; a new pool starts
/// within those bounds.
pub proof fn lemma_bounds_kept<J>(m: PoolModel<J>, job: J, n: nat, name: Option<Seq<char>>, max: nat, initial: nat)
    requires
        m.wf(),
        m.within_bounds(),
    ensures
        crate::pool::valid_sizes(max, initial) ==> PoolModel::<J>::fresh(name, max, initial).within_bounds(),
        m.submit(job).within_bounds(),
        m.active < m.spawned ==> m.poll().within_bounds(),
        m.active >= 1 ==> m.finish_job().within_bounds(),
        m.active >= 1 ==> m.fail_job().within_bounds(),
        n >= m.max ==> m.resize(n).within_bounds(),
        m.close().within_bounds(),
{
}

/// The name of a pool never changes, so that every worker it starts, at
/// creation, on submission, on a resize or to replace a failed one, carries
/// the same name.
pub proof fn lemma_name_kept<J>(m: PoolModel<J>, job: J, n: nat)
    ensures
        m.submit(job).name == m.name,
        m.poll().name == m.name,
        m.finish_job().name == m.name,
        m.fail_job().name == m.name,
        m.resize(n).name == m.name,
        m.close().name == m.name,
{
}

proof fn lemma_failures_of_busy_fixed_pool<J>(m: PoolModel<J>, k: nat)
    requires
        m.min == m.max,
        m.active == k,
        m.spawned == k,
        k <= m.min,
    ensures
        after_failures(m, k).failures == m.failures + k,
        after_failures(m, k).active == 0,
        after_failures(m, k).spawned == if k == 0 { 0nat } else { 1nat },
        after_failures(m, k).queue == m.queue,
        after_failures(m, k).min == m.min,
        after_failures(m, k).max == m.max,
    decreases k,
{
    if k > 0 {
        let next = m.fail_job();
        if k == 1 {
            assert(m.respawns_after_failure());
            assert(after_failures(next, 0) == next);
        } else {
            assert(!m.respawns_after_failure());
            lemma_failures_of_busy_fixed_pool(next, (k - 1) as nat);
        }
    }
}

/// When every worker of a new fixed pool of `n` fails its job, the failure
/// count is `n`, one worker is left alive, and a following batch of `n` jobs
/// brings the pool back to `n` workers that take all of those jobs.
pub proof fn lemma_total_failure_recovers<J>(name: Option<Seq<char>>, n: nat, first: Seq<J>, next: Seq<J>)
    requires
        n >= 1,
        first.len() == n,
        next.len() == n,
    ensures
        after_polls(submit_all(PoolModel::<J>::fresh(name, n, n), first), n).active == n,
        after_failures(after_polls(submit_all(PoolModel::<J>::fresh(name, n, n), first), n), n).failures == n,
        after_failures(after_polls(submit_all(PoolModel::<J>::fresh(name, n, n), first), n), n).active == 0,
        after_failures(after_polls(submit_all(PoolModel::<J>::fresh(name, n, n), first), n), n).spawned == 1,
        submit_all(after_failures(after_polls(submit_all(PoolModel::<J>::fresh(name, n, n), first), n), n), next).spawned == n,
        handed_out(submit_all(after_failures(after_polls(submit_all(PoolModel::<J>::fresh(name, n, n), first), n), n), next), n) == next,
{
    let fresh = PoolModel::<J>::fresh(name, n, n);
    lemma_every_job_handed_out_once(fresh, first);
    lemma_submit_all(fresh, first);
    lemma_polls_drain_queue(submit_all(fresh, first));
    let busy = after_polls(submit_all(fresh, first), n);
    lemma_failures_of_busy_fixed_pool(busy, n);
    let broken = after_failures(busy, n);
    lemma_every_job_handed_out_once(broken, next);
    lemma_submit_all(broken, next);
}

proof fn lemma_closed_polls<J>(m: PoolModel<J>, k: nat)
    requires
        m.closed,
        m.queue.len() == 0,
        k <= m.spawned,
    ensures
        after_polls(m, k).spawned == m.spawned - k,
        after_polls(m, k).active == m.active,
        handed_out(m, k) == Seq::<J>::empty(),
    decreases k,
{
    if k > 0 {
        assert(m.poll_step() == WorkerStep::<J>::Exit);
        lemma_closed_polls(m.poll(), (k - 1) as nat);
    }
}

/// Once the last handle has gone, idle workers facing an empty queue all
/// leave: after one poll each no worker is alive and no job was handed out.
pub proof fn lemma_closed_pool_drains<J>(m: PoolModel<J>)
    requires
        m.wf(),
        m.queue.len() == 0,
        m.active == 0,
    ensures
        after_polls(m.close(), m.spawned).spawned == 0,
        handed_out(m.close(), m.spawned) == Seq::<J>::empty(),
{
    lemma_closed_polls(m.close(), m.spawned);
}

/// Lowering the ceiling stops no running job and starts or stops no worker;
/// while the running jobs fill the new ceiling an idle worker only leaves,
/// and below it no poll raises the running jobs above the ceiling.
pub proof fn lemma_shrink_keeps_busy_workers<J>(m: PoolModel<J>, n: nat)
    requires
        m.wf(),
        n <= m.max,
    ensures
        m.resize(n).active == m.active,
        m.resize(n).spawned == m.spawned,
        m.resize(n).max == n,
        m.active >= m.max ==> m.poll_step() == WorkerStep::<J>::Exit && m.poll().active == m.active,
        m.active < m.max ==> m.poll().active <= m.max,
        m.active >= 1 ==> m.finish_job().active == m.active - 1,
{
}

/// While the pool is open and its floor is under its ceiling, no graceful
/// exit takes the live workers below the floor.
pub proof fn lemma_graceful_exit_keeps_floor<J>(m: PoolModel<J>)
    requires
        m.wf(),
        !m.closed,
        m.min <= m.max,
        m.spawned >= m.min,
    ensures
        m.active < m.spawned ==> m.poll().spawned >= m.min,
        m.active >= 1 ==> m.finish_job().spawned >= m.min,
{
}

/// Raising the ceiling starts exactly the difference in workers at once,
/// with no job submitted.
pub proof fn lemma_grow_spawns_difference<J>(m: PoolModel<J>, n: nat)
    requires
        n > m.max,
    ensures
        m.grow_count(n) == n - m.max,
        m.resize(n).spawned == m.spawned + (n - m.max),
        m.resize(n).max == n,
        m.resize(n).queue == m.queue,
{
}


/// The pool after a running job returns and its worker, unless it left,
/// polls again.
pub open spec fn job_ends<J>(m: PoolModel<J>) -> PoolModel<J> {
    if m.exits_after_job() {
        m.finish_job()
    } else {
        m.finish_job().poll()
    }
}

/// The pool after `k` running jobs end, one after another, each worker
/// polling again unless it left.
pub open spec fn jobs_end<J>(m: PoolModel<J>, k: nat) -> PoolModel<J>
    decreases k,
{
    if k == 0 {
        m
    } else {
        jobs_end(job_ends(m), (k - 1) as nat)
    }
}

proof fn lemma_surplus_leaves<J>(m: PoolModel<J>, k: nat)
    requires
        m.wf(),
        m.active == m.spawned,
        k + m.max <= m.active,
    ensures
        jobs_end(m, k).active == m.active - k,
        jobs_end(m, k).spawned == m.spawned - k,
        jobs_end(m, k).queue == m.queue,
        jobs_end(m, k).min == m.min,
        jobs_end(m, k).max == m.max,
        jobs_end(m, k).wf(),
    decreases k,
{
    if k > 0 {
        assert(!m.exits_after_job());
        assert(m.finish_job().poll_step() == WorkerStep::<J>::Exit);
        lemma_surplus_leaves(job_ends(m), (k - 1) as nat);
    }
}

proof fn lemma_remaining_keep_working<J>(m: PoolModel<J>, k: nat)
    requires
        m.wf(),
        m.active == m.spawned,
        m.active == m.max,
        m.min <= m.max,
        k <= m.queue.len(),
    ensures
        jobs_end(m, k).active == m.max,
        jobs_end(m, k).spawned == m.max,
        jobs_end(m, k).queue == m.queue.subrange(k as int, m.queue.len() as int),
        jobs_end(m, k).min == m.min,
        jobs_end(m, k).max == m.max,
    decreases k,
{
    if k > 0 {
        assert(!m.exits_after_job());
        let next = job_ends(m);
        assert(next.queue == m.queue.drop_first());
        lemma_remaining_keep_working(next, (k - 1) as nat);
        assert(next.queue.subrange((k - 1) as int, next.queue.len() as int)
            =~= m.queue.subrange(k as int, m.queue.len() as int));
    } else {
        assert(m.queue.subrange(0, m.queue.len() as int) =~= m.queue);
    }
}

/// When the ceiling is lowered under the number of busy workers, and jobs
/// enough are queued, then once each of those workers' jobs has ended the
/// surplus workers have left and the new ceiling's worth of workers are
/// busy with the next queued jobs.
pub proof fn lemma_shrink_converges<J>(m: PoolModel<J>, n: nat)
    requires
        m.wf(),
        m.active == m.spawned,
        1 <= n < m.active,
        n <= m.max,
        m.min <= n,
        n <= m.queue.len(),
    ensures
        jobs_end(m.resize(n), m.active).active == n,
        jobs_end(m.resize(n), m.active).spawned == n,
        jobs_end(m.resize(n), m.active).queue == m.queue.subrange(n as int, m.queue.len() as int),
{
    let small = m.resize(n);
    let surplus = (m.active - n) as nat;
    lemma_surplus_leaves(small, surplus);
    let settled = jobs_end(small, surplus);
    lemma_remaining_keep_working(settled, n);
    lemma_jobs_end_split(small, surplus, n);
}

proof fn lemma_jobs_end_split<J>(m: PoolModel<J>, a: nat, b: nat)
    ensures
        jobs_end(m, a + b) == jobs_end(jobs_end(m, a), b),
    decreases a,
{
    if a > 0 {
        lemma_jobs_end_split(job_ends(m), (a - 1) as nat, b);
        assert((a + b - 1) as nat == ((a - 1) as nat + b) as nat);
    }
}

} // verus!
