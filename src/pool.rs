use vstd::prelude::*;
use std::collections::VecDeque;
use crate::error::PoolError;

verus! {

/// What a worker does next, as decided by `ThreadPool::worker_poll`.
pub enum WorkerStep<J> {
    /// Run this job, which has left the queue; the worker now counts as active.
    Run(J),
    /// Block until a job arrives or the pool closes, then poll again.
    Wait,
    /// Terminate; the worker has already been taken off the spawned count.
    Exit,
}

/// The abstract state of a pool: pending jobs in submission order and the
/// shared counters.
pub struct PoolModel<J> {
    /// The name that every worker carries, if any.
    pub name: Option<Seq<char>>,
    /// Jobs submitted and not yet handed to a worker, oldest first.
    pub queue: Seq<J>,
    /// Whether every handle has gone, so that no job will be submitted again.
    pub closed: bool,
    /// Workers currently running a job.
    pub active: nat,
    /// Workers currently alive, idle or running.
    pub spawned: nat,
    /// The floor that graceful exits respect.
    pub min: nat,
    /// The ceiling on running workers.
    pub max: nat,
    /// Jobs that have terminated abnormally over the pool's lifetime.
    pub failures: nat,
}

/// The sizes a pool may be created with: a positive maximum and a positive
/// initial count no larger than it.
pub open spec fn valid_sizes(max: nat, initial: nat) -> bool {
    max >= 1 && initial >= 1 && initial <= max
}

/// The name of a pool as characters.
pub open spec fn name_view(name: Option<String>) -> Option<Seq<char>> {
    match name {
        Some(s) => Some(s@),
        None => None,
    }
}

impl<J> PoolModel<J> {
    /// A new pool whose `initial` workers have all been started.
    pub open spec fn fresh(name: Option<Seq<char>>, max: nat, initial: nat) -> Self {
        PoolModel {
            name,
            queue: Seq::empty(),
            closed: false,
            active: 0,
            spawned: initial,
            min: initial,
            max,
            failures: 0,
        }
    }

    /// No more workers run than are alive, and floor and ceiling are positive.
    pub open spec fn wf(self) -> bool {
        self.active <= self.spawned && self.min >= 1 && self.max >= 1
    }

    /// Running workers within the spawned ones, spawned ones within the
    /// ceiling, and the floor under the ceiling.
    pub open spec fn within_bounds(self) -> bool {
        self.active <= self.spawned && self.spawned <= self.max && self.min <= self.max
    }

    /// Whether submitting a job starts one more worker.
    pub open spec fn spawns_on_submit(self) -> bool {
        self.spawned < self.max
    }

    /// The pool after `job` is submitted.
    pub open spec fn submit(self, job: J) -> Self {
        PoolModel {
            queue: self.queue.push(job),
            spawned: if self.spawns_on_submit() { self.spawned + 1 } else { self.spawned },
            ..self
        }
    }

    /// What an idle worker does: leave when the running workers already fill
    /// the ceiling, else take the oldest job, else leave once the pool has
    /// closed, else wait.
    pub open spec fn poll_step(self) -> WorkerStep<J> {
        if self.active >= self.max {
            WorkerStep::Exit
        } else if self.queue.len() > 0 {
            WorkerStep::Run(self.queue[0])
        } else if self.closed {
            WorkerStep::Exit
        } else {
            WorkerStep::Wait
        }
    }

    /// The pool after an idle worker polls.
    pub open spec fn poll(self) -> Self {
        match self.poll_step() {
            WorkerStep::Run(_) => PoolModel {
                queue: self.queue.drop_first(),
                active: self.active + 1,
                ..self
            },
            WorkerStep::Wait => self,
            WorkerStep::Exit => PoolModel { spawned: (self.spawned - 1) as nat, ..self },
        }
    }

    /// Whether a worker whose job has just returned leaves the pool: only in
    /// a pool whose floor and ceiling differ, when no job is running any more
    /// and more workers are alive than the floor.
    pub open spec fn exits_after_job(self) -> bool {
        self.min != self.max && self.active == 1 && self.spawned > self.min
    }

    /// The pool after a job returns normally.
    pub open spec fn finish_job(self) -> Self {
        PoolModel {
            active: (self.active - 1) as nat,
            spawned: if self.exits_after_job() { (self.spawned - 1) as nat } else { self.spawned },
            ..self
        }
    }

    /// Whether a failed worker is replaced: only when its job was the last
    /// one running and, without it, the pool is at or below its floor.
    pub open spec fn respawns_after_failure(self) -> bool {
        self.active == 1 && self.spawned - 1 <= self.min
    }

    /// The pool after a job terminates abnormally, taking its worker with it.
    pub open spec fn fail_job(self) -> Self {
        PoolModel {
            failures: self.failures + 1,
            active: (self.active - 1) as nat,
            spawned: if self.respawns_after_failure() { self.spawned } else { (self.spawned - 1) as nat },
            ..self
        }
    }

    /// How many workers are started when the ceiling becomes `n`.
    pub open spec fn grow_count(self, n: nat) -> nat {
        if n > self.max { (n - self.max) as nat } else { 0 }
    }

    /// The pool after its ceiling becomes `n`.
    pub open spec fn resize(self, n: nat) -> Self {
        PoolModel { max: n, spawned: self.spawned + self.grow_count(n), ..self }
    }

    /// The pool after its last handle has gone.
    pub open spec fn close(self) -> Self {
        PoolModel { closed: true, ..self }
    }
}

/// A pool of workers that run submitted jobs, with a floor and a ceiling on
/// their number that the pool converges to.
pub struct ThreadPool<J> {
    name: Option<String>,
    queue: VecDeque<J>,
    closed: bool,
    active: usize,
    spawned: usize,
    min: usize,
    max: usize,
    panics: usize,
}

impl<J> View for ThreadPool<J> {
    type V = PoolModel<J>;

    closed spec fn view(&self) -> PoolModel<J> {
        PoolModel {
            name: name_view(self.name),
            queue: self.queue@,
            closed: self.closed,
            active: self.active as nat,
            spawned: self.spawned as nat,
            min: self.min as nat,
            max: self.max as nat,
            failures: self.panics as nat,
        }
    }
}


impl<J> ThreadPool<J> {
    fn new_pool(name: Option<String>, num_threads: usize, num_initial_threads: usize) -> (r: Result<Self, PoolError>)
        ensures
            r is Ok <==> valid_sizes(num_threads as nat, num_initial_threads as nat),
            r matches Ok(p) ==> p@ == PoolModel::<J>::fresh(name_view(name), num_threads as nat, num_initial_threads as nat),
            r matches Err(e) ==> e == PoolError::InvalidConfiguration,
    {
        if num_threads < 1 || num_initial_threads < 1 || num_initial_threads > num_threads {
            return Err(PoolError::InvalidConfiguration);
        }
        let pool = ThreadPool {
            name,
            queue: VecDeque::new(),
            closed: false,
            active: 0,
            spawned: num_initial_threads,
            min: num_initial_threads,
            max: num_threads,
            panics: 0,
        };
        assert(pool@.queue =~= Seq::<J>::empty());
        Ok(pool)
    }

    /// A pool of `num_threads` workers, all started at once, whose floor and
    /// ceiling are both `num_threads`.
    pub fn new(num_threads: usize) -> (r: Result<Self, PoolError>)
        ensures
            r is Ok <==> num_threads >= 1,
            r matches Ok(p) ==> p@ == PoolModel::<J>::fresh(None, num_threads as nat, num_threads as nat),
            r matches Err(e) ==> e == PoolError::InvalidConfiguration,
    {
        Self::new_pool(None, num_threads, num_threads)
    }

    /// A pool that starts `num_initial_threads` workers and may grow to
    /// `num_threads`; idle workers above the initial count leave again.
    pub fn new_dynamic(num_threads: usize, num_initial_threads: usize) -> (r: Result<Self, PoolError>)
        ensures
            r is Ok <==> valid_sizes(num_threads as nat, num_initial_threads as nat),
            r matches Ok(p) ==> p@ == PoolModel::<J>::fresh(None, num_threads as nat, num_initial_threads as nat),
            r matches Err(e) ==> e == PoolError::InvalidConfiguration,
    {
        Self::new_pool(None, num_threads, num_initial_threads)
    }

    /// As `new`, with every worker carrying `name`.
    pub fn new_with_name(name: String, num_threads: usize) -> (r: Result<Self, PoolError>)
        ensures
            r is Ok <==> num_threads >= 1,
            r matches Ok(p) ==> p@ == PoolModel::<J>::fresh(Some(name@), num_threads as nat, num_threads as nat),
            r matches Err(e) ==> e == PoolError::InvalidConfiguration,
    {
        Self::new_pool(Some(name), num_threads, num_threads)
    }

    /// As `new_dynamic`, with every worker carrying `name`.
    pub fn new_with_name_dynamic(name: String, num_threads: usize, num_initial_threads: usize) -> (r: Result<Self, PoolError>)
        ensures
            r is Ok <==> valid_sizes(num_threads as nat, num_initial_threads as nat),
            r matches Ok(p) ==> p@ == PoolModel::<J>::fresh(Some(name@), num_threads as nat, num_initial_threads as nat),
            r matches Err(e) ==> e == PoolError::InvalidConfiguration,
    {
        Self::new_pool(Some(name), num_threads, num_initial_threads)
    }

    /// Queues `job` behind those already pending. Returns whether the caller
    /// must start one more worker, which is then already counted as spawned.
    pub fn execute(&mut self, job: J) -> (spawn: bool)
        requires
            old(self)@.wf(),
        ensures
            spawn == old(self)@.spawns_on_submit(),
            final(self)@ == old(self)@.submit(job),
            final(self)@.wf(),
    {
        let spawn = self.spawned < self.max;
        if spawn {
            self.spawned = self.spawned + 1;
        }
        self.queue.push_back(job);
        spawn
    }

    /// One step of an idle worker: exit, take the oldest job, or wait.
    pub fn worker_poll(&mut self) -> (step: WorkerStep<J>)
        requires
            old(self)@.wf(),
            old(self)@.active < old(self)@.spawned,
        ensures
            step == old(self)@.poll_step(),
            final(self)@ == old(self)@.poll(),
            final(self)@.wf(),
    {
        if self.active >= self.max {
            self.spawned = self.spawned - 1;
            return WorkerStep::Exit;
        }
        match self.queue.pop_front() {
            Some(job) => {
                self.active = self.active + 1;
                WorkerStep::Run(job)
            },
            None => {
                if self.closed {
                    self.spawned = self.spawned - 1;
                    WorkerStep::Exit
                } else {
                    WorkerStep::Wait
                }
            },
        }
    }

    /// Records that a running job returned. Returns whether its worker now
    /// leaves the pool, which is then already taken off the spawned count.
    pub fn finish_job(&mut self) -> (exit: bool)
        requires
            old(self)@.wf(),
            old(self)@.active >= 1,
        ensures
            exit == old(self)@.exits_after_job(),
            final(self)@ == old(self)@.finish_job(),
            final(self)@.wf(),
    {
        self.active = self.active - 1;
        let exit = self.min != self.max && self.active == 0 && self.spawned > self.min;
        if exit {
            self.spawned = self.spawned - 1;
        }
        exit
    }

    /// Records that a running job terminated abnormally and took its worker
    /// with it. Returns whether the caller must start a replacement, which is
    /// then already counted as spawned.
    pub fn fail_job(&mut self) -> (respawn: bool)
        requires
            old(self)@.wf(),
            old(self)@.active >= 1,
            old(self)@.failures < usize::MAX,
        ensures
            respawn == old(self)@.respawns_after_failure(),
            final(self)@ == old(self)@.fail_job(),
            final(self)@.wf(),
    {
        self.panics = self.panics + 1;
        self.active = self.active - 1;
        self.spawned = self.spawned - 1;
        let respawn = self.active == 0 && self.spawned <= self.min;
        if respawn {
            self.spawned = self.spawned + 1;
        }
        respawn
    }

    /// Sets the ceiling to `num_threads`. Returns how many workers the caller
    /// must start, which are then already counted as spawned; a lower ceiling
    /// stops no worker, the surplus leaves as it next polls.
    pub fn set_num_threads(&mut self, num_threads: usize) -> (r: Result<usize, PoolError>)
        requires
            old(self)@.wf(),
            old(self)@.spawned + num_threads <= usize::MAX,
        ensures
            r is Ok <==> num_threads >= 1,
            r matches Ok(k) ==> k == old(self)@.grow_count(num_threads as nat)
                && final(self)@ == old(self)@.resize(num_threads as nat),
            r matches Err(e) ==> e == PoolError::InvalidConfiguration && final(self)@ == old(self)@,
            final(self)@.wf(),
    {
        if num_threads < 1 {
            return Err(PoolError::InvalidConfiguration);
        }
        let current_max = self.max;
        self.max = num_threads;
        let grow = if num_threads > current_max { num_threads - current_max } else { 0 };
        self.spawned = self.spawned + grow;
        Ok(grow)
    }

    /// The same as `set_num_threads`.
    pub fn set_threads(&mut self, num_threads: usize) -> (r: Result<usize, PoolError>)
        requires
            old(self)@.wf(),
            old(self)@.spawned + num_threads <= usize::MAX,
        ensures
            r is Ok <==> num_threads >= 1,
            r matches Ok(k) ==> k == old(self)@.grow_count(num_threads as nat)
                && final(self)@ == old(self)@.resize(num_threads as nat),
            r matches Err(e) ==> e == PoolError::InvalidConfiguration && final(self)@ == old(self)@,
            final(self)@.wf(),
    {
        self.set_num_threads(num_threads)
    }

    /// Marks the pool closed: its last handle has gone.
    pub fn close(&mut self)
        ensures
            final(self)@ == old(self)@.close(),
    {
        self.closed = true;
    }

    /// Workers currently running a job.
    pub fn active_count(&self) -> (r: usize)
        ensures
            r == self@.active,
    {
        self.active
    }

    /// Workers currently alive.
    pub fn spawned_count(&self) -> (r: usize)
        ensures
            r == self@.spawned,
    {
        self.spawned
    }

    /// The floor on the number of workers.
    pub fn min_count(&self) -> (r: usize)
        ensures
            r == self@.min,
    {
        self.min
    }

    /// The ceiling on the number of workers.
    pub fn max_count(&self) -> (r: usize)
        ensures
            r == self@.max,
    {
        self.max
    }

    /// Jobs that terminated abnormally over the pool's lifetime.
    pub fn panic_count(&self) -> (r: usize)
        ensures
            r == self@.failures,
    {
        self.panics
    }

    /// Jobs waiting for a worker.
    pub fn queued_count(&self) -> (r: usize)
        ensures
            r == self@.queue.len(),
    {
        self.queue.len()
    }

    /// Whether the pool has closed.
    pub fn is_closed(&self) -> (r: bool)
        ensures
            r == self@.closed,
    {
        self.closed
    }

    /// The name that every worker carries, if any.
    pub fn name(&self) -> (r: &Option<String>)
        ensures
            name_view(*r) == self@.name,
    {
        &self.name
    }
}

} // verus!
