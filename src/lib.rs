//! A bounded pool of workers, described as a verified state machine.
//!
//! `ThreadPool` holds everything a pool decides: the FIFO queue of pending
//! jobs and the counters of active, spawned and failed workers with the
//! configured minimum and maximum. Each step that a worker or a caller takes
//! is one method, whose contract says exactly how the pool changes and which
//! action (start a worker, run a job, wait, exit) follows from it. Starting
//! threads and running jobs is left to the host of the pool.

mod error;
mod pool;
mod laws;

pub use error::PoolError;
pub use pool::{PoolModel, ThreadPool, WorkerStep, valid_sizes, name_view};
pub use laws::{
    submit_all,
    after_polls,
    handed_out,
    after_failures,
    job_ends,
    jobs_end,
    lemma_every_job_handed_out_once,
    lemma_bounds_kept,
    lemma_name_kept,
    lemma_total_failure_recovers,
    lemma_closed_pool_drains,
    lemma_shrink_keeps_busy_workers,
    lemma_shrink_converges,
    lemma_graceful_exit_keeps_floor,
    lemma_grow_spawns_difference,
};
