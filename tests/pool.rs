use std::sync::mpsc::channel;
use threadpool::{ThreadPool, WorkerStep};

const TEST_TASKS: usize = 4;

type Job = Box<dyn FnOnce() + Send + 'static>;

/// Polls as an idle worker and hands back the job it was given, if any.
fn take(pool: &mut ThreadPool<Job>) -> Option<Job> {
    match pool.worker_poll() {
        WorkerStep::Run(job) => Some(job),
        _ => None,
    }
}

/// Runs a job to its end as a worker; the worker then polls again unless it
/// left the pool, and hands back its next job.
fn finish(pool: &mut ThreadPool<Job>, job: Job) -> Option<Job> {
    job();
    if pool.finish_job() {
        None
    } else {
        take(pool)
    }
}

/// Lets `workers` idle workers run every queued job to its end.
fn drain(pool: &mut ThreadPool<Job>, workers: usize) {
    let mut held: Vec<Job> = (0..workers).filter_map(|_| take(pool)).collect();
    while let Some(job) = held.pop() {
        if let Some(next) = finish(pool, job) {
            held.push(next);
        }
    }
}

fn idle_job() -> Job {
    Box::new(|| {})
}

#[test]
fn test_set_num_threads_increasing() {
    let new_thread_amount = TEST_TASKS + 8;
    let mut pool = ThreadPool::<Job>::new(TEST_TASKS).unwrap();
    for _ in 0..TEST_TASKS {
        pool.execute(idle_job());
    }
    assert_eq!(pool.set_num_threads(new_thread_amount), Ok(8));
    for _ in 0..(new_thread_amount - TEST_TASKS) {
        assert!(!pool.execute(idle_job()));
    }
    let running: Vec<Job> = (0..new_thread_amount).filter_map(|_| take(&mut pool)).collect();
    assert_eq!(running.len(), new_thread_amount);
    assert_eq!(pool.active_count(), new_thread_amount);
}

#[test]
fn test_set_num_threads_decreasing() {
    let new_thread_amount = 2;
    let mut pool = ThreadPool::<Job>::new(TEST_TASKS).unwrap();
    for _ in 0..TEST_TASKS {
        pool.execute(Box::new(move || {
            let _ = 1 + 1;
        }));
    }
    let quick: Vec<Job> = (0..TEST_TASKS).filter_map(|_| take(&mut pool)).collect();
    for job in quick {
        assert!(finish(&mut pool, job).is_none());
    }
    assert_eq!(pool.set_num_threads(new_thread_amount), Ok(0));
    for _ in 0..new_thread_amount {
        pool.execute(idle_job());
    }
    let running: Vec<Job> = (0..TEST_TASKS).filter_map(|_| take(&mut pool)).collect();
    assert_eq!(running.len(), new_thread_amount);
    assert_eq!(pool.active_count(), new_thread_amount);
    assert_eq!(pool.spawned_count(), new_thread_amount);
}

#[test]
fn test_active_count() {
    let mut pool = ThreadPool::<Job>::new(TEST_TASKS).unwrap();
    for _ in 0..TEST_TASKS {
        pool.execute(idle_job());
    }
    let running: Vec<Job> = (0..TEST_TASKS).filter_map(|_| take(&mut pool)).collect();
    assert_eq!(running.len(), TEST_TASKS);
    let active_count = pool.active_count();
    assert_eq!(active_count, TEST_TASKS);
    let initialized_count = pool.max_count();
    assert_eq!(initialized_count, TEST_TASKS);
}

#[test]
fn test_works() {
    let mut pool = ThreadPool::<Job>::new(TEST_TASKS).unwrap();

    let (tx, rx) = channel();
    for _ in 0..TEST_TASKS {
        let tx = tx.clone();
        pool.execute(Box::new(move || {
            tx.send(1).unwrap();
        }));
    }
    drain(&mut pool, TEST_TASKS);

    assert_eq!(rx.iter().take(TEST_TASKS).fold(0, |a, b| a + b), TEST_TASKS);
}

#[test]
fn test_recovery_from_subtask_panic() {
    let mut pool = ThreadPool::<Job>::new(TEST_TASKS).unwrap();

    // Every worker takes a job that fails.
    for _ in 0..TEST_TASKS {
        pool.execute(idle_job());
    }
    let failing: Vec<Job> = (0..TEST_TASKS).filter_map(|_| take(&mut pool)).collect();
    let mut replaced = 0;
    for _ in failing {
        if pool.fail_job() {
            replaced += 1;
        }
    }

    assert_eq!(pool.panic_count(), TEST_TASKS);
    assert_eq!(replaced, 1);
    assert_eq!(pool.spawned_count(), 1);

    // The pool grows back as jobs arrive, and they all run.
    let (tx, rx) = channel();
    let mut started = 0;
    for _ in 0..TEST_TASKS {
        let tx = tx.clone();
        if pool.execute(Box::new(move || {
            tx.send(1).unwrap();
        })) {
            started += 1;
        }
    }
    assert_eq!(started, TEST_TASKS - 1);
    let workers = pool.spawned_count();
    drain(&mut pool, workers);

    assert_eq!(rx.iter().take(TEST_TASKS).fold(0, |a, b| a + b), TEST_TASKS);
}

#[test]
fn test_should_not_panic_on_drop_if_subtasks_panic_after_drop() {
    let mut pool = ThreadPool::<Job>::new(TEST_TASKS).unwrap();
    for _ in 0..TEST_TASKS {
        pool.execute(idle_job());
    }
    let running: Vec<Job> = (0..TEST_TASKS).filter_map(|_| take(&mut pool)).collect();

    // The last handle goes, then every job fails.
    pool.close();
    for _ in running {
        if pool.fail_job() {
            assert!(matches!(pool.worker_poll(), WorkerStep::Exit));
        }
    }
    assert_eq!(pool.panic_count(), TEST_TASKS);
    assert_eq!(pool.active_count(), 0);
    assert_eq!(pool.spawned_count(), 0);
}

#[test]
fn test_massive_task_creation() {
    let test_tasks = 4_200_000;

    let mut pool = ThreadPool::<Job>::new(TEST_TASKS).unwrap();
    let (tx, rx) = channel();

    for _ in 0..test_tasks {
        let tx = tx.clone();
        pool.execute(Box::new(move || {
            let _ = tx.send(1).is_ok();
        }));
    }

    // Every worker has taken one job: the pool is full.
    let mut held: Vec<Job> = (0..TEST_TASKS).filter_map(|_| take(&mut pool)).collect();
    assert_eq!(pool.active_count(), TEST_TASKS);

    while let Some(job) = held.pop() {
        if let Some(next) = finish(&mut pool, job) {
            held.push(next);
        }
    }

    assert_eq!(rx.iter().take(test_tasks).fold(0, |a, b| a + b), test_tasks);
    assert!(pool.active_count() <= 1);
}

#[test]
fn test_shrink() {
    let test_tasks_begin = TEST_TASKS + 2;

    let mut pool = ThreadPool::<Job>::new(test_tasks_begin).unwrap();
    for _ in 0..test_tasks_begin {
        pool.execute(idle_job());
    }
    for _ in 0..TEST_TASKS {
        pool.execute(idle_job());
    }

    // Every worker runs a job of the first batch.
    let first: Vec<Job> = (0..test_tasks_begin).filter_map(|_| take(&mut pool)).collect();
    assert_eq!(pool.set_num_threads(TEST_TASKS), Ok(0));

    assert_eq!(pool.active_count(), test_tasks_begin);

    // The first batch ends; the surplus workers leave.
    let second: Vec<Job> = first.into_iter().filter_map(|job| finish(&mut pool, job)).collect();
    assert_eq!(second.len(), TEST_TASKS);
    assert_eq!(pool.active_count(), TEST_TASKS);
}

#[test]
fn test_shrink_then_grow_dynamic() {
    let test_tasks_begin = TEST_TASKS + 2;

    let mut pool = ThreadPool::<Job>::new_dynamic(test_tasks_begin, 1).unwrap();
    assert_eq!(pool.spawned_count(), 1);

    for _ in 0..test_tasks_begin {
        pool.execute(idle_job());
    }
    assert_eq!(pool.spawned_count(), test_tasks_begin);

    for _ in 0..TEST_TASKS {
        pool.execute(idle_job());
    }

    let first: Vec<Job> = (0..test_tasks_begin).filter_map(|_| take(&mut pool)).collect();
    assert_eq!(pool.set_num_threads(TEST_TASKS), Ok(0));

    assert_eq!(pool.active_count(), test_tasks_begin);
    assert_eq!(pool.spawned_count(), test_tasks_begin);

    let second: Vec<Job> = first.into_iter().filter_map(|job| finish(&mut pool, job)).collect();
    assert_eq!(pool.active_count(), TEST_TASKS);
    assert_eq!(pool.spawned_count(), TEST_TASKS);

    // The second batch ends: three workers wait, the last one leaves.
    for job in second {
        assert!(finish(&mut pool, job).is_none());
    }
    assert_eq!(pool.spawned_count(), TEST_TASKS - 1);

    assert_eq!(pool.set_num_threads(test_tasks_begin), Ok(2));
    for _ in 0..test_tasks_begin {
        pool.execute(idle_job());
    }
    let third: Vec<Job> = (0..test_tasks_begin).filter_map(|_| take(&mut pool)).collect();
    assert_eq!(third.len(), test_tasks_begin);
    assert_eq!(pool.spawned_count(), test_tasks_begin);
}

#[test]
fn test_name() {
    let name = "test";
    let mut pool = ThreadPool::<Job>::new_with_name(name.to_owned(), 2).unwrap();
    assert_eq!(pool.name().as_deref(), Some(name));

    // Workers started by a resize carry the name.
    assert_eq!(pool.set_num_threads(3), Ok(1));
    assert_eq!(pool.name().as_deref(), Some(name));

    // So does the replacement of a failed worker.
    pool.execute(idle_job());
    let failing = take(&mut pool);
    assert!(failing.is_some());
    assert!(pool.fail_job());
    assert_eq!(pool.name().as_deref(), Some(name));
}
