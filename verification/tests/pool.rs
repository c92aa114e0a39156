use hello::pool::{Dispatcher, PoolError, Step, WorkerState};

fn pool(size: usize) -> Dispatcher<u32> {
    match Dispatcher::new(size) {
        Ok(pool) => pool,
        Err(error) => panic!("no pool of {size}: {error:?}"),
    }
}

fn run(step: Step<u32>) -> u32 {
    match step {
        Step::Run(job) => job,
        other => panic!("expected a job, got {other:?}"),
    }
}

#[test]
fn a_pool_needs_a_worker() {
    assert!(matches!(Dispatcher::<u32>::new(0), Err(PoolError::ConstructionError)));
    assert!(Dispatcher::<u32>::new(1).is_ok());
}

#[test]
fn a_new_pool_is_idle_and_open() {
    let pool = pool(3);
    assert_eq!(pool.size(), 3);
    assert!(pool.is_accepting());
    assert_eq!(pool.queued(), 0);
    assert!(!pool.is_terminated());
    for worker in 0..3 {
        assert_eq!(pool.worker(worker), Some(WorkerState::Idle));
    }
    assert_eq!(pool.worker(3), None);
}

#[test]
fn jobs_are_handed_out_in_the_order_of_submission() {
    let mut pool = pool(4);
    for job in [10, 20, 30, 40] {
        assert_eq!(pool.execute(job), Ok(()));
    }
    assert_eq!(pool.queued(), 4);
    assert_eq!(run(pool.next(2)), 10);
    assert_eq!(run(pool.next(0)), 20);
    assert_eq!(run(pool.next(3)), 30);
    assert_eq!(run(pool.next(1)), 40);
    assert_eq!(pool.queued(), 0);
    for worker in 0..4 {
        assert_eq!(pool.worker(worker), Some(WorkerState::Busy));
    }
}

#[test]
fn an_idle_worker_waits_while_nothing_is_queued() {
    let mut pool = pool(2);
    assert!(matches!(pool.next(0), Step::Wait));
    assert_eq!(pool.worker(0), Some(WorkerState::Idle));
    assert_eq!(pool.execute(1), Ok(()));
    assert_eq!(run(pool.next(0)), 1);
}

#[test]
fn a_slow_job_holds_up_its_own_worker_only() {
    let mut pool = pool(2);
    for job in [1, 2, 3, 4] {
        assert_eq!(pool.execute(job), Ok(()));
    }
    assert_eq!(run(pool.next(0)), 1);
    assert!(matches!(pool.next(0), Step::Wait));
    assert_eq!(pool.queued(), 3);
    for job in [2, 3, 4] {
        assert_eq!(run(pool.next(1)), job);
        pool.finish(1);
    }
    assert_eq!(pool.worker(0), Some(WorkerState::Busy));
    assert_eq!(pool.worker(1), Some(WorkerState::Idle));
    assert_eq!(pool.queued(), 0);
}

#[test]
fn a_worker_is_idle_again_after_its_job_whatever_came_of_it() {
    let mut pool = pool(1);
    assert_eq!(pool.execute(1), Ok(()));
    assert_eq!(pool.execute(2), Ok(()));
    assert_eq!(run(pool.next(0)), 1);
    pool.finish(0);
    assert_eq!(pool.worker(0), Some(WorkerState::Idle));
    assert_eq!(pool.size(), 1);
    assert_eq!(run(pool.next(0)), 2);
}

#[test]
fn a_report_from_a_worker_that_is_not_busy_changes_nothing() {
    let mut pool = pool(2);
    pool.finish(0);
    pool.finish(7);
    assert_eq!(pool.worker(0), Some(WorkerState::Idle));
    assert_eq!(pool.worker(1), Some(WorkerState::Idle));
    assert_eq!(pool.execute(5), Ok(()));
    assert_eq!(pool.queued(), 1);
}

#[test]
fn a_number_that_names_no_worker_is_told_to_leave() {
    let mut pool = pool(2);
    assert_eq!(pool.execute(5), Ok(()));
    assert!(matches!(pool.next(2), Step::Exit));
    assert!(matches!(pool.next(usize::MAX), Step::Exit));
    assert_eq!(pool.queued(), 1);
    assert_eq!(pool.worker(0), Some(WorkerState::Idle));
    assert_eq!(pool.worker(1), Some(WorkerState::Idle));
}

#[test]
fn a_pool_that_is_shut_down_takes_no_job() {
    let mut pool = pool(2);
    assert_eq!(pool.execute(1), Ok(()));
    pool.shutdown();
    assert!(!pool.is_accepting());
    assert_eq!(pool.execute(2), Err(2));
    assert_eq!(pool.queued(), 1);
    pool.shutdown();
    assert_eq!(pool.execute(3), Err(3));
}

#[test]
fn queued_jobs_are_still_handed_out_after_a_shutdown() {
    let mut pool = pool(2);
    for job in [1, 2, 3] {
        assert_eq!(pool.execute(job), Ok(()));
    }
    assert_eq!(run(pool.next(0)), 1);
    pool.shutdown();
    assert_eq!(run(pool.next(1)), 2);
    pool.finish(0);
    assert_eq!(run(pool.next(0)), 3);
    assert!(!pool.is_terminated());
    pool.finish(1);
    assert!(matches!(pool.next(1), Step::Exit));
    assert_eq!(pool.worker(1), Some(WorkerState::Exited));
    assert!(!pool.is_terminated());
    assert!(matches!(pool.next(0), Step::Wait));
    pool.finish(0);
    assert!(matches!(pool.next(0), Step::Exit));
    assert!(pool.is_terminated());
}

#[test]
fn a_worker_that_has_left_stays_away() {
    let mut pool = pool(1);
    pool.shutdown();
    assert!(matches!(pool.next(0), Step::Exit));
    assert!(matches!(pool.next(0), Step::Exit));
    pool.finish(0);
    assert_eq!(pool.worker(0), Some(WorkerState::Exited));
    assert!(pool.is_terminated());
    assert_eq!(pool.execute(9), Err(9));
}

fn drain(size: usize, jobs: u32, pick: impl Fn(usize) -> usize) -> Vec<u32> {
    let mut pool = pool(size);
    for job in 0..jobs {
        assert_eq!(pool.execute(job), Ok(()));
    }
    pool.shutdown();
    let mut ran = Vec::new();
    let mut turn = 0;
    while !pool.is_terminated() {
        let worker = pick(turn) % size;
        turn += 1;
        match pool.worker(worker) {
            Some(WorkerState::Busy) => pool.finish(worker),
            Some(WorkerState::Idle) => match pool.next(worker) {
                Step::Run(job) => ran.push(job),
                Step::Wait => panic!("nothing to wait for after a shutdown"),
                Step::Exit => {}
            },
            _ => {}
        }
        assert!(turn < 100_000);
    }
    assert_eq!(pool.queued(), 0);
    ran
}

#[test]
fn every_job_runs_exactly_once() {
    for size in [1, 2, 3, 8] {
        for jobs in [0, 1, 5, 64] {
            let expected: Vec<u32> = (0..jobs).collect();
            assert_eq!(drain(size, jobs, |turn| turn), expected);
            assert_eq!(drain(size, jobs, |turn| turn * 7 + turn / 3), expected);
            assert_eq!(drain(size, jobs, |turn| (turn * turn) ^ (turn >> 2)), expected);
        }
    }
}

#[test]
fn jobs_of_any_type_are_queued() {
    let mut pool: Dispatcher<Box<dyn FnOnce() -> String>> = match Dispatcher::new(1) {
        Ok(pool) => pool,
        Err(_) => panic!("no pool"),
    };
    assert!(pool.execute(Box::new(|| "first".to_string())).is_ok());
    assert!(pool.execute(Box::new(|| "second".to_string())).is_ok());
    let mut ran = Vec::new();
    while let Step::Run(job) = pool.next(0) {
        ran.push(job());
        pool.finish(0);
    }
    assert_eq!(ran, ["first", "second"]);
}
