//! What a scheduler decides, and what its handles see of it.

use easy_threadpool::{
    JobHasPanicedError, Next, Scheduler, SharedState, ThreadPool, ThreadPoolBuilder, Wait,
};

fn build(threads: usize) -> (ThreadPool, Scheduler<u32>) {
    let builder = ThreadPoolBuilder::with_thread_amount_usize(threads).unwrap();
    match builder.build::<u32, (), (), _>((), |(), _, _| ((), Ok(()))) {
        Ok((pool, scheduler, ())) => (pool, scheduler),
        Err(_) => panic!("No thread was refused"),
    }
}

/// The worker takes a job, which has to be there.
fn take(scheduler: &mut Scheduler<u32>, worker: usize) -> u32 {
    match scheduler.next_job(worker) {
        Next::Run(job) => job,
        _ => panic!("There should be a job"),
    }
}

/// The worker takes a job and is done with it.
fn work(scheduler: &mut Scheduler<u32>, worker: usize, paniced: bool) -> u32 {
    let job = take(scheduler, worker);
    scheduler.job_done(worker, paniced);
    job
}

fn is_ok(wait: Wait<Result<(), JobHasPanicedError>>) -> bool {
    matches!(wait, Wait::Done(Ok(())))
}

fn is_err(wait: Wait<Result<(), JobHasPanicedError>>) -> bool {
    matches!(wait, Wait::Done(Err(JobHasPanicedError {})))
}

#[test]
fn counters_follow_the_events() {
    let mut state = SharedState::new();
    assert!(state.is_finished());

    state.job_queued();
    state.job_queued();
    assert_eq!(state.jobs_queued(), 2);
    assert!(!state.is_finished());

    state.job_starting();
    assert_eq!((state.jobs_queued(), state.jobs_running()), (1, 1));

    state.job_paniced();
    state.job_finished();
    assert_eq!((state.jobs_queued(), state.jobs_running()), (1, 0));
    assert_eq!(state.jobs_paniced(), 1);
    assert!(state.has_paniced());
    assert!(!state.is_finished(), "A job is still queued");

    state.job_starting();
    state.job_finished();
    assert!(state.is_finished());
    assert_eq!(state.jobs_paniced(), 1);
}

#[test]
fn shared_state_is_shown() {
    let mut state = SharedState::new();
    assert_eq!(
        state.to_string(),
        "SharedState<jobs_queued: 0, jobs_running: 0, jobs_paniced: 0, is_finished: true, has_paniced: false>"
    );

    for _ in 0..120 {
        state.job_queued();
    }
    for _ in 0..13 {
        state.job_starting();
    }
    state.job_paniced();
    assert_eq!(
        state.to_string(),
        "SharedState<jobs_queued: 107, jobs_running: 13, jobs_paniced: 1, is_finished: false, has_paniced: true>"
    );
}

#[test]
fn pool_is_shown() {
    let (pool, mut scheduler) = build(16);
    pool.send_job(&mut scheduler, 1);
    assert_eq!(
        pool.to_string(&scheduler),
        "Threadpool< thread_amount: 16, shared_state: SharedState<jobs_queued: 1, jobs_running: 0, jobs_paniced: 0, is_finished: false, has_paniced: false>>"
    );
}

#[test]
fn error_is_shown() {
    assert_eq!(
        JobHasPanicedError {}.to_string(),
        "At least one job in the threadpool has caused a panic"
    );
}

#[test]
fn new_pool_is_finished() {
    let (pool, scheduler) = build(3);
    assert_eq!(pool.threads().get(), 3);
    assert!(pool.is_finished(&scheduler));
    assert!(!pool.has_paniced(&scheduler));
    assert!(is_ok(pool.wait_until_finished(&scheduler)));
}

#[test]
fn sent_job_is_queued() {
    let (pool, mut scheduler) = build(1);
    pool.send_job(&mut scheduler, 1);
    assert_eq!(pool.jobs_queued(&scheduler), 1);
    assert!(!pool.is_finished(&scheduler));
}

#[test]
fn first_come_first_served() {
    let (pool, mut scheduler) = build(2);
    let other = pool.clone_with_new_state(&mut scheduler);
    pool.send_job(&mut scheduler, 10);
    other.send_job(&mut scheduler, 20);
    pool.send_job(&mut scheduler, 30);

    assert_eq!(take(&mut scheduler, 1), 10);
    assert_eq!(take(&mut scheduler, 0), 20);
    scheduler.job_done(1, false);
    assert_eq!(take(&mut scheduler, 1), 30);
}

#[test]
fn at_most_one_job_runs_on_a_thread() {
    let (pool, mut scheduler) = build(3);
    for job in 0..5 {
        pool.send_job(&mut scheduler, job);
    }
    for worker in 0..3 {
        assert!(!scheduler.is_busy(worker));
        take(&mut scheduler, worker);
        assert!(scheduler.is_busy(worker));
    }
    assert_eq!(pool.jobs_running(&scheduler), 3);
    assert_eq!(pool.jobs_queued(&scheduler), 2);
}

#[test]
fn every_job_is_accounted_for() {
    let (pool, mut scheduler) = build(2);
    for job in 0..6 {
        pool.send_job(&mut scheduler, job);
    }
    let mut done = 0;
    for job in 0..4 {
        work(&mut scheduler, 0, job == 2);
        done += 1;
    }
    take(&mut scheduler, 1);

    let left = pool.jobs_queued(&scheduler) + pool.jobs_running(&scheduler);
    assert_eq!(left + done, 6);
    assert_eq!(pool.jobs_paniced(&scheduler), 1);
    assert!(!pool.is_finished(&scheduler));
}

#[test]
fn panic_costs_no_thread() {
    let (pool, mut scheduler) = build(1);
    for job in 0..4 {
        pool.send_job(&mut scheduler, job);
    }
    for job in 0..4 {
        assert_eq!(work(&mut scheduler, 0, true), job);
        assert!(!scheduler.is_busy(0));
        assert_eq!(pool.jobs_paniced(&scheduler), job as usize + 1);
    }
    assert!(pool.is_finished(&scheduler));
}

#[test]
fn panics_stay_on_record() {
    let (pool, mut scheduler) = build(1);
    pool.send_job(&mut scheduler, 1);
    work(&mut scheduler, 0, true);
    for job in 0..3 {
        pool.send_job(&mut scheduler, job);
        work(&mut scheduler, 0, false);
        assert!(pool.has_paniced(&scheduler));
        assert_eq!(pool.jobs_paniced(&scheduler), 1);
        assert!(is_err(pool.wait_until_finished(&scheduler)));
    }
}

#[test]
fn instances_are_isolated() {
    let (pool, mut scheduler) = build(2);
    let other = pool.clone_with_new_state(&mut scheduler);
    let clone = pool.clone(&mut scheduler);

    pool.send_job(&mut scheduler, 1);
    assert_eq!(clone.jobs_queued(&scheduler), 1);
    assert_eq!(other.jobs_queued(&scheduler), 0);

    work(&mut scheduler, 0, true);
    assert!(is_err(pool.wait_until_finished(&scheduler)));
    assert!(is_err(clone.wait_until_finished(&scheduler)));
    assert!(is_ok(other.wait_until_finished(&scheduler)));
    assert!(!other.has_paniced(&scheduler));
    assert_eq!(other.jobs_paniced(&scheduler), 0);
}

#[test]
fn wait_until_finished_ends_at_a_panic() {
    let (pool, mut scheduler) = build(1);
    pool.send_job(&mut scheduler, 1);
    pool.send_job(&mut scheduler, 2);
    pool.send_job(&mut scheduler, 3);
    assert!(matches!(pool.wait_until_finished(&scheduler), Wait::Block));

    take(&mut scheduler, 0);
    assert!(matches!(pool.wait_until_finished(&scheduler), Wait::Block));
    scheduler.job_done(0, false);
    assert!(matches!(pool.wait_until_finished(&scheduler), Wait::Block));

    work(&mut scheduler, 0, true);
    assert!(is_err(pool.wait_until_finished(&scheduler)));
    assert!(
        matches!(pool.wait_until_finished_unchecked(&scheduler), Wait::Block),
        "A job is still queued"
    );

    work(&mut scheduler, 0, false);
    assert!(matches!(
        pool.wait_until_finished_unchecked(&scheduler),
        Wait::Done(())
    ));
}

#[test]
fn wait_until_finished_ends_when_the_last_job_is_done() {
    let (pool, mut scheduler) = build(2);
    pool.send_job(&mut scheduler, 1);
    pool.send_job(&mut scheduler, 2);
    take(&mut scheduler, 0);
    take(&mut scheduler, 1);
    scheduler.job_done(1, false);
    assert!(matches!(pool.wait_until_finished(&scheduler), Wait::Block));
    scheduler.job_done(0, false);
    assert!(is_ok(pool.wait_until_finished(&scheduler)));
}

#[test]
fn wait_for_a_job_ends_when_one_is_done() {
    let (pool, mut scheduler) = build(2);
    for job in 0..3 {
        pool.send_job(&mut scheduler, job);
    }
    work(&mut scheduler, 0, false);

    let ticket = pool.job_done_ticket(&scheduler);
    assert!(matches!(
        pool.wait_until_job_done(&scheduler, &ticket),
        Wait::Block
    ));
    assert!(matches!(
        pool.wait_until_job_done_unchecked(&scheduler, &ticket),
        Wait::Block
    ));

    take(&mut scheduler, 0);
    pool.send_job(&mut scheduler, 9);
    assert!(matches!(
        pool.wait_until_job_done(&scheduler, &ticket),
        Wait::Block
    ));

    scheduler.job_done(0, false);
    assert!(!pool.is_finished(&scheduler));
    assert!(is_ok(pool.wait_until_job_done(&scheduler, &ticket)));
    assert!(matches!(
        pool.wait_until_job_done_unchecked(&scheduler, &ticket),
        Wait::Done(())
    ));
}

#[test]
fn wait_for_a_job_tells_of_a_panic() {
    let (pool, mut scheduler) = build(1);
    pool.send_job(&mut scheduler, 1);
    pool.send_job(&mut scheduler, 2);
    let ticket = pool.job_done_ticket(&scheduler);
    work(&mut scheduler, 0, true);
    assert!(is_err(pool.wait_until_job_done(&scheduler, &ticket)));

    // Also of one that is over when the wait begins
    work(&mut scheduler, 0, false);
    let ticket = pool.job_done_ticket(&scheduler);
    assert!(pool.is_finished(&scheduler));
    assert!(is_err(pool.wait_until_job_done(&scheduler, &ticket)));
}

#[test]
fn jobs_of_others_end_no_wait() {
    let (pool, mut scheduler) = build(2);
    let other = pool.clone_with_new_state(&mut scheduler);
    other.send_job(&mut scheduler, 1);
    pool.send_job(&mut scheduler, 2);
    let ticket = pool.job_done_ticket(&scheduler);

    work(&mut scheduler, 0, true);
    assert!(other.has_paniced(&scheduler));
    assert!(matches!(pool.wait_until_finished(&scheduler), Wait::Block));
    assert!(matches!(
        pool.wait_until_job_done(&scheduler, &ticket),
        Wait::Block
    ));
}

#[test]
fn reset_starts_over() {
    let (mut pool, mut scheduler) = build(1);
    let clone = pool.clone(&mut scheduler);
    pool.send_job(&mut scheduler, 1);
    pool.send_job(&mut scheduler, 2);
    work(&mut scheduler, 0, true);
    assert!(is_err(pool.wait_until_finished(&scheduler)));

    pool.reset_state(&mut scheduler);
    assert!(is_ok(pool.wait_until_finished(&scheduler)));
    assert!(!pool.has_paniced(&scheduler));
    assert!(is_err(clone.wait_until_finished(&scheduler)));
    assert_eq!(clone.jobs_queued(&scheduler), 1);

    assert_eq!(work(&mut scheduler, 0, true), 2);
    assert_eq!(pool.jobs_paniced(&scheduler), 0);
    assert_eq!(clone.jobs_paniced(&scheduler), 2);
}

#[test]
fn clone_with_new_state_is_clone_and_reset() {
    let (pool, mut scheduler) = build(4);
    pool.send_job(&mut scheduler, 1);
    let direct = pool.clone_with_new_state(&mut scheduler);
    let mut stepwise = pool.clone(&mut scheduler);
    stepwise.reset_state(&mut scheduler);

    assert_eq!(direct.to_string(&scheduler), stepwise.to_string(&scheduler));
    assert_eq!(direct.threads().get(), 4);
    assert_eq!(pool.jobs_queued(&scheduler), 1);
}

#[test]
fn disconnect_undoes_clone() {
    let (pool, mut scheduler) = build(1);
    pool.send_job(&mut scheduler, 1);
    let before = pool.to_string(&scheduler);
    let clone = pool.clone(&mut scheduler);
    clone.disconnect(&mut scheduler);
    assert_eq!(pool.to_string(&scheduler), before);
    assert!(pool.is_served_by(&scheduler));
}

#[test]
fn workers_stop_when_nobody_can_send() {
    let (pool, mut scheduler) = build(2);
    let other = pool.clone_with_new_state(&mut scheduler);
    assert!(matches!(scheduler.next_job(0), Next::Wait));

    pool.send_job(&mut scheduler, 1);
    other.send_job(&mut scheduler, 2);
    pool.disconnect(&mut scheduler);
    other.disconnect(&mut scheduler);

    // The jobs that were sent are still run
    assert_eq!(work(&mut scheduler, 0, true), 1);
    assert_eq!(take(&mut scheduler, 1), 2);
    assert!(matches!(scheduler.next_job(0), Next::Stop));
    scheduler.job_done(1, false);
    assert!(matches!(scheduler.next_job(1), Next::Stop));
}

#[test]
fn one_handle_keeps_the_workers() {
    let (pool, mut scheduler) = build(1);
    let clone = pool.clone(&mut scheduler);
    pool.disconnect(&mut scheduler);
    assert!(clone.is_served_by(&scheduler));
    assert!(matches!(scheduler.next_job(0), Next::Wait));
    clone.disconnect(&mut scheduler);
    assert!(matches!(scheduler.next_job(0), Next::Stop));
}

#[test]
fn schedulers_know_their_handles() {
    let (pool, scheduler) = build(1);
    let (stranger, _) = build(2);
    assert!(pool.is_served_by(&scheduler));
    assert!(!stranger.is_served_by(&scheduler));
    assert!(scheduler.can_queue() && scheduler.can_connect() && scheduler.can_open());
}

#[test]
fn equal_pools_are_not_told_apart() {
    let (pool, mut scheduler) = build(2);
    let (twin, twin_scheduler) = build(2);

    // The instances of both pools have the same numbers
    assert!(twin.is_served_by(&scheduler));
    pool.send_job(&mut scheduler, 1);
    assert_eq!(twin.jobs_queued(&scheduler), 1);
    assert_eq!(twin.jobs_queued(&twin_scheduler), 0);

    // An instance that the other pool has not opened is not served by it
    let other = pool.clone_with_new_state(&mut scheduler);
    assert!(other.is_served_by(&scheduler));
    assert!(!other.is_served_by(&twin_scheduler));
}

#[test]
fn idle_worker_misses_nothing() {
    let (mut pool, mut scheduler) = build(2);
    pool.send_job(&mut scheduler, 1);
    take(&mut scheduler, 1);
    assert!(matches!(scheduler.next_job(0), Next::Wait));

    let clone = pool.clone(&mut scheduler);
    pool.reset_state(&mut scheduler);
    scheduler.job_done(1, true);
    clone.disconnect(&mut scheduler);
    assert!(matches!(scheduler.next_job(0), Next::Wait));

    pool.send_job(&mut scheduler, 2);
    assert_eq!(work(&mut scheduler, 0, false), 2);
    pool.disconnect(&mut scheduler);
    assert!(matches!(scheduler.next_job(0), Next::Stop));
}

#[test]
fn panic_flag_agrees_with_count() {
    let (pool, mut scheduler) = build(1);
    for round in 0..4 {
        assert_eq!(
            pool.has_paniced(&scheduler),
            pool.jobs_paniced(&scheduler) > 0
        );
        pool.send_job(&mut scheduler, round);
        work(&mut scheduler, 0, round % 2 == 1);
    }
    assert_eq!(pool.jobs_paniced(&scheduler), 2);
}

#[test]
fn panic_is_reported_at_any_time() {
    let mut state = SharedState::new();
    state.job_paniced();
    assert_eq!(state.jobs_paniced(), 1);
    assert!(state.has_paniced());
    assert!(state.is_finished());
}

#[test]
fn one_worker_works_the_queue_off() {
    let (pool, mut scheduler) = build(4);
    let other = pool.clone_with_new_state(&mut scheduler);
    for job in 0..10 {
        pool.send_job(&mut scheduler, job);
        other.send_job(&mut scheduler, 100 + job);
    }
    for round in 0..20 {
        work(&mut scheduler, 3, round % 4 == 0);
    }
    assert!(pool.is_finished(&scheduler));
    assert!(other.is_finished(&scheduler));
    assert_eq!(pool.jobs_paniced(&scheduler), 5);
    assert_eq!(other.jobs_paniced(&scheduler), 0);
}
