//! The pool with jobs that run: the workers are driven step by step, so that a test can stop
//! where the jobs of a pool would meet at a barrier.

use easy_threadpool::{
    JobHasPanicedError, Next, Scheduler, ThreadAmount, ThreadPool, ThreadPoolBuilder, Wait,
};
use std::sync::mpsc::channel;

/// How a job ended.
enum End {
    Returned,
    Paniced,
}

type Job = Box<dyn FnOnce() -> End>;

/// The workers of a pool, with the job that each of them has taken and not done.
struct Workers {
    scheduler: Scheduler<Job>,
    held: Vec<Option<Job>>,
}

/// Builds a pool whose threads all start.
fn build(builder: ThreadPoolBuilder) -> (ThreadPool, Workers) {
    let spawn = |(): (), _: usize, _: String| ((), Ok::<(), ()>(()));
    match builder.build::<Job, (), (), _>((), spawn) {
        Ok((pool, scheduler, ())) => {
            let held = (0..pool.threads().get()).map(|_| None).collect();
            (pool, Workers { scheduler, held })
        }
        Err(_) => panic!("No thread was refused"),
    }
}

impl Workers {
    /// The worker takes the next job, and holds it. Tells whether there was one.
    fn take(&mut self, worker: usize) -> bool {
        match self.scheduler.next_job(worker) {
            Next::Run(job) => {
                self.held[worker] = Some(job);
                true
            }
            _ => false,
        }
    }

    /// Every worker takes a job.
    fn take_all(&mut self) {
        for worker in 0..self.held.len() {
            assert!(self.take(worker), "No job for worker {worker}");
        }
    }

    /// The worker runs the job that it holds.
    fn finish(&mut self, worker: usize) {
        let job = self.held[worker].take().expect("The worker holds no job");
        let paniced = matches!(job(), End::Paniced);
        self.scheduler.job_done(worker, paniced);
    }

    /// One job is brought to its end: one that a worker holds, or else the next in the queue.
    fn advance(&mut self) -> bool {
        for worker in 0..self.held.len() {
            if self.held[worker].is_some() {
                self.finish(worker);
                return true;
            }
        }
        if self.take(0) {
            self.finish(0);
            return true;
        }
        false
    }

    /// All jobs are brought to their end.
    fn advance_all(&mut self) {
        while self.advance() {}
    }

    fn wait_until_finished(&mut self, pool: &ThreadPool) -> Result<(), JobHasPanicedError> {
        loop {
            match pool.wait_until_finished(&self.scheduler) {
                Wait::Done(result) => return result,
                Wait::Block => assert!(self.advance(), "Blocked for ever"),
            }
        }
    }

    fn wait_until_finished_unchecked(&mut self, pool: &ThreadPool) {
        loop {
            match pool.wait_until_finished_unchecked(&self.scheduler) {
                Wait::Done(()) => return,
                Wait::Block => assert!(self.advance(), "Blocked for ever"),
            }
        }
    }

    fn wait_until_job_done(&mut self, pool: &ThreadPool) -> Result<(), JobHasPanicedError> {
        let ticket = pool.job_done_ticket(&self.scheduler);
        loop {
            match pool.wait_until_job_done(&self.scheduler, &ticket) {
                Wait::Done(result) => return result,
                Wait::Block => assert!(self.advance(), "Blocked for ever"),
            }
        }
    }

    fn wait_until_job_done_unchecked(&mut self, pool: &ThreadPool) {
        let ticket = pool.job_done_ticket(&self.scheduler);
        loop {
            match pool.wait_until_job_done_unchecked(&self.scheduler, &ticket) {
                Wait::Done(()) => return,
                Wait::Block => assert!(self.advance(), "Blocked for ever"),
            }
        }
    }

    fn send(&mut self, pool: &ThreadPool, job: impl FnOnce() -> End + 'static) {
        pool.send_job(&mut self.scheduler, Box::new(job));
    }

    fn queued(&self, pool: &ThreadPool) -> usize {
        pool.jobs_queued(&self.scheduler)
    }

    fn running(&self, pool: &ThreadPool) -> usize {
        pool.jobs_running(&self.scheduler)
    }

    fn paniced(&self, pool: &ThreadPool) -> usize {
        pool.jobs_paniced(&self.scheduler)
    }
}

#[test]
// Test multiple panics on a single thread, this ensures that a thread can
// handle panics
fn deal_with_panics() {
    fn panic_fn() -> End {
        End::Paniced
    }

    let thread_num = ThreadAmount::try_from(1).unwrap();
    let builder = ThreadPoolBuilder::with_thread_amount(thread_num);

    let (pool, mut workers) = build(builder);

    for _ in 0..10 {
        workers.send(&pool, panic_fn);
    }

    assert!(
        workers.wait_until_finished(&pool).is_err(),
        "Pool didn't detect panic in wait_until_finished"
    );

    assert!(
        pool.has_paniced(&workers.scheduler),
        "Pool didn't detect panic in has_paniced"
    );
    workers.wait_until_finished_unchecked(&pool);

    assert!(
        workers.queued(&pool) == 0,
        "Incorrect amount of jobs queued after wait"
    );
    assert!(
        workers.running(&pool) == 0,
        "Incorrect amount of jobs running after wait"
    );
    assert!(
        workers.paniced(&pool) == 10,
        "Incorrect amount of jobs paniced after wait"
    );
}

#[test]
fn receive_value() {
    let (tx, rx) = channel::<u32>();

    let func = move || {
        tx.send(69).unwrap();
        End::Returned
    };

    let (pool, mut workers) = build(ThreadPoolBuilder::default());

    workers.send(&pool, func);
    workers.advance();

    assert_eq!(rx.recv(), Ok(69), "Incorrect value received");
}

#[test]
fn test_wait() {
    const TASKS: usize = 1000;
    const THREADS: usize = 16;

    let (pool, mut workers) =
        build(ThreadPoolBuilder::with_thread_amount_usize(THREADS).unwrap());

    for _ in 0..TASKS {
        workers.send(&pool, || End::Returned);
    }

    // The first THREADS jobs have started and none of them is done
    workers.take_all();

    assert_eq!(
        workers.running(&pool),
        THREADS,
        "Incorrect amount of jobs running"
    );
    assert_eq!(
        workers.paniced(&pool),
        0,
        "Incorrect amount of threads paniced"
    );

    assert!(
        workers.wait_until_finished(&pool).is_ok(),
        "wait_until_finished incorrectly detected a panic"
    );

    assert_eq!(
        workers.queued(&pool),
        0,
        "Incorrect amount of jobs queued after wait"
    );
    assert_eq!(
        workers.running(&pool),
        0,
        "Incorrect amount of jobs running after wait"
    );
    assert_eq!(
        workers.paniced(&pool),
        0,
        "Incorrect amount of threads paniced after wait"
    );
}

#[test]
fn test_wait_unchecked() {
    const TASKS: usize = 1000;
    const THREADS: usize = 16;

    let builder = ThreadPoolBuilder::with_thread_amount_usize(THREADS).unwrap();
    let (pool, mut workers) = build(builder);

    for _ in 0..TASKS {
        workers.send(&pool, || End::Paniced);
    }

    // The first THREADS jobs have started and none of them is done
    workers.take_all();

    assert_eq!(
        workers.running(&pool),
        THREADS,
        "Incorrect amount of jobs running"
    );
    assert_eq!(workers.paniced(&pool), 0);

    workers.wait_until_finished_unchecked(&pool);

    assert_eq!(workers.queued(&pool), 0);
    assert_eq!(workers.running(&pool), 0);
    assert_eq!(workers.paniced(&pool), TASKS);
}

#[test]
fn test_clones() {
    const TASKS: usize = 1000;
    const THREADS: usize = 16;

    let (pool, mut workers) =
        build(ThreadPoolBuilder::with_thread_amount_usize(THREADS).unwrap());
    let clone = pool.clone(&mut workers.scheduler);
    let clone_with_new_state = pool.clone_with_new_state(&mut workers.scheduler);

    for _ in 0..TASKS {
        workers.send(&pool, || End::Returned);
        workers.send(&clone_with_new_state, || End::Paniced);
    }

    // The first THREADS jobs have started and none of them is done
    workers.take_all();

    // The /2 is guaranteed because jobs are received in order
    assert_eq!(
        workers.running(&pool),
        THREADS / 2,
        "Incorrect amount of jobs running in pool"
    );
    assert_eq!(
        workers.paniced(&pool),
        0,
        "Incorrect amount of jobs paniced in pool"
    );

    // The /2 is guaranteed because jobs are received in order
    assert_eq!(
        workers.running(&clone_with_new_state),
        THREADS / 2,
        "Incorrect amount of jobs running in clone_with_new_state"
    );
    assert_eq!(
        workers.paniced(&clone_with_new_state),
        0,
        "Incorrect amount of jobs paniced in clone_with_new_state"
    );

    assert!(
        workers.wait_until_finished(&clone_with_new_state).is_err(),
        "Clone with new state didn't detect panic"
    );

    assert!(
        workers.wait_until_finished(&clone).is_ok(),
        "Pool incorrectly detected panic"
    );

    assert_eq!(
        workers.queued(&pool),
        0,
        "Incorrect amount of jobs queued in pool after wait"
    );
    assert_eq!(
        workers.running(&pool),
        0,
        "Incorrect amount of jobs running in pool after wait"
    );
    assert_eq!(
        workers.paniced(&pool),
        0,
        "Incorrect amount of jobs paniced in pool after wait"
    );

    workers.wait_until_finished_unchecked(&clone_with_new_state);
    assert!(
        workers.wait_until_finished(&clone_with_new_state).is_err(),
        "clone_with_new_state didn't detect panics after wait"
    );

    assert_eq!(
        workers.queued(&clone_with_new_state),
        0,
        "Incorrect amount of jobs queued in clone_with_new_state after wait"
    );
    assert_eq!(
        workers.running(&clone_with_new_state),
        0,
        "Incorrect amount of jobs running in clone_with_new_state after wait"
    );
    assert_eq!(
        workers.paniced(&clone_with_new_state),
        TASKS,
        "Incorrect panics in clone"
    );

    assert_eq!(
        workers.queued(&pool),
        0,
        "Incorrect amount of jobs queued in pool after everything"
    );
    assert_eq!(
        workers.running(&pool),
        0,
        "Incorrect amount of jobs running in pool after everything"
    );
    assert_eq!(
        workers.paniced(&pool),
        0,
        "Incorrect amount of jobs paniced in pool after everything"
    );
}

#[test]
fn reset_state_while_running() {
    const TASKS: usize = 32;
    const THREADS: usize = 16;

    let (mut pool, mut workers) =
        build(ThreadPoolBuilder::with_thread_amount_usize(THREADS).unwrap());

    for _ in 0..TASKS {
        workers.send(&pool, || End::Returned);
    }

    workers.take_all();

    assert_ne!(workers.queued(&pool), 0);
    assert_ne!(workers.running(&pool), 0);

    pool.reset_state(&mut workers.scheduler);

    assert_eq!(workers.queued(&pool), 0);
    assert_eq!(workers.running(&pool), 0);
    assert_eq!(workers.paniced(&pool), 0);

    workers
        .wait_until_finished(&pool)
        .expect("Nothing should panic");

    // Bring the jobs to their end
    workers.advance_all();

    assert_eq!(workers.queued(&pool), 0);
    assert_eq!(workers.running(&pool), 0);
    assert_eq!(workers.paniced(&pool), 0);
}

#[test]
fn reset_panic_test() {
    const TASKS: usize = 32;
    const THREADS: usize = 16;

    let num = ThreadAmount::try_from(THREADS).unwrap();
    let (mut pool, mut workers) = build(ThreadPoolBuilder::with_thread_amount(num));

    for _ in 0..TASKS {
        workers.send(&pool, || End::Paniced);
    }

    workers.take_all();

    assert_ne!(workers.queued(&pool), 0);
    assert_ne!(workers.running(&pool), 0);
    assert_eq!(workers.paniced(&pool), 0);

    pool.reset_state(&mut workers.scheduler);

    assert_eq!(workers.queued(&pool), 0);
    assert_eq!(workers.running(&pool), 0);
    assert_eq!(workers.paniced(&pool), 0);

    workers
        .wait_until_finished(&pool)
        .expect("Nothing should panic");

    // Bring the jobs to their end
    workers.advance_all();

    assert_eq!(workers.queued(&pool), 0);
    assert_eq!(workers.running(&pool), 0);
    assert_eq!(workers.paniced(&pool), 0);
}

#[test]
fn test_wait_until_job_done() {
    const THREADS: usize = 1;

    let builder = ThreadPoolBuilder::with_thread_amount_usize(THREADS).unwrap();
    let (pool, mut workers) = build(builder);

    assert!(workers.wait_until_job_done(&pool).is_ok());

    workers.send(&pool, || End::Returned);

    assert!(workers.wait_until_job_done(&pool).is_ok());

    assert_eq!(workers.queued(&pool), 0);
    assert_eq!(workers.running(&pool), 0);
    assert_eq!(workers.paniced(&pool), 0);

    workers.send(&pool, || End::Paniced);

    assert!(workers.wait_until_job_done(&pool).is_err());

    assert_eq!(workers.queued(&pool), 0);
    assert_eq!(workers.running(&pool), 0);
    assert_eq!(workers.paniced(&pool), 1);
}

#[test]
fn test_wait_until_job_done_unchecked() {
    const THREADS: usize = 1;

    let builder = ThreadPoolBuilder::with_thread_amount_usize(THREADS).unwrap();
    let (pool, mut workers) = build(builder);

    // This doesn't block forever
    workers.wait_until_job_done_unchecked(&pool);

    workers.send(&pool, || End::Returned);

    workers.wait_until_job_done_unchecked(&pool);

    assert_eq!(workers.queued(&pool), 0);
    assert_eq!(workers.running(&pool), 0);
    assert_eq!(workers.paniced(&pool), 0);

    workers.send(&pool, || End::Paniced);

    workers.wait_until_job_done_unchecked(&pool);

    assert_eq!(workers.queued(&pool), 0);
    assert_eq!(workers.running(&pool), 0);
    assert_eq!(workers.paniced(&pool), 1);
}

#[test]
fn test_flakiness() {
    for _ in 0..10 {
        test_wait();
        test_wait_unchecked();
        deal_with_panics();
        receive_value();
        test_clones();
        reset_state_while_running();
        test_wait_until_job_done_unchecked();
        test_wait_until_job_done();
        reset_panic_test();
    }
}

#[test]
fn jobs_of_two_instances_arrive_in_order() {
    let (tx, rx) = channel::<u32>();
    let (pool, mut workers) =
        build(ThreadPoolBuilder::with_thread_amount_usize(2).unwrap());
    let other = pool.clone_with_new_state(&mut workers.scheduler);

    for i in 0..6 {
        let tx = tx.clone();
        let job = move || {
            tx.send(i).unwrap();
            End::Returned
        };
        if i % 2 == 0 {
            workers.send(&pool, job);
        } else {
            workers.send(&other, job);
        }
    }
    workers.advance_all();

    assert_eq!(rx.try_iter().collect::<Vec<u32>>(), vec![0, 1, 2, 3, 4, 5]);
}

#[test]
fn jobs_sent_before_a_reset_still_run() {
    let (tx, rx) = channel::<u32>();
    let (mut pool, mut workers) = build(ThreadPoolBuilder::default());

    for _ in 0..3 {
        let tx = tx.clone();
        workers.send(&pool, move || {
            tx.send(1).unwrap();
            End::Paniced
        });
    }
    assert!(workers.take(0));
    pool.reset_state(&mut workers.scheduler);
    assert!(matches!(
        pool.wait_until_finished(&workers.scheduler),
        Wait::Done(Ok(()))
    ));

    workers.send(&pool, || End::Returned);
    workers.advance_all();

    assert_eq!(rx.try_iter().sum::<u32>(), 3);
    assert!(!pool.has_paniced(&workers.scheduler));
    assert_eq!(workers.paniced(&pool), 0);
}
