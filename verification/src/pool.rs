//! The handles of a pool.

use crate::builder::ThreadPoolBuilder;
use crate::laws::law_disconnect_undoes_clone;
use crate::model::{lemma_jobs_of_push, u64_values, PoolView, SchedulerView, Tally};
use crate::scheduler::Scheduler;
use crate::shared_state::{
    law_count_of_panics_ends_with_usize, state_text, usize_values, StateView,
};
use crate::text::{decimal, decimal_text};
use crate::thread_amount::ThreadAmount;
use crate::wait::{JobHasPanicedError, Wait};
use vstd::multiset::Multiset;
use vstd::prelude::*;

verus! {

/// Remembers how many jobs of an instance were done when a wait began.
pub struct JobDoneTicket {
    completed: u64,
}

impl View for JobDoneTicket {
    /// The jobs that were done, modulo `u64_values`.
    type V = nat;

    closed spec fn view(&self) -> nat {
        self.completed as nat
    }
}

/// The name of a worker thread.
pub open spec fn worker_name_text(worker: nat) -> Seq<char> {
    "Threadpool worker "@ + decimal_text(worker)
}

/// Whether `spawn`, asked for the thread of the worker under its name when `before` was started,
/// started it and made `after` of that.
pub open spec fn thread_started<S, E, F: Fn(S, usize, String) -> (S, Result<(), E>)>(
    spawn: F,
    before: S,
    worker: usize,
    after: S,
) -> bool {
    exists|name: String, result: (S, Result<(), E>)| #[trigger]
        call_ensures(spawn, (before, worker, name), result) && name@ == worker_name_text(
            worker as nat,
        ) && result.0 == after && result.1 is Ok
}

/// Whether `spawn`, asked for the thread of the worker under its name when `before` was started,
/// gave this error and made `after` of that.
pub open spec fn thread_refused<S, E, F: Fn(S, usize, String) -> (S, Result<(), E>)>(
    spawn: F,
    before: S,
    worker: usize,
    after: S,
    error: E,
) -> bool {
    exists|name: String, result: (S, Result<(), E>)| #[trigger]
        call_ensures(spawn, (before, worker, name), result) && name@ == worker_name_text(
            worker as nat,
        ) && result.0 == after && result.1 == Err::<(), E>(error)
}

/// Whether the threads of the first `amount` workers were started, each once and one after the
/// other: `stages` is what was started before each of them and after the last.
pub open spec fn threads_started<S, E, F: Fn(S, usize, String) -> (S, Result<(), E>)>(
    spawn: F,
    stages: Seq<S>,
    amount: nat,
) -> bool {
    &&& stages.len() == amount + 1
    &&& forall|worker: usize|
        worker < amount ==> #[trigger] thread_started::<S, E, F>(
            spawn,
            stages[worker as int],
            worker,
            stages[worker + 1],
        )
}

/// The error of the platform that kept a pool from starting a thread.
pub struct SpawnError<J, S, E> {
    /// Why the thread did not start.
    pub error: E,
    /// The scheduler for the threads that did start. It has no handle, so it tells them to stop.
    pub scheduler: Scheduler<J>,
    /// What was started.
    pub started: S,
}

/// Whether `spawn` can be asked for the thread of every worker.
pub open spec fn spawn_callable<S, E, F: Fn(S, usize, String) -> (S, Result<(), E>)>(
    spawn: F,
    threads: nat,
) -> bool {
    forall|before: S, worker: usize, name: String|
        worker < threads && name@ == worker_name_text(worker as nat) ==> #[trigger] call_requires(
            spawn,
            (before, worker, name),
        )
}

/// Every thread of a pool was started, one after the other, which made `end` of `start`.
pub open spec fn all_threads_started<S, E, F: Fn(S, usize, String) -> (S, Result<(), E>)>(
    spawn: F,
    threads: nat,
    start: S,
    end: S,
) -> bool {
    exists|stages: Seq<S>| #[trigger]
        threads_started::<S, E, F>(spawn, stages, threads) && stages.first() == start
            && stages.last() == end
}

/// The threads of some first workers were started, one after the other, and the next was not, for
/// this reason. No thread was asked for after that. All this made `end` of `start`.
pub open spec fn a_thread_refused<S, E, F: Fn(S, usize, String) -> (S, Result<(), E>)>(
    spawn: F,
    threads: nat,
    start: S,
    end: S,
    error: E,
) -> bool {
    exists|stages: Seq<S>, failed: usize|
        {
            &&& failed < threads
            &&& #[trigger] threads_started::<S, E, F>(spawn, stages, failed as nat)
            &&& stages.first() == start
            &&& thread_refused(spawn, stages.last(), failed, end, error)
        }
}

/// What building a pool comes to. If every thread started there is a handle of the first
/// instance, and a scheduler that serves it. Otherwise the error is the one of the first thread
/// that did not start, and no handle is left.
pub open spec fn build_outcome<J, S, E, F: Fn(S, usize, String) -> (S, Result<(), E>)>(
    threads: nat,
    start: S,
    spawn: F,
    r: Result<(ThreadPool, Scheduler<J>, S), SpawnError<J, S, E>>,
) -> bool {
    let built = SchedulerView::<J>::started(threads).opened();
    match r {
        Ok((pool, scheduler, started)) => {
            &&& all_threads_started::<S, E, F>(spawn, threads, start, started)
            &&& scheduler.wf()
            &&& scheduler@ == built
            &&& pool@ == (PoolView { threads, instance: 0 })
            &&& scheduler@.serves(pool@)
        },
        Err(refused) => {
            &&& a_thread_refused(spawn, threads, start, refused.started, refused.error)
            &&& refused.scheduler.wf()
            &&& refused.scheduler@ == built.disconnected(0)
            &&& refused.scheduler@.handles.len() == 0
        },
    }
}

/// A pool that was built has started the thread of every worker that its handle speaks of: for
/// each number below the amount of threads that the handle reports, `spawn` was called with that
/// number and the name of the worker and started the thread. Its scheduler has that many workers,
/// none of them busy, an empty queue, and one handle, of an instance without a panic.
pub proof fn law_build_starts_every_thread<
    J,
    S,
    E,
    F: Fn(S, usize, String) -> (S, Result<(), E>),
>(
    threads: nat,
    start: S,
    spawn: F,
    r: Result<(ThreadPool, Scheduler<J>, S), SpawnError<J, S, E>>,
    worker: usize,
)
    requires
        build_outcome(threads, start, spawn, r),
        r is Ok,
    ensures
        ({
            let pool = r->Ok_0.0@;
            let scheduler = r->Ok_0.1@;
            &&& pool.threads == threads
            &&& worker < pool.threads ==> exists|before: S, name: String, result: (S, Result<(), E>)|
                {
                    &&& #[trigger] call_ensures(spawn, (before, worker, name), result)
                    &&& name@ == "Threadpool worker "@ + decimal_text(worker as nat)
                    &&& result.1 is Ok
                }
            &&& scheduler.threads == threads
            &&& scheduler.queue.len() == 0
            &&& scheduler.busy == Map::<usize, u64>::empty()
            &&& scheduler.handles == Multiset::<u64>::empty().insert(pool.instance)
            &&& scheduler.tallies[pool.instance] == (Tally { paniced: 0, completed: 0 })
        }),
{
    let end = r->Ok_0.2;
    let stages = choose|stages: Seq<S>| #[trigger]
        threads_started::<S, E, F>(spawn, stages, threads) && stages.first() == start
            && stages.last() == end;
    if worker < threads {
        assert(thread_started::<S, E, F>(
            spawn,
            stages[worker as int],
            worker,
            stages[worker + 1],
        ));
    }
}

/// What was started before each thread of a pool and after the last.
pub open spec fn build_stages<S, E, F: Fn(S, usize, String) -> (S, Result<(), E>)>(
    spawn: F,
    threads: nat,
    start: S,
    end: S,
) -> Seq<S> {
    choose|stages: Seq<S>| #[trigger]
        threads_started::<S, E, F>(spawn, stages, threads) && stages.first() == start
            && stages.last() == end
}

/// The threads of a pool are started one after the other: there is a stage before each of them and
/// one after the last, from `start` to what is given back, and at each of them `spawn` was called
/// with the number of the next worker and led to the next stage.
pub proof fn law_build_starts_threads_in_order<
    J,
    S,
    E,
    F: Fn(S, usize, String) -> (S, Result<(), E>),
>(
    threads: nat,
    start: S,
    spawn: F,
    r: Result<(ThreadPool, Scheduler<J>, S), SpawnError<J, S, E>>,
    worker: usize,
)
    requires
        build_outcome(threads, start, spawn, r),
        r is Ok,
    ensures
        ({
            let pool = r->Ok_0.0@;
            let stages = build_stages::<S, E, F>(spawn, pool.threads, start, r->Ok_0.2);
            &&& stages.len() == pool.threads + 1
            &&& stages[0] == start
            &&& stages[stages.len() - 1] == r->Ok_0.2
            &&& worker < pool.threads ==> exists|name: String, result: (S, Result<(), E>)|
                {
                    &&& #[trigger] call_ensures(
                        spawn,
                        (stages[worker as int], worker, name),
                        result,
                    )
                    &&& result.0 == stages[worker + 1]
                    &&& result.1 is Ok
                }
        }),
{
    let stages = build_stages::<S, E, F>(spawn, threads, start, r->Ok_0.2);
    if worker < threads {
        assert(thread_started::<S, E, F>(
            spawn,
            stages[worker as int],
            worker,
            stages[worker + 1],
        ));
    }
}

/// A pool that was not built met a refusal: `spawn` was called with the number of some worker and
/// gave the error that is given back, and the threads of all workers before that one were started.
pub proof fn law_build_fails_with_first_refusal<
    J,
    S,
    E,
    F: Fn(S, usize, String) -> (S, Result<(), E>),
>(
    threads: nat,
    start: S,
    spawn: F,
    r: Result<(ThreadPool, Scheduler<J>, S), SpawnError<J, S, E>>,
    worker: usize,
) -> (failed: usize)
    requires
        build_outcome(threads, start, spawn, r),
        r is Err,
    ensures
        failed < threads,
        exists|before: S, name: String, result: (S, Result<(), E>)|
            {
                &&& #[trigger] call_ensures(spawn, (before, failed, name), result)
                &&& name@ == "Threadpool worker "@ + decimal_text(failed as nat)
                &&& result.1 == Err::<(), E>(r->Err_0.error)
                &&& result.0 == r->Err_0.started
            },
        worker < failed ==> exists|before: S, name: String, result: (S, Result<(), E>)|
            {
                &&& #[trigger] call_ensures(spawn, (before, worker, name), result)
                &&& name@ == "Threadpool worker "@ + decimal_text(worker as nat)
                &&& result.1 is Ok
            },
        r->Err_0.scheduler@.threads == threads,
        r->Err_0.scheduler@.queue.len() == 0,
        r->Err_0.scheduler@.handles.len() == 0,
{
    let end = r->Err_0.started;
    let error = r->Err_0.error;
    let (stages, failed) = choose|stages: Seq<S>, failed: usize|
        {
            &&& failed < threads
            &&& #[trigger] threads_started::<S, E, F>(spawn, stages, failed as nat)
            &&& stages.first() == start
            &&& thread_refused(spawn, stages.last(), failed, end, error)
        };
    if worker < failed {
        assert(thread_started::<S, E, F>(
            spawn,
            stages[worker as int],
            worker,
            stages[worker + 1],
        ));
    }
    failed
}

/// The text that shows a handle and the counters of its instance.
pub open spec fn pool_text(threads: nat, state: StateView) -> Seq<char> {
    "Threadpool< thread_amount: "@ + decimal_text(threads) + ", shared_state: "@
        + state_text(state) + ">"@
}

/// The name of the worker's thread.
pub fn worker_name(worker: usize) -> (s: String)
    ensures
        s@ == worker_name_text(worker as nat),
        s@ == "Threadpool worker "@ + decimal_text(worker as nat),
{
    let mut s = String::from_str("Threadpool worker ");
    s.append(decimal(worker).as_str());
    s
}

/// Threadpool abstraction to keep some state
///
/// A handle belongs to one instance of the pool. All its functions take the scheduler of the
/// pool, which has to serve the handle. Serving compares the number of threads and the number of
/// the instance, and these do not tell two pools of the same size apart: whoever holds a handle
/// keeps it with the scheduler that it was built with.
#[derive(Debug)]
pub struct ThreadPool {
    thread_amount: ThreadAmount,
    instance: u64,
}

impl View for ThreadPool {
    type V = PoolView;

    closed spec fn view(&self) -> PoolView {
        PoolView { threads: self.thread_amount@, instance: self.instance }
    }
}

impl ThreadPool {
    /// The first handle of a new pool, and the scheduler of the pool. The threads are started
    /// here, one for each worker, in the order of their numbers: `spawn` gets what was started
    /// before, and the number and the name of the worker.
    pub(crate) fn new<J, S, E, F: Fn(S, usize, String) -> (S, Result<(), E>)>(
        builder: ThreadPoolBuilder,
        start: S,
        spawn: F,
    ) -> (r: Result<(ThreadPool, Scheduler<J>, S), SpawnError<J, S, E>>)
        requires
            spawn_callable::<S, E, F>(spawn, builder@),
        ensures
            build_outcome(builder@, start, spawn, r),
    {
        let thread_amount = builder.thread_amount();
        let mut scheduler = Scheduler::new(thread_amount);
        let instance: u64 = scheduler.open();
        let pool = ThreadPool { thread_amount, instance };
        let amount: usize = thread_amount.get();
        let mut started = start;
        let ghost mut stages = seq![start];
        let mut worker: usize = 0;
        while worker < amount
            invariant
                worker <= amount,
                amount == builder@,
                spawn_callable::<S, E, F>(spawn, builder@),
                threads_started::<S, E, F>(spawn, stages, worker as nat),
                stages.first() == start,
                stages.last() == started,
                scheduler.wf(),
                scheduler@ == SchedulerView::<J>::started(builder@).opened(),
                pool@ == (PoolView { threads: builder@, instance: 0 }),
            decreases amount - worker,
        {
            let (after, result) = spawn(started, worker, worker_name(worker));
            if let Err(error) = result {
                pool.disconnect(&mut scheduler);
                assert(scheduler@.handles =~= Multiset::empty());
                let refused = SpawnError { error, scheduler, started: after };
                assert(thread_refused(
                    spawn,
                    stages.last(),
                    worker,
                    refused.started,
                    refused.error,
                ));
                return Err(refused);
            }
            assert(thread_started::<S, E, F>(spawn, stages.last(), worker, after));
            proof {
                let before = stages;
                stages = stages.push(after);
                assert forall|w: usize| w < worker + 1 implies #[trigger] thread_started::<S, E, F>(
                    spawn,
                    stages[w as int],
                    w,
                    stages[w + 1],
                ) by {
                    if w < worker {
                        assert(thread_started::<S, E, F>(
                            spawn,
                            before[w as int],
                            w,
                            before[w + 1],
                        ));
                    }
                }
            }
            started = after;
            worker = worker + 1;
        }
        assert(all_threads_started::<S, E, F>(spawn, builder@, start, started));
        Ok((pool, scheduler, started))
    }

    /// The `send_job` function takes in a job and sends it to the threadpool to be executed. Jobs
    /// will be taken from the job queue in order of them being sent, but that in no way
    /// guarantees they will be executed in order.
    pub fn send_job<J>(&self, scheduler: &mut Scheduler<J>, job: J)
        requires
            old(scheduler).wf(),
            old(scheduler)@.serves(self@),
            old(scheduler)@.queue.len() < usize::MAX,
        ensures
            final(scheduler).wf(),
            final(scheduler)@ == old(scheduler)@.sent(self@.instance, job),
            final(scheduler)@ == (SchedulerView {
                queue: old(scheduler)@.queue.push((self@.instance, job)),
                ..old(scheduler)@
            }),
            final(scheduler)@.serves(self@),
            final(scheduler)@.queued(self@.instance) == old(scheduler)@.queued(self@.instance) + 1,
            !final(scheduler)@.finished(self@.instance),
    {
        proof {
            lemma_jobs_of_push(scheduler@.queue, self.instance, job);
        }
        scheduler.send(self.instance, job);
    }

    /// This function decides whether a thread that waits until all jobs have finished goes on
    /// waiting. It stops waiting early if any job panics.
    ///
    /// Be careful though, returning early DOES NOT mean that the sent jobs are cancelled. They
    /// will remain running.
    ///
    /// # Errors
    ///
    /// The wait ends with an error if any job sent by this instance has paniced, since the
    /// instance was opened.
    pub fn wait_until_finished<J>(&self, scheduler: &Scheduler<J>) -> (r: Wait<
        Result<(), JobHasPanicedError>,
    >)
        requires
            scheduler.wf(),
            scheduler@.serves(self@),
        ensures
            r == scheduler@.finish_wait(self@.instance),
    {
        let state = scheduler.state(self.instance);
        if !state.is_finished() && !state.has_paniced() {
            Wait::Block
        } else if state.has_paniced() {
            Wait::Done(Err(JobHasPanicedError {  }))
        } else {
            Wait::Done(Ok(()))
        }
    }

    /// Begins a wait until one job is done: a job counts if it is done after this.
    pub fn job_done_ticket<J>(&self, scheduler: &Scheduler<J>) -> (r: JobDoneTicket)
        requires
            scheduler.wf(),
            scheduler@.serves(self@),
        ensures
            r@ == scheduler@.completed(self@.instance) % u64_values(),
            r@ == scheduler@.tallies[self@.instance].completed % 0x1_0000_0000_0000_0000,
    {
        JobDoneTicket { completed: scheduler.completed(self.instance) }
    }

    /// This function decides whether a thread that waits until one job is done goes on waiting.
    /// The job has to be done since the ticket was taken, whether it paniced or not. The wait
    /// also ends if the instance is finished.
    ///
    /// # Errors
    ///
    /// The wait ends with an error if any job sent by this instance has paniced, since the
    /// instance was opened.
    pub fn wait_until_job_done<J>(
        &self,
        scheduler: &Scheduler<J>,
        ticket: &JobDoneTicket,
    ) -> (r: Wait<Result<(), JobHasPanicedError>>)
        requires
            scheduler.wf(),
            scheduler@.serves(self@),
        ensures
            r == scheduler@.job_done_wait(self@.instance, ticket@),
    {
        let state = scheduler.state(self.instance);
        if !state.is_finished() && scheduler.completed(self.instance) == ticket.completed {
            Wait::Block
        } else if state.has_paniced() {
            Wait::Done(Err(JobHasPanicedError {  }))
        } else {
            Wait::Done(Ok(()))
        }
    }

    /// This function decides whether a thread that waits until all jobs have finished goes on
    /// waiting. A job that panics does not end the wait.
    pub fn wait_until_finished_unchecked<J>(&self, scheduler: &Scheduler<J>) -> (r: Wait<()>)
        requires
            scheduler.wf(),
            scheduler@.serves(self@),
        ensures
            r == scheduler@.finish_wait_unchecked(self@.instance),
    {
        if scheduler.state(self.instance).is_finished() {
            Wait::Done(())
        } else {
            Wait::Block
        }
    }

    /// This function decides whether a thread that waits until one job is done goes on waiting.
    /// The job has to be done since the ticket was taken. The wait also ends if the instance is
    /// finished.
    pub fn wait_until_job_done_unchecked<J>(
        &self,
        scheduler: &Scheduler<J>,
        ticket: &JobDoneTicket,
    ) -> (r: Wait<()>)
        requires
            scheduler.wf(),
            scheduler@.serves(self@),
        ensures
            r == scheduler@.job_done_wait_unchecked(self@.instance, ticket@),
    {
        if scheduler.state(self.instance).is_finished() || scheduler.completed(self.instance)
            != ticket.completed {
            Wait::Done(())
        } else {
            Wait::Block
        }
    }

    /// This function will reset the state of this instance of the threadpool.
    ///
    /// When resetting the state you lose all information about previously sent jobs. If a job
    /// you previously sent panics, you will not be notified, nor can you wait until your
    /// previously sent jobs are done running. HOWEVER they will still be running. Be very careful
    /// to not see this as a "stop" button.
    pub fn reset_state<J>(&mut self, scheduler: &mut Scheduler<J>)
        requires
            old(scheduler).wf(),
            old(scheduler)@.serves(old(self)@),
            old(scheduler)@.next < u64::MAX,
        ensures
            final(scheduler).wf(),
            final(scheduler)@ == old(scheduler)@.disconnected(old(self)@.instance).opened(),
            final(scheduler)@.queue == old(scheduler)@.queue,
            final(scheduler)@.busy == old(scheduler)@.busy,
            final(scheduler)@.threads == old(scheduler)@.threads,
            final(scheduler)@.handles == old(scheduler)@.handles.remove(
                old(self)@.instance,
            ).insert(final(self)@.instance),
            old(scheduler)@.handles.count(final(self)@.instance) == 0,
            final(scheduler)@.tallies[final(self)@.instance] == (Tally {
                paniced: 0,
                completed: 0,
            }),
            forall|other: u64|
                other != final(self)@.instance && final(scheduler)@.handles.count(other) > 0
                    ==> #[trigger] final(scheduler)@.tallies[other]
                    == old(scheduler)@.tallies[other],
            final(self)@ == (PoolView {
                instance: old(scheduler)@.next as u64,
                ..old(self)@
            }),
            final(scheduler)@.serves(final(self)@),
            final(scheduler)@.state_of(final(self)@.instance) == StateView::fresh(),
            final(scheduler)@.completed(final(self)@.instance) == 0,
    {
        proof {
            scheduler.lemma_wf();
            scheduler@.lemma_opened_wf();
            scheduler@.disconnected(self.instance).lemma_opened_fresh();
        }
        scheduler.disconnect(self.instance);
        self.instance = scheduler.open();
    }

    /// Another handle of the same instance.
    pub fn clone<J>(&self, scheduler: &mut Scheduler<J>) -> (r: ThreadPool)
        requires
            old(scheduler).wf(),
            old(scheduler)@.serves(self@),
            old(scheduler)@.handles.len() < usize::MAX,
        ensures
            final(scheduler).wf(),
            final(scheduler)@ == old(scheduler)@.connected(self@.instance),
            final(scheduler)@ == (SchedulerView {
                handles: old(scheduler)@.handles.insert(self@.instance),
                ..old(scheduler)@
            }),
            r@ == self@,
            final(scheduler)@.serves(self@),
    {
        scheduler.connect(self.instance);
        ThreadPool { thread_amount: self.thread_amount, instance: self.instance }
    }

    /// This function will clone the threadpool and then reset its state. This makes it so you can
    /// have 2 different states operate on the same threads, effectively sharing the threads.
    ///
    /// Note however that there is no mechanism to give different instances equal CPU time, jobs
    /// are executed on a first come first server basis.
    pub fn clone_with_new_state<J>(&self, scheduler: &mut Scheduler<J>) -> (r: ThreadPool)
        requires
            old(scheduler).wf(),
            old(scheduler)@.serves(self@),
            old(scheduler)@.handles.len() < usize::MAX,
            old(scheduler)@.next < u64::MAX,
        ensures
            final(scheduler).wf(),
            final(scheduler)@ == old(scheduler)@.opened(),
            final(scheduler)@.queue == old(scheduler)@.queue,
            final(scheduler)@.busy == old(scheduler)@.busy,
            final(scheduler)@.threads == old(scheduler)@.threads,
            final(scheduler)@.handles == old(scheduler)@.handles.insert(r@.instance),
            old(scheduler)@.handles.count(r@.instance) == 0,
            final(scheduler)@.tallies == old(scheduler)@.tallies.insert(
                r@.instance,
                Tally { paniced: 0, completed: 0 },
            ),
            r@ == (PoolView { instance: old(scheduler)@.next as u64, ..self@ }),
            r@.instance != self@.instance,
            final(scheduler)@.serves(self@),
            final(scheduler)@.serves(r@),
            final(scheduler)@.state_of(r@.instance) == StateView::fresh(),
            final(scheduler)@.completed(r@.instance) == 0,
    {
        proof {
            scheduler.lemma_wf();
            assert(scheduler@.tallies.contains_key(self.instance));
            law_disconnect_undoes_clone(scheduler@, self.instance);
        }
        let mut new_pool = self.clone(scheduler);
        new_pool.reset_state(scheduler);
        new_pool
    }

    /// Gives the handle up. Its instance is forgotten once it has neither a handle nor a job
    /// left, and the workers stop once no handle is left at all and every job was taken.
    pub fn disconnect<J>(self, scheduler: &mut Scheduler<J>)
        requires
            old(scheduler).wf(),
            old(scheduler)@.serves(self@),
        ensures
            final(scheduler).wf(),
            final(scheduler)@ == old(scheduler)@.disconnected(self@.instance),
            final(scheduler)@.queue == old(scheduler)@.queue,
            final(scheduler)@.busy == old(scheduler)@.busy,
            final(scheduler)@.threads == old(scheduler)@.threads,
            final(scheduler)@.handles == old(scheduler)@.handles.remove(self@.instance),
            forall|other: u64|
                final(scheduler)@.handles.count(other) > 0
                    ==> #[trigger] final(scheduler)@.tallies[other]
                    == old(scheduler)@.tallies[other],
    {
        scheduler.disconnect(self.instance);
    }

    /// Whether the scheduler has as many workers as the handle has threads, and a handle connected
    /// to the instance with this handle's number. That is so of the scheduler of the handle's own
    /// pool, and can be so of that of another pool of the same size: whoever holds the handle
    /// keeps it with its own scheduler.
    pub fn is_served_by<J>(&self, scheduler: &Scheduler<J>) -> (b: bool)
        requires
            scheduler.wf(),
        ensures
            b == scheduler@.serves(self@),
            b == (self@.threads == scheduler@.threads && scheduler@.handles.count(self@.instance)
                > 0),
    {
        self.thread_amount.get() == scheduler.threads().get() && scheduler.is_connected(
            self.instance,
        )
    }

    /// Returns the amount of jobs currently being ran by this instance of the thread pool. If
    /// multiple different instances of this threadpool exist this number might be lower than the
    /// max amount of threads, even if there are still jobs queued
    pub fn jobs_running<J>(&self, scheduler: &Scheduler<J>) -> (n: usize)
        requires
            scheduler.wf(),
            scheduler@.serves(self@),
        ensures
            n == scheduler@.running(self@.instance),
    {
        scheduler.state(self.instance).jobs_running()
    }

    /// Returns the amount of jobs currently queued by this threadpool instance. There might be
    /// more jobs queued that we don't know about if there are other instances of this threadpool.
    pub fn jobs_queued<J>(&self, scheduler: &Scheduler<J>) -> (n: usize)
        requires
            scheduler.wf(),
            scheduler@.serves(self@),
        ensures
            n == scheduler@.queued(self@.instance),
    {
        scheduler.state(self.instance).jobs_queued()
    }

    /// Returns the amount of jobs that were sent by this instance of the threadpool and that
    /// paniced.
    pub fn jobs_paniced<J>(&self, scheduler: &Scheduler<J>) -> (n: usize)
        requires
            scheduler.wf(),
            scheduler@.serves(self@),
        ensures
            n == scheduler@.paniced(self@.instance) % usize_values(),
            scheduler@.tallies[self@.instance].paniced <= usize::MAX ==> n
                == scheduler@.tallies[self@.instance].paniced,
    {
        proof {
            law_count_of_panics_ends_with_usize(scheduler@.paniced(self.instance));
        }
        scheduler.state(self.instance).jobs_paniced()
    }

    /// Returns whether a thread has had any jobs panic at all
    pub fn has_paniced<J>(&self, scheduler: &Scheduler<J>) -> (b: bool)
        requires
            scheduler.wf(),
            scheduler@.serves(self@),
        ensures
            b == (scheduler@.paniced(self@.instance) > 0),
            b == (scheduler@.tallies[self@.instance].paniced > 0),
    {
        scheduler.state(self.instance).has_paniced()
    }

    /// Returns whether a threadpool instance has no jobs running and no jobs queued, in other
    /// words if it's finished.
    pub fn is_finished<J>(&self, scheduler: &Scheduler<J>) -> (b: bool)
        requires
            scheduler.wf(),
            scheduler@.serves(self@),
        ensures
            b == scheduler@.finished(self@.instance),
    {
        scheduler.state(self.instance).is_finished()
    }

    /// This function returns the amount of threads used to create the threadpool
    pub fn threads(&self) -> (r: ThreadAmount)
        ensures
            r@ == self@.threads,
    {
        self.thread_amount
    }

    /// Shows the amount of threads and the counters of the instance.
    pub fn to_string<J>(&self, scheduler: &Scheduler<J>) -> (s: String)
        requires
            scheduler.wf(),
            scheduler@.serves(self@),
        ensures
            s@ == pool_text(self@.threads, scheduler@.state_of(self@.instance)),
            s@ == "Threadpool< thread_amount: "@ + decimal_text(self@.threads)
                + ", shared_state: "@ + state_text(scheduler@.state_of(self@.instance)) + ">"@,
    {
        let mut s = String::from_str("Threadpool< thread_amount: ");
        s.append(decimal(self.thread_amount.get()).as_str());
        s.append(", shared_state: ");
        s.append(scheduler.state(self.instance).to_string().as_str());
        s.append(">");
        s
    }
}

} // verus!
