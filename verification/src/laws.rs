//! What holds of a pool as a whole, over every step that it can take and every history of steps.
//!
//! The threads that use a pool take the lock of its scheduler for each call, so whatever they do
//! at the same time comes to some sequence of steps. What holds of every possible history holds
//! therefore of every way in which the threads can interleave.

use crate::model::{
    jobs_of, lemma_jobs_of_entry, lemma_jobs_of_first, lemma_jobs_of_push, lemma_workers_on_insert,
    lemma_workers_on_remove, u64_values, SchedulerView,
};
use crate::shared_state::{usize_values, Event, StateView};
use crate::wait::{wait_result, JobHasPanicedError, Wait};
use vstd::arithmetic::div_mod::{lemma_add_mod_noop_right, lemma_mod_equivalence, lemma_small_mod};
use vstd::prelude::*;

verus! {

/// A step of a pool: what a handle asks for, or what a worker does.
pub enum Step<J> {
    /// A handle of the instance is cloned.
    Clone(u64),
    /// A handle of the instance is cloned with a new state.
    CloneWithNewState(u64),
    /// A handle of the instance resets its state.
    Reset(u64),
    /// A handle of the instance is given up.
    Disconnect(u64),
    /// A handle of the instance sends a job.
    Send(u64, J),
    /// The idle worker takes a job.
    Take(usize),
    /// The busy worker is done with its job, which paniced or not.
    Done(usize, bool),
}

impl<J> SchedulerView<J> {
    /// Whether the step can be taken: a handle has to be there, and so has the job or the worker.
    pub open spec fn can(self, step: Step<J>) -> bool {
        match step {
            Step::Clone(instance) => self.handles.count(instance) > 0,
            Step::CloneWithNewState(instance) => self.handles.count(instance) > 0 && self.next
                < u64::MAX,
            Step::Reset(instance) => self.handles.count(instance) > 0 && self.next < u64::MAX,
            Step::Disconnect(instance) => self.handles.count(instance) > 0,
            Step::Send(instance, job) => self.handles.count(instance) > 0,
            Step::Take(worker) => {
                &&& self.queue.len() > 0
                &&& worker < self.threads
                &&& !self.busy.contains_key(worker)
            },
            Step::Done(worker, paniced) => self.busy.contains_key(worker),
        }
    }

    /// The scheduler after the step.
    pub open spec fn after(self, step: Step<J>) -> SchedulerView<J> {
        match step {
            Step::Clone(instance) => self.connected(instance),
            Step::CloneWithNewState(instance) => self.opened(),
            Step::Reset(instance) => self.disconnected(instance).opened(),
            Step::Disconnect(instance) => self.disconnected(instance),
            Step::Send(instance, job) => self.sent(instance, job),
            Step::Take(worker) => self.taken(worker),
            Step::Done(worker, paniced) => self.done(worker, paniced),
        }
    }

    /// Whether the step is about the instance: one of its handles or jobs, or its opening.
    pub open spec fn concerns(self, step: Step<J>, instance: u64) -> bool {
        match step {
            Step::Clone(of) => instance == of,
            Step::CloneWithNewState(of) => instance == self.next,
            Step::Reset(of) => instance == of || instance == self.next,
            Step::Disconnect(of) => instance == of,
            Step::Send(of, job) => instance == of,
            Step::Take(worker) => instance == self.queue.first().0,
            Step::Done(worker, paniced) => instance == self.busy[worker],
        }
    }

    /// The scheduler of a pool that was built and then took these steps, oldest first.
    pub open spec fn of_history(threads: nat, steps: Seq<Step<J>>) -> SchedulerView<J>
        decreases steps.len(),
    {
        if steps.len() == 0 {
            SchedulerView::started(threads).opened()
        } else {
            SchedulerView::of_history(threads, steps.drop_last()).after(steps.last())
        }
    }

    /// Whether each of the steps could be taken when it was.
    pub open spec fn possible(threads: nat, steps: Seq<Step<J>>) -> bool
        decreases steps.len(),
    {
        if steps.len() == 0 {
            0 < threads <= usize::MAX
        } else {
            &&& SchedulerView::possible(threads, steps.drop_last())
            &&& SchedulerView::of_history(threads, steps.drop_last()).can(steps.last())
        }
    }
}

/// Every step keeps a scheduler well formed.
pub proof fn law_steps_keep_wf<J>(s: SchedulerView<J>, step: Step<J>)
    requires
        s.wf(),
        s.can(step),
    ensures
        s.after(step).wf(),
{
    match step {
        Step::Clone(instance) => s.lemma_connected_wf(instance),
        Step::CloneWithNewState(instance) => s.lemma_opened_wf(),
        Step::Reset(instance) => {
            s.lemma_disconnected_wf(instance);
            s.disconnected(instance).lemma_opened_wf();
        },
        Step::Disconnect(instance) => s.lemma_disconnected_wf(instance),
        Step::Send(instance, job) => s.lemma_sent_wf(instance, job),
        Step::Take(worker) => s.lemma_taken_wf(worker),
        Step::Done(worker, paniced) => s.lemma_done_wf(worker, paniced),
    }
}

/// A pool is well formed in every state that it can reach.
pub proof fn law_history_wf<J>(threads: nat, steps: Seq<Step<J>>)
    requires
        SchedulerView::possible(threads, steps),
    ensures
        SchedulerView::of_history(threads, steps).wf(),
    decreases steps.len(),
{
    if steps.len() == 0 {
        SchedulerView::<J>::lemma_started_wf(threads);
        SchedulerView::<J>::started(threads).lemma_opened_wf();
    } else {
        law_history_wf(threads, steps.drop_last());
        law_steps_keep_wf(SchedulerView::of_history(threads, steps.drop_last()), steps.last());
    }
}

/// Instances do not affect each other: a step that is not about an instance leaves its counters,
/// its handles and its tally as they were. In particular its waits go on as before, and a job of
/// another instance that panics is not its panic.
pub proof fn law_instances_are_isolated<J>(s: SchedulerView<J>, step: Step<J>, instance: u64)
    requires
        s.wf(),
        s.can(step),
        s.known(instance),
        !s.concerns(step, instance),
    ensures
        s.after(step).state_of(instance) == s.state_of(instance),
        s.after(step).handles.count(instance) == s.handles.count(instance),
        s.after(step).tallies[instance] == s.tallies[instance],
        s.after(step).known(instance),
        s.after(step).finish_wait(instance) == s.finish_wait(instance),
        s.after(step).finish_wait_unchecked(instance) == s.finish_wait_unchecked(instance),
        forall|ticket: nat|
            s.after(step).job_done_wait(instance, ticket) == #[trigger] s.job_done_wait(
                instance,
                ticket,
            ),
        forall|ticket: nat|
            s.after(step).job_done_wait_unchecked(instance, ticket)
                == #[trigger] s.job_done_wait_unchecked(instance, ticket),
{
    match step {
        Step::Send(of, job) => lemma_jobs_of_push(s.queue, of, job),
        Step::Take(worker) => {
            lemma_jobs_of_first(s.queue);
            lemma_workers_on_insert(s.busy, worker, s.queue.first().0);
        },
        Step::Done(worker, paniced) => lemma_workers_on_remove(s.busy, worker),
        _ => {},
    }
}

/// Handles come and go one at a time, and only by what is done with them: a clone adds one to its
/// instance, giving a handle up or resetting it takes one away, and a new instance starts with
/// one. No step changes the number of threads.
pub proof fn law_handles_are_counted<J>(s: SchedulerView<J>, step: Step<J>, instance: u64)
    requires
        s.wf(),
        s.can(step),
    ensures
        s.after(step).threads == s.threads,
        s.after(step).handles.count(instance) - s.handles.count(instance) == match step {
            Step::Clone(of) if of == instance => 1int,
            Step::Disconnect(of) if of == instance => -1,
            Step::Reset(of) if of == instance => -1,
            Step::Reset(_) if instance == s.next => 1,
            Step::CloneWithNewState(_) if instance == s.next => 1,
            _ => 0,
        },
        instance >= s.next ==> s.handles.count(instance) == 0,
{
    assert(s.tallies.contains_key(instance) <==> s.known(instance));
}

/// The counters of an instance change by the events of its jobs and by nothing else: a job that
/// is sent is queued, a job that is taken starts, and a job that is done has paniced or not and
/// is finished.
pub proof fn law_counters_follow_jobs<J>(s: SchedulerView<J>, step: Step<J>)
    requires
        s.wf(),
        s.can(step),
    ensures
        match step {
            Step::Clone(instance) => s.after(step).state_of(instance) == s.state_of(instance),
            Step::CloneWithNewState(_) => s.after(step).state_of(s.next as u64)
                == StateView::fresh(),
            Step::Reset(_) => s.after(step).state_of(s.next as u64) == StateView::fresh(),
            Step::Disconnect(instance) => s.after(step).known(instance) ==> s.after(step).state_of(
                instance,
            ) == s.state_of(instance),
            Step::Send(instance, _) => s.after(step).state_of(instance) == s.state_of(
                instance,
            ).after(Event::Queued),
            Step::Take(_) => s.after(step).state_of(s.queue.first().0) == s.state_of(
                s.queue.first().0,
            ).after(Event::Starting),
            Step::Done(worker, paniced) => s.after(step).known(s.busy[worker]) ==> s.after(
                step,
            ).state_of(s.busy[worker]) == if paniced {
                s.state_of(s.busy[worker]).after(Event::Paniced).after(Event::Finished)
            } else {
                s.state_of(s.busy[worker]).after(Event::Finished)
            },
        },
{
    match step {
        Step::Clone(instance) => {},
        Step::CloneWithNewState(instance) => s.lemma_opened_fresh(),
        Step::Reset(instance) => s.disconnected(instance).lemma_opened_fresh(),
        Step::Disconnect(instance) => {},
        Step::Send(instance, job) => lemma_jobs_of_push(s.queue, instance, job),
        Step::Take(worker) => {
            lemma_jobs_of_first(s.queue);
            lemma_workers_on_insert(s.busy, worker, s.queue.first().0);
        },
        Step::Done(worker, paniced) => {
            lemma_workers_on_remove(s.busy, worker);
            lemma_add_mod_noop_right(
                1,
                s.paniced(s.busy[worker]) as int,
                usize_values() as int,
            );
        },
    }
}

/// The jobs that were sent, each with its instance, in order.
pub open spec fn sent_jobs<J>(steps: Seq<Step<J>>) -> Seq<(u64, J)>
    decreases steps.len(),
{
    if steps.len() == 0 {
        Seq::empty()
    } else {
        let before = sent_jobs(steps.drop_last());
        match steps.last() {
            Step::Send(instance, job) => before.push((instance, job)),
            _ => before,
        }
    }
}

/// The jobs that workers took, each with its instance, in order.
pub open spec fn taken_jobs<J>(threads: nat, steps: Seq<Step<J>>) -> Seq<(u64, J)>
    decreases steps.len(),
{
    if steps.len() == 0 {
        Seq::empty()
    } else {
        let before = taken_jobs(threads, steps.drop_last());
        match steps.last() {
            Step::Take(worker) => before.push(
                SchedulerView::of_history(threads, steps.drop_last()).queue.first(),
            ),
            _ => before,
        }
    }
}

/// Jobs are taken in the order in which they were sent, by whichever handle, and each of them
/// once: the jobs that were sent are those that were taken followed by those in the queue.
pub proof fn law_first_come_first_served<J>(threads: nat, steps: Seq<Step<J>>)
    requires
        SchedulerView::possible(threads, steps),
    ensures
        sent_jobs(steps) == taken_jobs(threads, steps) + SchedulerView::of_history(
            threads,
            steps,
        ).queue,
    decreases steps.len(),
{
    if steps.len() > 0 {
        law_first_come_first_served(threads, steps.drop_last());
        assert(sent_jobs(steps) =~= taken_jobs(threads, steps) + SchedulerView::of_history(
            threads,
            steps,
        ).queue);
    }
}

/// How many jobs of the instance were sent.
pub open spec fn sent_count<J>(steps: Seq<Step<J>>, instance: u64) -> nat {
    jobs_of(sent_jobs(steps), instance)
}

/// How many jobs of the instance were done, only those that paniced if `only_paniced`.
pub open spec fn done_count<J>(
    threads: nat,
    steps: Seq<Step<J>>,
    instance: u64,
    only_paniced: bool,
) -> nat
    decreases steps.len(),
{
    if steps.len() == 0 {
        0
    } else {
        let before = done_count(threads, steps.drop_last(), instance, only_paniced);
        match steps.last() {
            Step::Done(worker, paniced) => if SchedulerView::of_history(
                threads,
                steps.drop_last(),
            ).busy[worker] == instance && (paniced || !only_paniced) {
                before + 1
            } else {
                before
            },
            _ => before,
        }
    }
}

/// An instance that was not opened yet has neither sent a job nor seen one done, and the tally of
/// one that is known counts all its jobs that are done.
proof fn lemma_tally_counts_all<J>(threads: nat, steps: Seq<Step<J>>, instance: u64)
    requires
        SchedulerView::possible(threads, steps),
    ensures
        ({
            let s = SchedulerView::of_history(threads, steps);
            &&& instance >= s.next ==> {
                &&& sent_count(steps, instance) == 0
                &&& done_count(threads, steps, instance, false) == 0
                &&& done_count(threads, steps, instance, true) == 0
            }
            &&& s.known(instance) ==> {
                &&& sent_count(steps, instance) == s.queued(instance) + s.running(instance)
                    + s.completed(instance)
                &&& s.completed(instance) == done_count(threads, steps, instance, false)
                &&& s.paniced(instance) == done_count(threads, steps, instance, true)
                &&& s.paniced(instance) <= s.completed(instance)
            }
        }),
    decreases steps.len(),
{
    law_history_wf(threads, steps);
    let s = SchedulerView::of_history(threads, steps);
    assert(s.tallies.contains_key(instance) <==> s.known(instance));
    if steps.len() == 0 {
        SchedulerView::<J>::lemma_started_wf(threads);
        SchedulerView::<J>::started(threads).lemma_opened_fresh();
    } else {
        let before = SchedulerView::of_history(threads, steps.drop_last());
        lemma_tally_counts_all(threads, steps.drop_last(), instance);
        law_history_wf(threads, steps.drop_last());
        match steps.last() {
            Step::CloneWithNewState(of) => before.lemma_opened_fresh(),
            Step::Send(of, job) => {
                lemma_jobs_of_push(before.queue, of, job);
                lemma_jobs_of_push(sent_jobs(steps.drop_last()), of, job);
            },
            Step::Take(worker) => {
                lemma_jobs_of_first(before.queue);
                lemma_workers_on_insert(before.busy, worker, before.queue.first().0);
            },
            Step::Done(worker, paniced) => lemma_workers_on_remove(before.busy, worker),
            _ => {},
        }
    }
}

/// No job is lost and none is counted twice: every job that an instance sent waits, runs or is
/// done. What is done is counted, panics are counted among it, and the instance is finished
/// exactly if all its jobs are done.
pub proof fn law_every_job_is_accounted_for<J>(threads: nat, steps: Seq<Step<J>>, instance: u64)
    requires
        SchedulerView::possible(threads, steps),
        SchedulerView::of_history(threads, steps).known(instance),
    ensures
        ({
            let s = SchedulerView::of_history(threads, steps);
            &&& sent_count(steps, instance) == s.queued(instance) + s.running(instance)
                + s.completed(instance)
            &&& s.completed(instance) == done_count(threads, steps, instance, false)
            &&& s.paniced(instance) == done_count(threads, steps, instance, true)
            &&& s.paniced(instance) <= s.completed(instance)
            &&& s.finished(instance) <==> s.completed(instance) == sent_count(steps, instance)
        }),
{
    lemma_tally_counts_all(threads, steps, instance);
}

/// An instance has at most as many jobs running as the pool has threads, and so have all
/// instances together.
pub proof fn law_threads_bound_running_jobs<J>(s: SchedulerView<J>, instance: u64)
    requires
        s.wf(),
    ensures
        s.running(instance) <= s.busy.dom().len() <= s.threads,
{
    s.lemma_counts_bounded(instance);
}

/// A job that panics costs no thread: the worker is idle again, as after any other job, and the
/// two outcomes of a job differ in nothing but the count of panics of its own instance.
pub proof fn law_panic_costs_no_thread<J>(s: SchedulerView<J>, worker: usize)
    requires
        s.wf(),
        s.busy.contains_key(worker),
    ensures
        ({
            let paniced = s.after(Step::Done(worker, true));
            let returned = s.after(Step::Done(worker, false));
            let instance = s.busy[worker];
            &&& paniced.threads == s.threads
            &&& paniced.busy == s.busy.remove(worker)
            &&& paniced.queue.len() > 0 ==> paniced.can(Step::Take(worker))
            &&& paniced == (SchedulerView { tallies: paniced.tallies, ..returned })
            &&& paniced.tallies.dom() == returned.tallies.dom()
            &&& forall|other: u64|
                other != instance ==> #[trigger] paniced.tallies[other] == returned.tallies[other]
            &&& paniced.known(instance) ==> {
                &&& paniced.completed(instance) == returned.completed(instance)
                &&& paniced.paniced(instance) == returned.paniced(instance) + 1
            }
        }),
{
}

/// Panics stay on record: as long as an instance is known, no step takes one back.
pub proof fn law_panics_stay_on_record<J>(s: SchedulerView<J>, step: Step<J>, instance: u64)
    requires
        s.wf(),
        s.can(step),
        s.known(instance),
        s.after(step).known(instance),
    ensures
        s.after(step).paniced(instance) >= s.paniced(instance),
        s.after(step).completed(instance) >= s.completed(instance),
        s.after(step).paniced(instance) > s.paniced(instance) <==> (step matches Step::Done(
            worker,
            paniced,
        ) && paniced && s.busy[worker] == instance),
{
    assert(s.tallies.contains_key(instance));
}

/// The flag and the count of panics agree: a panic that is counted is on record, and a panic that
/// is on record is counted, except where the number of panics is a multiple of `usize_values`,
/// at which the count starts again at zero.
pub proof fn law_panic_flag_agrees_with_count<J>(s: SchedulerView<J>, instance: u64)
    ensures
        ({
            let state = s.state_of(instance);
            &&& state.paniced > 0 ==> state.has_paniced
            &&& s.paniced(instance) % usize_values() != 0 || s.paniced(instance) == 0 ==> (
            state.has_paniced <==> state.paniced > 0)
            &&& s.paniced(instance) < usize_values() ==> {
                &&& state.paniced == s.paniced(instance)
                &&& state.has_paniced <==> state.paniced > 0
            }
        }),
{
    lemma_small_mod(0, usize_values());
    if s.paniced(instance) < usize_values() {
        lemma_small_mod(s.paniced(instance), usize_values());
    }
}

/// A wait until an instance is finished ends well only if no job of it is queued, running or has
/// paniced, and ends with the error exactly if a job paniced. A wait that no panic ends is over
/// only if no job is queued or running.
pub proof fn law_wait_ends_when_finished<J>(s: SchedulerView<J>, instance: u64)
    ensures
        s.finish_wait(instance) == Wait::Done(Ok::<(), JobHasPanicedError>(())) <==> s.queued(
            instance,
        ) == 0 && s.running(instance) == 0 && s.paniced(instance) == 0,
        s.finish_wait(instance) == Wait::Done(
            Err::<(), JobHasPanicedError>(JobHasPanicedError {  }),
        ) <==> s.paniced(instance) > 0,
        s.finish_wait_unchecked(instance) == Wait::Done(()) <==> s.queued(instance) == 0
            && s.running(instance) == 0,
{
}

/// A thread that sleeps in a wait misses nothing: the only step that can end its wait is that a
/// job of its own instance is done, which wakes it.
pub proof fn law_only_a_done_job_ends_a_wait<J>(
    s: SchedulerView<J>,
    step: Step<J>,
    instance: u64,
    ticket: nat,
)
    requires
        s.wf(),
        s.can(step),
        s.known(instance),
        !(step matches Step::Done(worker, paniced) && s.busy[worker] == instance),
        s.after(step).known(instance),
    ensures
        s.finish_wait(instance) is Block ==> s.after(step).finish_wait(instance) is Block,
        s.finish_wait_unchecked(instance) is Block ==> s.after(step).finish_wait_unchecked(
            instance,
        ) is Block,
        s.job_done_wait(instance, ticket) is Block ==> s.after(step).job_done_wait(
            instance,
            ticket,
        ) is Block,
        s.job_done_wait_unchecked(instance, ticket) is Block ==> s.after(
            step,
        ).job_done_wait_unchecked(instance, ticket) is Block,
{
    assert(s.tallies.contains_key(instance));
    if s.concerns(step, instance) {
        match step {
            Step::Send(of, job) => lemma_jobs_of_push(s.queue, of, job),
            Step::Take(worker) => lemma_workers_on_insert(s.busy, worker, instance),
            _ => {},
        }
    } else {
        law_instances_are_isolated(s, step, instance);
    }
}

/// A wait for a job is over exactly if the instance is finished or one of its jobs is done since
/// the wait began, as long as fewer jobs were done meanwhile than a `u64` has values.
pub proof fn law_wait_for_a_job_ends_when_one_is_done<J>(
    s: SchedulerView<J>,
    instance: u64,
    completed: nat,
)
    requires
        completed <= s.completed(instance) < completed + u64_values(),
    ensures
        ({
            let ticket = completed % u64_values();
            &&& s.job_done_wait(instance, ticket) is Done <==> s.finished(instance) || s.completed(
                instance,
            ) > completed
            &&& s.job_done_wait_unchecked(instance, ticket) is Done <==> s.finished(instance)
                || s.completed(instance) > completed
            &&& s.job_done_wait(instance, ticket) is Done ==> s.job_done_wait(instance, ticket)
                == Wait::Done(wait_result(s.paniced(instance) > 0))
        }),
{
    let values = u64_values() as int;
    let now = s.completed(instance) as int;
    if now % values == completed as int % values {
        lemma_mod_equivalence(now, completed as int, values);
        lemma_small_mod((now - completed) as nat, values as nat);
    }
}

/// A job that is done ends every wait for a job of its instance that began before it, with the
/// error exactly if a job of the instance has paniced.
pub proof fn law_done_job_ends_waits_for_a_job<J>(s: SchedulerView<J>, worker: usize, paniced: bool)
    requires
        s.wf(),
        s.busy.contains_key(worker),
        s.handles.count(s.busy[worker]) > 0,
    ensures
        ({
            let instance = s.busy[worker];
            let ticket = s.completed(instance) % u64_values();
            let after = s.after(Step::Done(worker, paniced));
            &&& after.job_done_wait(instance, ticket) == Wait::Done(
                wait_result(after.paniced(instance) > 0),
            )
            &&& after.job_done_wait_unchecked(instance, ticket) == Wait::Done(())
            &&& paniced ==> after.job_done_wait(instance, ticket) == Wait::Done(
                Err::<(), JobHasPanicedError>(JobHasPanicedError {  }),
            )
            &&& paniced ==> after.finish_wait(instance) == Wait::Done(
                Err::<(), JobHasPanicedError>(JobHasPanicedError {  }),
            )
        }),
{
    law_wait_for_a_job_ends_when_one_is_done(
        s.after(Step::Done(worker, paniced)),
        s.busy[worker],
        s.completed(s.busy[worker]),
    );
}

/// A reset starts over with a new instance, which has seen no job, for which every wait is over
/// at once and without an error. The jobs sent before remain: they are still queued or running,
/// and none of them belongs to the new instance.
pub proof fn law_reset_starts_over<J>(s: SchedulerView<J>, instance: u64, ticket: nat)
    requires
        s.wf(),
        s.can(Step::Reset(instance)),
    ensures
        ({
            let after = s.after(Step::Reset(instance));
            let new = s.next as u64;
            &&& after.state_of(new) == StateView::fresh()
            &&& after.finish_wait(new) == Wait::Done(Ok::<(), JobHasPanicedError>(()))
            &&& after.job_done_wait(new, ticket) == Wait::Done(Ok::<(), JobHasPanicedError>(()))
            &&& after.handles.len() == s.handles.len()
            &&& after.queue == s.queue
            &&& after.busy == s.busy
            &&& forall|i: int| 0 <= i < s.queue.len() ==> #[trigger] s.queue[i].0 != new
            &&& forall|worker: usize| #[trigger]
                s.busy.contains_key(worker) ==> s.busy[worker] != new
        }),
{
    s.disconnected(instance).lemma_opened_fresh();
    let new = s.next as u64;
    assert forall|i: int| 0 <= i < s.queue.len() implies #[trigger] s.queue[i].0 != new by {
        if s.queue[i].0 == new {
            lemma_jobs_of_entry(s.queue, i);
        }
    }
    assert forall|worker: usize| #[trigger] s.busy.contains_key(worker) implies s.busy[worker]
        != new by {
        if s.busy[worker] == new {
            lemma_workers_on_remove(s.busy, worker);
        }
    }
}

/// Giving a clone up again leaves the scheduler as it was before the clone.
pub proof fn law_disconnect_undoes_clone<J>(s: SchedulerView<J>, instance: u64)
    requires
        s.can(Step::Clone(instance)),
    ensures
        s.after(Step::Clone(instance)).after(Step::Disconnect(instance)) == s,
{
}

/// Cloning with a new state is cloning, and then resetting the clone.
pub proof fn law_clone_with_new_state_is_clone_and_reset<J>(s: SchedulerView<J>, instance: u64)
    requires
        s.can(Step::CloneWithNewState(instance)),
    ensures
        s.after(Step::CloneWithNewState(instance)) == s.after(Step::Clone(instance)).after(
            Step::Reset(instance),
        ),
{
    law_disconnect_undoes_clone(s, instance);
}

/// An idle worker that was told to wait misses nothing: until a job is sent there is still no job
/// for it, and only giving the last handle up is a reason to stop.
pub proof fn law_idle_worker_misses_nothing<J>(s: SchedulerView<J>, step: Step<J>)
    requires
        s.wf(),
        s.can(step),
        s.queue.len() == 0,
        s.handles.len() > 0,
        !(step is Send),
    ensures
        s.after(step).queue.len() == 0,
        s.after(step).handles.len() == 0 <==> step is Disconnect && s.handles.len() == 1,
{
}

/// Once the last handle is gone no handle comes back, and once the queue is empty as well it
/// stays so: a worker that stops has no job left to run, ever.
pub proof fn law_stopped_workers_miss_nothing<J>(s: SchedulerView<J>, step: Step<J>)
    requires
        s.wf(),
        s.can(step),
        s.handles.len() == 0,
    ensures
        s.after(step).handles.len() == 0,
        s.queue.len() == 0 ==> s.after(step).queue.len() == 0,
        step is Take || step is Done,
{
}

/// The queue after one worker took and did the first jobs in it, with these outcomes.
pub open spec fn worked_off<J>(
    s: SchedulerView<J>,
    worker: usize,
    outcomes: Seq<bool>,
) -> SchedulerView<J>
    decreases outcomes.len(),
{
    if outcomes.len() == 0 {
        s
    } else {
        worked_off(s, worker, outcomes.drop_last()).after(Step::Take(worker)).after(
            Step::Done(worker, outcomes.last()),
        )
    }
}

/// How many of the first jobs in the queue belong to the instance and paniced.
pub open spec fn panics_of<J>(queue: Seq<(u64, J)>, outcomes: Seq<bool>, instance: u64) -> nat
    decreases outcomes.len(),
{
    if outcomes.len() == 0 {
        0
    } else {
        panics_of(queue, outcomes.drop_last(), instance) + if outcomes.last()
            && queue[outcomes.len() - 1].0 == instance {
            1nat
        } else {
            0
        }
    }
}

/// One worker is enough to work the queue off, whatever the jobs do: after as many rounds as
/// there are jobs the queue is empty, every instance with a handle has had all its jobs done, and
/// the count of its panics has grown by those of its jobs that paniced.
pub proof fn law_queue_is_worked_off<J>(
    s: SchedulerView<J>,
    worker: usize,
    outcomes: Seq<bool>,
    instance: u64,
)
    requires
        s.wf(),
        worker < s.threads,
        !s.busy.contains_key(worker),
        outcomes.len() <= s.queue.len(),
    ensures
        ({
            let after = worked_off(s, worker, outcomes);
            &&& after.wf()
            &&& after.queue == s.queue.skip(outcomes.len() as int)
            &&& after.busy == s.busy
            &&& after.handles == s.handles
            &&& after.threads == s.threads
            &&& s.handles.count(instance) > 0 ==> {
                &&& after.completed(instance) + after.queued(instance) == s.completed(instance)
                    + s.queued(instance)
                &&& after.paniced(instance) == s.paniced(instance) + panics_of(
                    s.queue,
                    outcomes,
                    instance,
                )
            }
            &&& outcomes.len() == s.queue.len() ==> {
                &&& after.queue.len() == 0
                &&& after.queued(instance) == 0
                &&& s.running(instance) == 0 ==> after.finished(instance)
            }
        }),
    decreases outcomes.len(),
{
    if outcomes.len() > 0 {
        law_queue_is_worked_off(s, worker, outcomes.drop_last(), instance);
        let before = worked_off(s, worker, outcomes.drop_last());
        let taken = before.after(Step::Take(worker));
        let after = taken.after(Step::Done(worker, outcomes.last()));
        before.lemma_taken_wf(worker);
        taken.lemma_done_wf(worker, outcomes.last());
        lemma_jobs_of_first(before.queue);
        assert(after.busy =~= before.busy);
    }
}

} // verus!
