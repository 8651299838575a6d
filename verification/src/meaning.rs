//! What the counts, the counters and the waits of the model come to, said of the queue, the busy
//! workers, the handles and the tallies alone.

use crate::laws::{
    done_count, law_every_job_is_accounted_for, law_history_wf, sent_jobs, Step,
};
use crate::model::{
    jobs_of, lemma_jobs_of_entry, lemma_jobs_of_push, lemma_workers_on_remove, u64_values,
    workers_of, SchedulerView,
};
use crate::shared_state::law_count_of_panics_ends_with_usize;
use crate::wait::{JobHasPanicedError, Wait};
use vstd::arithmetic::div_mod::{lemma_mod_equivalence, lemma_small_mod};
use vstd::prelude::*;

verus! {

/// The count of completed jobs starts again where a `u64` ends, and no earlier.
pub proof fn law_count_of_completed_ends_with_u64(n: nat)
    ensures
        u64_values() == 0x1_0000_0000_0000_0000,
        n < 0x1_0000_0000_0000_0000 ==> n % u64_values() == n,
{
    if n < 0x1_0000_0000_0000_0000 {
        lemma_small_mod(n, u64_values());
    }
}

/// The places in the queue that hold a job of the instance.
pub open spec fn places_of<J>(queue: Seq<(u64, J)>, instance: u64) -> Set<int> {
    Set::new(|place: int| 0 <= place < queue.len() && queue[place].0 == instance)
}

/// As many jobs of an instance count as queued as there are places in the queue that hold one.
proof fn lemma_places_are_counted<J>(queue: Seq<(u64, J)>, instance: u64)
    ensures
        places_of(queue, instance).finite(),
        places_of(queue, instance).len() == jobs_of(queue, instance),
    decreases queue.len(),
{
    if queue.len() == 0 {
        assert(places_of(queue, instance) =~= Set::empty());
    } else {
        let rest = queue.drop_last();
        let last = queue.last();
        lemma_places_are_counted(rest, instance);
        lemma_jobs_of_push(rest, last.0, last.1);
        assert(queue == rest.push((last.0, last.1)));
        if last.0 == instance {
            assert(places_of(queue, instance) =~= places_of(rest, instance).insert(
                rest.len() as int,
            ));
        } else {
            assert(places_of(queue, instance) =~= places_of(rest, instance));
        }
        assert(jobs_of(queue, instance) == jobs_of(rest, instance) + if last.0 == instance {
            1nat
        } else {
            0
        });
    }
}

/// The counts count: as many jobs of an instance are queued as places in the queue hold one, and
/// as many are running as workers are busy with one.
pub proof fn law_counts_count_jobs<J>(s: SchedulerView<J>, instance: u64)
    requires
        s.wf(),
    ensures
        s.queued(instance) == Set::new(
            |place: int| 0 <= place < s.queue.len() && s.queue[place].0 == instance,
        ).len(),
        s.running(instance) == Set::new(
            |worker: usize| s.busy.contains_key(worker) && s.busy[worker] == instance,
        ).len(),
        s.state_of(instance).queued == s.queued(instance),
        s.state_of(instance).running == s.running(instance),
{
    lemma_places_are_counted(s.queue, instance);
    assert(places_of(s.queue, instance) =~= Set::new(
        |place: int| 0 <= place < s.queue.len() && s.queue[place].0 == instance,
    ));
    assert(workers_of(s.busy, instance) =~= Set::new(
        |worker: usize| s.busy.contains_key(worker) && s.busy[worker] == instance,
    ));
}

/// An instance is finished exactly if no place in the queue holds a job of it and no worker is busy
/// with one.
pub proof fn law_finished_means_no_job_left<J>(s: SchedulerView<J>, instance: u64)
    requires
        s.wf(),
    ensures
        s.finished(instance) <==> {
            &&& forall|place: int|
                0 <= place < s.queue.len() ==> (#[trigger] s.queue[place]).0 != instance
            &&& forall|worker: usize| #[trigger]
                s.busy.contains_key(worker) ==> s.busy[worker] != instance
        },
        s.state_of(instance).finished() == s.finished(instance),
{
    lemma_places_are_counted(s.queue, instance);
    if s.finished(instance) {
        assert forall|place: int| 0 <= place < s.queue.len() implies (
        #[trigger] s.queue[place]).0 != instance by {
            if s.queue[place].0 == instance {
                lemma_jobs_of_entry(s.queue, place);
            }
        }
        assert forall|worker: usize| #[trigger]
            s.busy.contains_key(worker) implies s.busy[worker] != instance by {
            if s.busy[worker] == instance {
                lemma_workers_on_remove(s.busy, worker);
            }
        }
    } else if forall|place: int|
        0 <= place < s.queue.len() ==> (#[trigger] s.queue[place]).0 != instance {
        assert(places_of(s.queue, instance) =~= Set::empty());
        if forall|worker: usize| #[trigger]
            s.busy.contains_key(worker) ==> s.busy[worker] != instance {
            assert(workers_of(s.busy, instance) =~= Set::empty());
        }
    }
}

/// The counters of an instance show its panics: the flag is set exactly if a job of it paniced,
/// and the count is exact as far as a `usize` goes.
pub proof fn law_panics_are_shown<J>(s: SchedulerView<J>, instance: u64)
    ensures
        s.paniced(instance) == s.tallies[instance].paniced,
        s.completed(instance) == s.tallies[instance].completed,
        s.state_of(instance).has_paniced <==> s.tallies[instance].paniced > 0,
        s.tallies[instance].paniced <= usize::MAX ==> s.state_of(instance).paniced
            == s.tallies[instance].paniced,
{
    law_count_of_panics_ends_with_usize(s.tallies[instance].paniced);
}

/// A wait until an instance is finished is over exactly if no job of it is left or one paniced,
/// and then with the error exactly if one paniced. Without the check for panics it is over
/// exactly if no job is left.
pub proof fn law_wait_for_the_end<J>(s: SchedulerView<J>, instance: u64)
    requires
        s.wf(),
    ensures
        ({
            let job_left = {
                ||| exists|place: int|
                    0 <= place < s.queue.len() && (#[trigger] s.queue[place]).0 == instance
                ||| exists|worker: usize| #[trigger]
                    s.busy.contains_key(worker) && s.busy[worker] == instance
            };
            let paniced = s.tallies[instance].paniced > 0;
            &&& s.finish_wait(instance) is Block <==> job_left && !paniced
            &&& s.finish_wait(instance) == Wait::Done(
                Err::<(), JobHasPanicedError>(JobHasPanicedError {  }),
            ) <==> paniced
            &&& s.finish_wait(instance) == Wait::Done(Ok::<(), JobHasPanicedError>(()))
                <==> !job_left && !paniced
            &&& s.finish_wait_unchecked(instance) is Block <==> job_left
        }),
{
    law_finished_means_no_job_left(s, instance);
}

/// A wait for one job, begun when `before` jobs of the instance were done, is over exactly if more
/// are done now or no job is left, and then with the error exactly if a job paniced. This holds as
/// long as fewer jobs were done meanwhile than a `u64` can count.
pub proof fn law_wait_for_one_job<J>(s: SchedulerView<J>, instance: u64, before: nat)
    requires
        s.wf(),
        before <= s.tallies[instance].completed,
        s.tallies[instance].completed - before < 0x1_0000_0000_0000_0000,
    ensures
        ({
            let ticket = before % 0x1_0000_0000_0000_0000;
            let job_left = {
                ||| exists|place: int|
                    0 <= place < s.queue.len() && (#[trigger] s.queue[place]).0 == instance
                ||| exists|worker: usize| #[trigger]
                    s.busy.contains_key(worker) && s.busy[worker] == instance
            };
            let over = !job_left || s.tallies[instance].completed > before;
            let paniced = s.tallies[instance].paniced > 0;
            &&& s.job_done_wait(instance, ticket) is Block <==> !over
            &&& s.job_done_wait(instance, ticket) == Wait::Done(
                Err::<(), JobHasPanicedError>(JobHasPanicedError {  }),
            ) <==> over && paniced
            &&& s.job_done_wait(instance, ticket) == Wait::Done(Ok::<(), JobHasPanicedError>(()))
                <==> over && !paniced
            &&& s.job_done_wait_unchecked(instance, ticket) is Block <==> !over
        }),
{
    law_finished_means_no_job_left(s, instance);
    let values = 0x1_0000_0000_0000_0000int;
    let now = s.tallies[instance].completed as int;
    if now % values == before as int % values {
        lemma_mod_equivalence(now, before as int, values);
        lemma_small_mod((now - before) as nat, values as nat);
    }
}

/// What the counters of an instance with a handle show after any history: the jobs sent and not
/// done yet, none if it is finished, and as many panics as there were jobs that paniced, exactly
/// as far as a `usize` goes.
pub proof fn law_counters_show_history<J>(threads: nat, steps: Seq<Step<J>>, instance: u64)
    requires
        SchedulerView::possible(threads, steps),
        SchedulerView::of_history(threads, steps).handles.count(instance) > 0,
    ensures
        ({
            let s = SchedulerView::of_history(threads, steps);
            let state = s.state_of(instance);
            let sent = Set::new(
                |place: int|
                    0 <= place < sent_jobs(steps).len() && sent_jobs(steps)[place].0 == instance,
            ).len();
            let done = done_count(threads, steps, instance, false);
            let paniced = done_count(threads, steps, instance, true);
            &&& state.queued + state.running + done == sent
            &&& state.queued == 0 && state.running == 0 <==> done == sent
            &&& state.has_paniced <==> paniced > 0
            &&& paniced <= usize::MAX ==> state.paniced == paniced
            &&& s.finish_wait(instance) is Block <==> done < sent && paniced == 0
            &&& s.finish_wait_unchecked(instance) is Block <==> done < sent
        }),
{
    let s = SchedulerView::of_history(threads, steps);
    law_history_wf(threads, steps);
    law_every_job_is_accounted_for(threads, steps, instance);
    law_panics_are_shown(s, instance);
    law_wait_for_the_end(s, instance);
    law_finished_means_no_job_left(s, instance);
    lemma_places_are_counted(sent_jobs(steps), instance);
    assert(places_of(sent_jobs(steps), instance) =~= Set::new(
        |place: int|
            0 <= place < sent_jobs(steps).len() && sent_jobs(steps)[place].0 == instance,
    ));
}

} // verus!
