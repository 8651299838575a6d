//! What a scheduler is, mathematically: a queue of jobs, the workers that run one, and the
//! instances that the jobs belong to.

use crate::shared_state::{usize_values, StateView};
use crate::wait::{wait_result, JobHasPanicedError, Wait};
use vstd::arithmetic::div_mod::lemma_small_mod;
use vstd::multiset::Multiset;
use vstd::prelude::*;
use vstd::set_lib::lemma_len_subset;

verus! {

/// How many values a `u64` has. The count of completed jobs starts again at zero there.
pub open spec fn u64_values() -> nat {
    (u64::MAX + 1) as nat
}

/// How many jobs of the instance wait in the queue.
pub open spec fn jobs_of<J>(queue: Seq<(u64, J)>, instance: u64) -> nat {
    queue.filter(|entry: (u64, J)| entry.0 == instance).len()
}

/// The workers that run a job of the instance.
pub open spec fn workers_of(busy: Map<usize, u64>, instance: u64) -> Set<usize> {
    busy.dom().filter(|worker: usize| busy[worker] == instance)
}

/// How many workers run a job of the instance.
pub open spec fn workers_on(busy: Map<usize, u64>, instance: u64) -> nat {
    workers_of(busy, instance).len()
}

/// What became of the jobs of an instance that are over.
pub struct Tally {
    /// Jobs that paniced.
    pub paniced: nat,
    /// Jobs that are done, those that paniced included.
    pub completed: nat,
}

/// A handle of a pool.
pub struct PoolView {
    /// The number of threads of the pool.
    pub threads: nat,
    /// The instance that the handle belongs to.
    pub instance: u64,
}

/// The state of a scheduler.
#[verifier::ext_equal]
pub struct SchedulerView<J> {
    /// The number of workers.
    pub threads: nat,
    /// The jobs that wait for a worker, each with its instance, in the order they were sent.
    pub queue: Seq<(u64, J)>,
    /// The workers that run a job, each with the instance of its job.
    pub busy: Map<usize, u64>,
    /// The instance of each handle that is connected.
    pub handles: Multiset<u64>,
    /// The tally of each instance that has a handle or a job left.
    pub tallies: Map<u64, Tally>,
    /// The next instance to be opened. No instance from here on was ever used.
    pub next: nat,
}

impl<J> SchedulerView<J> {
    /// How many jobs of the instance wait for a worker.
    pub open spec fn queued(self, instance: u64) -> nat {
        jobs_of(self.queue, instance)
    }

    /// How many jobs of the instance are being run.
    pub open spec fn running(self, instance: u64) -> nat {
        workers_on(self.busy, instance)
    }

    /// No job of the instance is queued and none is running.
    pub open spec fn finished(self, instance: u64) -> bool {
        self.queued(instance) == 0 && self.running(instance) == 0
    }

    /// How many jobs of the instance paniced.
    pub open spec fn paniced(self, instance: u64) -> nat {
        self.tallies[instance].paniced
    }

    /// How many jobs of the instance are done.
    pub open spec fn completed(self, instance: u64) -> nat {
        self.tallies[instance].completed
    }

    /// The counters of the instance.
    pub open spec fn state_of(self, instance: u64) -> StateView {
        StateView {
            queued: self.queued(instance),
            running: self.running(instance),
            paniced: self.paniced(instance) % usize_values(),
            has_paniced: self.paniced(instance) > 0,
        }
    }

    /// Whether the instance has a handle or a job left.
    pub open spec fn known(self, instance: u64) -> bool {
        self.handles.count(instance) > 0 || !self.finished(instance)
    }

    /// What holds of every scheduler: there is a worker, only workers are busy, exactly the
    /// instances with a handle or a job left have a tally, and they were opened before.
    pub open spec fn wf(self) -> bool {
        &&& 0 < self.threads <= usize::MAX
        &&& self.busy.dom().finite()
        &&& forall|worker: usize| #[trigger]
            self.busy.contains_key(worker) ==> worker < self.threads
        &&& forall|instance: u64| #[trigger]
            self.tallies.contains_key(instance) <==> self.known(instance)
        &&& forall|instance: u64| #[trigger]
            self.tallies.contains_key(instance) ==> instance < self.next
        &&& self.next <= u64::MAX
    }

    /// Whether the scheduler has as many workers as the handle has threads, and a handle connected
    /// to the instance with the handle's number. Two pools of the same size number their
    /// instances alike, so this does not tell their handles apart.
    pub open spec fn serves(self, pool: PoolView) -> bool {
        &&& pool.threads == self.threads
        &&& self.handles.count(pool.instance) > 0
    }

    /// How a wait until the instance is finished goes on: it is over once the instance is
    /// finished or a job paniced.
    pub open spec fn finish_wait(self, instance: u64) -> Wait<Result<(), JobHasPanicedError>> {
        if self.finished(instance) || self.paniced(instance) > 0 {
            Wait::Done(wait_result(self.paniced(instance) > 0))
        } else {
            Wait::Block
        }
    }

    /// How a wait until the instance is finished goes on that no panic ends.
    pub open spec fn finish_wait_unchecked(self, instance: u64) -> Wait<()> {
        if self.finished(instance) {
            Wait::Done(())
        } else {
            Wait::Block
        }
    }

    /// Whether the instance is finished, or the count of its jobs that are done is not the one
    /// of the ticket.
    pub open spec fn job_done_since(self, instance: u64, ticket: nat) -> bool {
        self.finished(instance) || self.completed(instance) % u64_values() != ticket
    }

    /// How a wait until a job is done goes on.
    pub open spec fn job_done_wait(self, instance: u64, ticket: nat) -> Wait<
        Result<(), JobHasPanicedError>,
    > {
        if self.job_done_since(instance, ticket) {
            Wait::Done(wait_result(self.paniced(instance) > 0))
        } else {
            Wait::Block
        }
    }

    /// How a wait until a job is done goes on that has no result.
    pub open spec fn job_done_wait_unchecked(self, instance: u64, ticket: nat) -> Wait<()> {
        if self.job_done_since(instance, ticket) {
            Wait::Done(())
        } else {
            Wait::Block
        }
    }

    /// A scheduler with so many workers and nothing else.
    pub open spec fn started(threads: nat) -> SchedulerView<J> {
        SchedulerView {
            threads,
            queue: Seq::empty(),
            busy: Map::empty(),
            handles: Multiset::empty(),
            tallies: Map::empty(),
            next: 0,
        }
    }

    /// Forgets the instance if it has neither a handle nor a job left.
    pub open spec fn settled(self, instance: u64) -> SchedulerView<J> {
        if self.known(instance) {
            self
        } else {
            SchedulerView { tallies: self.tallies.remove(instance), ..self }
        }
    }

    /// A new instance was opened, with one handle.
    pub open spec fn opened(self) -> SchedulerView<J> {
        SchedulerView {
            handles: self.handles.insert(self.next as u64),
            tallies: self.tallies.insert(self.next as u64, Tally { paniced: 0, completed: 0 }),
            next: self.next + 1,
            ..self
        }
    }

    /// The instance got another handle.
    pub open spec fn connected(self, instance: u64) -> SchedulerView<J> {
        SchedulerView { handles: self.handles.insert(instance), ..self }
    }

    /// A handle of the instance is gone.
    pub open spec fn disconnected(self, instance: u64) -> SchedulerView<J> {
        SchedulerView { handles: self.handles.remove(instance), ..self }.settled(instance)
    }

    /// A job of the instance was sent.
    pub open spec fn sent(self, instance: u64, job: J) -> SchedulerView<J> {
        SchedulerView { queue: self.queue.push((instance, job)), ..self }
    }

    /// The worker took the job that was sent first.
    pub open spec fn taken(self, worker: usize) -> SchedulerView<J> {
        SchedulerView {
            queue: self.queue.drop_first(),
            busy: self.busy.insert(worker, self.queue.first().0),
            ..self
        }
    }

    /// The worker is done with its job, which paniced or not.
    pub open spec fn done(self, worker: usize, paniced: bool) -> SchedulerView<J> {
        let instance = self.busy[worker];
        let tally = Tally {
            paniced: self.paniced(instance) + if paniced {
                1nat
            } else {
                0
            },
            completed: self.completed(instance) + 1,
        };
        SchedulerView {
            busy: self.busy.remove(worker),
            tallies: self.tallies.insert(instance, tally),
            ..self
        }.settled(instance)
    }
}

/// Sending a job adds one to the count of its instance.
pub proof fn lemma_jobs_of_push<J>(queue: Seq<(u64, J)>, instance: u64, job: J)
    ensures
        forall|other: u64| #[trigger]
            jobs_of(queue.push((instance, job)), other) == jobs_of(queue, other) + if other
                == instance {
                1nat
            } else {
                0
            },
{
    assert forall|other: u64| #[trigger]
        jobs_of(queue.push((instance, job)), other) == jobs_of(queue, other) + if other
            == instance {
            1nat
        } else {
            0
        } by {
        reveal(Seq::filter);
        assert(queue.push((instance, job)).drop_last() == queue);
    }
}

/// Taking the first job off takes one from the count of its instance.
pub proof fn lemma_jobs_of_first<J>(queue: Seq<(u64, J)>)
    requires
        queue.len() > 0,
    ensures
        forall|other: u64| #[trigger]
            jobs_of(queue, other) == jobs_of(queue.drop_first(), other) + if other
                == queue.first().0 {
                1nat
            } else {
                0
            },
{
    assert forall|other: u64| #[trigger]
        jobs_of(queue, other) == jobs_of(queue.drop_first(), other) + if other
            == queue.first().0 {
            1nat
        } else {
            0
        } by {
        let of_other = |entry: (u64, J)| entry.0 == other;
        let head = seq![queue.first()];
        assert(queue == head + queue.drop_first());
        Seq::filter_distributes_over_add(head, queue.drop_first(), of_other);
        reveal_with_fuel(Seq::filter, 2);
    }
}

/// A job in the queue is among those of its instance.
pub proof fn lemma_jobs_of_entry<J>(queue: Seq<(u64, J)>, i: int)
    requires
        0 <= i < queue.len(),
    ensures
        jobs_of(queue, queue[i].0) > 0,
    decreases queue.len(),
{
    let rest = queue.drop_last();
    lemma_jobs_of_push(rest, queue.last().0, queue.last().1);
    assert(queue == rest.push((queue.last().0, queue.last().1)));
    if i < rest.len() {
        lemma_jobs_of_entry(rest, i);
    }
}

/// No more workers run a job of the instance than are busy.
pub proof fn lemma_workers_on_len(busy: Map<usize, u64>, instance: u64)
    requires
        busy.dom().finite(),
    ensures
        workers_on(busy, instance) <= busy.dom().len(),
{
    lemma_len_subset(workers_of(busy, instance), busy.dom());
}

/// An idle worker that becomes busy adds one to the count of its instance.
pub proof fn lemma_workers_on_insert(busy: Map<usize, u64>, worker: usize, instance: u64)
    requires
        busy.dom().finite(),
        !busy.contains_key(worker),
    ensures
        forall|other: u64| #[trigger]
            workers_on(busy.insert(worker, instance), other) == workers_on(busy, other) + if other
                == instance {
                1nat
            } else {
                0
            },
{
    assert forall|other: u64| #[trigger]
        workers_on(busy.insert(worker, instance), other) == workers_on(busy, other) + if other
            == instance {
            1nat
        } else {
            0
        } by {
        let before = workers_of(busy, other);
        let after = workers_of(busy.insert(worker, instance), other);
        if other == instance {
            assert(after =~= before.insert(worker));
        } else {
            assert(after =~= before);
        }
    }
}

/// A busy worker that becomes idle takes one from the count of its instance.
pub proof fn lemma_workers_on_remove(busy: Map<usize, u64>, worker: usize)
    requires
        busy.dom().finite(),
        busy.contains_key(worker),
    ensures
        forall|other: u64| #[trigger]
            workers_on(busy, other) == workers_on(busy.remove(worker), other) + if other
                == busy[worker] {
                1nat
            } else {
                0
            },
{
    let rest = busy.remove(worker);
    lemma_workers_on_insert(rest, worker, busy[worker]);
    assert(busy =~= rest.insert(worker, busy[worker]));
}

/// A set of numbers below a bound has no more members than the bound says.
pub proof fn lemma_len_below(members: Set<usize>, bound: nat)
    requires
        members.finite(),
        forall|member: usize| #[trigger] members.contains(member) ==> member < bound,
    ensures
        members.len() <= bound,
    decreases members.len(),
{
    if members.len() > 0 {
        if bound == 0 {
            assert(members.contains(members.choose()));
        } else {
            let top = (bound - 1) as usize;
            if bound - 1 <= usize::MAX && members.contains(top) {
                lemma_len_below(members.remove(top), (bound - 1) as nat);
            } else {
                let member = members.choose();
                lemma_len_below(members.remove(member), (bound - 1) as nat);
            }
        }
    }
}

impl<J> SchedulerView<J> {
    /// An instance has at most as many jobs queued as there are in the queue, and at most as many
    /// running as there are workers, fewer if one is idle.
    pub proof fn lemma_counts_bounded(self, instance: u64)
        requires
            self.wf(),
        ensures
            self.queued(instance) <= self.queue.len(),
            self.running(instance) <= self.busy.dom().len() <= self.threads,
            forall|worker: usize|
                worker < self.threads && !#[trigger] self.busy.contains_key(worker)
                    ==> self.busy.dom().len() < self.threads,
    {
        lemma_workers_on_len(self.busy, instance);
        lemma_len_below(self.busy.dom(), self.threads);
        assert forall|worker: usize|
            worker < self.threads && !#[trigger] self.busy.contains_key(
                worker,
            ) implies self.busy.dom().len() < self.threads by {
            lemma_len_below(self.busy.dom().insert(worker), self.threads);
        }
    }

    /// A scheduler that just started is well formed.
    pub proof fn lemma_started_wf(threads: nat)
        requires
            0 < threads <= usize::MAX,
        ensures
            SchedulerView::<J>::started(threads).wf(),
    {
        let s = SchedulerView::<J>::started(threads);
        assert forall|instance: u64| #[trigger]
            s.tallies.contains_key(instance) <==> s.known(instance) by {
            lemma_workers_on_len(s.busy, instance);
        }
    }

    /// Opening an instance keeps the scheduler well formed.
    pub proof fn lemma_opened_wf(self)
        requires
            self.wf(),
            self.next < u64::MAX,
        ensures
            self.opened().wf(),
            !self.known(self.next as u64),
    {
        let new = self.next as u64;
        assert(!self.tallies.contains_key(new));
    }

    /// A new instance has not seen any job.
    pub proof fn lemma_opened_fresh(self)
        requires
            self.wf(),
            self.next < u64::MAX,
        ensures
            self.opened().state_of(self.next as u64) == StateView::fresh(),
            self.opened().completed(self.next as u64) == 0,
    {
        self.lemma_opened_wf();
        lemma_small_mod(0, usize_values());
    }

    /// Another handle on an instance keeps the scheduler well formed.
    pub proof fn lemma_connected_wf(self, instance: u64)
        requires
            self.wf(),
            self.known(instance),
        ensures
            self.connected(instance).wf(),
    {
    }

    /// The loss of a handle keeps the scheduler well formed.
    pub proof fn lemma_disconnected_wf(self, instance: u64)
        requires
            self.wf(),
        ensures
            self.disconnected(instance).wf(),
    {
    }

    /// A job of a known instance keeps the scheduler well formed.
    pub proof fn lemma_sent_wf(self, instance: u64, job: J)
        requires
            self.wf(),
            self.known(instance),
        ensures
            self.sent(instance, job).wf(),
    {
        lemma_jobs_of_push(self.queue, instance, job);
    }

    /// An idle worker that takes a job keeps the scheduler well formed.
    pub proof fn lemma_taken_wf(self, worker: usize)
        requires
            self.wf(),
            self.queue.len() > 0,
            worker < self.threads,
            !self.busy.contains_key(worker),
        ensures
            self.taken(worker).wf(),
            self.known(self.queue.first().0),
    {
        lemma_jobs_of_first(self.queue);
        lemma_workers_on_insert(self.busy, worker, self.queue.first().0);
    }

    /// A busy worker that is done with its job keeps the scheduler well formed.
    pub proof fn lemma_done_wf(self, worker: usize, paniced: bool)
        requires
            self.wf(),
            self.busy.contains_key(worker),
        ensures
            self.done(worker, paniced).wf(),
            self.known(self.busy[worker]),
    {
        lemma_workers_on_remove(self.busy, worker);
        assert(self.tallies.contains_key(self.busy[worker]));
    }
}

} // verus!
