//! The part of a pool that all its handles and all its workers share: the queue of jobs, the
//! workers that run one, and the counters of each instance.

use crate::model::{
    lemma_jobs_of_first, lemma_jobs_of_push, lemma_workers_on_insert,
    lemma_workers_on_remove, u64_values, SchedulerView, Tally,
};
use crate::shared_state::{usize_values, SharedState};
use crate::thread_amount::ThreadAmount;
use std::collections::{HashMap, VecDeque};
use vstd::arithmetic::div_mod::{lemma_add_mod_noop_right, lemma_small_mod};
use vstd::multiset::Multiset;
use vstd::prelude::*;

verus! {

broadcast use vstd::std_specs::hash::group_hash_axioms;

/// What an idle worker does next.
pub enum Next<J> {
    /// It runs this job.
    Run(J),
    /// It waits until a job is sent or the last handle is gone.
    Wait,
    /// It stops for good.
    Stop,
}

/// What the scheduler keeps of one instance.
struct Instance {
    state: SharedState,
    handles: usize,
    completed: u64,
}

/// The shared part of a pool whose jobs have the type `J`.
pub struct Scheduler<J> {
    threads: ThreadAmount,
    queue: VecDeque<(u64, J)>,
    busy: HashMap<usize, u64>,
    instances: HashMap<u64, Instance>,
    handles: usize,
    next: u64,
    connected: Ghost<Multiset<u64>>,
    tallies: Ghost<Map<u64, Tally>>,
}

impl<J> View for Scheduler<J> {
    type V = SchedulerView<J>;

    closed spec fn view(&self) -> SchedulerView<J> {
        SchedulerView {
            threads: self.threads@,
            queue: self.queue@,
            busy: self.busy@,
            handles: self.connected@,
            tallies: self.tallies@,
            next: self.next as nat,
        }
    }
}

impl Instance {
    /// Whether this is what the scheduler should keep of the instance.
    closed spec fn agrees<J>(self, s: SchedulerView<J>, instance: u64) -> bool {
        &&& self.state.wf()
        &&& self.state@ == s.state_of(instance)
        &&& self.handles == s.handles.count(instance)
        &&& self.completed == s.completed(instance) % u64_values()
    }
}

impl<J> Scheduler<J> {
    /// The counters that are kept agree with the queue, the workers, the handles and the tallies.
    pub closed spec fn wf(&self) -> bool {
        &&& self@.wf()
        &&& self.handles == self@.handles.len()
        &&& forall|instance: u64|
            self.instances@.contains_key(instance) <==> #[trigger] self@.tallies.contains_key(
                instance,
            )
        &&& forall|instance: u64| #[trigger]
            self.instances@.contains_key(instance) ==> self.instances@[instance].agrees(
                self@,
                instance,
            )
    }

    /// A scheduler is well formed as a mathematical object too, and counts its handles.
    pub proof fn lemma_wf(&self)
        requires
            self.wf(),
        ensures
            self@.wf(),
            self@.handles.len() <= usize::MAX,
    {
    }

    /// A scheduler for so many workers, with no instance yet.
    pub(crate) fn new(threads: ThreadAmount) -> (r: Scheduler<J>)
        ensures
            r.wf(),
            r@ == SchedulerView::<J>::started(threads@),
    {
        let amount: usize = threads.get();
        let r = Scheduler {
            threads,
            queue: VecDeque::new(),
            busy: HashMap::new(),
            instances: HashMap::new(),
            handles: 0,
            next: 0,
            connected: Ghost(Multiset::empty()),
            tallies: Ghost(Map::empty()),
        };
        proof {
            SchedulerView::<J>::lemma_started_wf(amount as nat);
        }
        r
    }

    /// Opens a new instance with one handle.
    pub(crate) fn open(&mut self) -> (instance: u64)
        requires
            old(self).wf(),
            old(self)@.next < u64::MAX,
            old(self)@.handles.len() < usize::MAX,
        ensures
            final(self).wf(),
            final(self)@ == old(self)@.opened(),
            instance == old(self)@.next,
    {
        let instance: u64 = self.next;
        proof {
            self@.lemma_opened_wf();
        }
        self.instances.insert(
            instance,
            Instance { state: SharedState::new(), handles: 1, completed: 0 },
        );
        self.handles = self.handles + 1;
        self.next = self.next + 1;
        self.connected = Ghost(self.connected@.insert(instance));
        self.tallies = Ghost(self.tallies@.insert(instance, Tally { paniced: 0, completed: 0 }));
        proof {
            lemma_small_mod(0, usize_values());
            lemma_small_mod(0, u64_values());
        }
        instance
    }

    /// Adds a handle to an instance that has one.
    pub(crate) fn connect(&mut self, instance: u64)
        requires
            old(self).wf(),
            old(self)@.handles.count(instance) > 0,
            old(self)@.handles.len() < usize::MAX,
        ensures
            final(self).wf(),
            final(self)@ == old(self)@.connected(instance),
    {
        proof {
            assert(self@.tallies.contains_key(instance));
        }
        let mut kept = self.instances.remove(&instance).unwrap();
        kept.handles = kept.handles + 1;
        self.instances.insert(instance, kept);
        self.handles = self.handles + 1;
        self.connected = Ghost(self.connected@.insert(instance));
    }

    /// Takes a handle from an instance. What has neither a handle nor a job left is forgotten.
    pub(crate) fn disconnect(&mut self, instance: u64)
        requires
            old(self).wf(),
            old(self)@.handles.count(instance) > 0,
        ensures
            final(self).wf(),
            final(self)@ == old(self)@.disconnected(instance),
    {
        proof {
            assert(self@.tallies.contains_key(instance));
        }
        let mut kept = self.instances.remove(&instance).unwrap();
        kept.handles = kept.handles - 1;
        self.handles = self.handles - 1;
        self.connected = Ghost(self.connected@.remove(instance));
        self.settle(instance, kept);
    }

    /// Keeps or forgets an instance that was taken out.
    fn settle(&mut self, instance: u64, kept: Instance)
        requires
            kept.agrees(old(self)@, instance),
            !old(self).instances@.contains_key(instance),
            old(self)@.tallies.contains_key(instance),
        ensures
            final(self)@ == old(self)@.settled(instance),
            final(self).handles == old(self).handles,
            final(self).instances@ == if old(self)@.known(instance) {
                old(self).instances@.insert(instance, kept)
            } else {
                old(self).instances@
            },
    {
        if kept.handles > 0 || !kept.state.is_finished() {
            self.instances.insert(instance, kept);
        } else {
            self.tallies = Ghost(self.tallies@.remove(instance));
        }
    }

    /// Puts a job of the instance at the end of the queue.
    pub(crate) fn send(&mut self, instance: u64, job: J)
        requires
            old(self).wf(),
            old(self)@.handles.count(instance) > 0,
            old(self)@.queue.len() < usize::MAX,
        ensures
            final(self).wf(),
            final(self)@ == old(self)@.sent(instance, job),
    {
        proof {
            lemma_jobs_of_push(self@.queue, instance, job);
            assert(self@.tallies.contains_key(instance));
        }
        let mut kept = self.instances.remove(&instance).unwrap();
        kept.state.job_queued();
        self.instances.insert(instance, kept);
        self.queue.push_back((instance, job));
    }

    /// What the idle worker does next. If a job waits, the worker takes the one that was sent
    /// first and is busy with it from now on. It stops only once no handle is left that could
    /// send another job and the queue is empty.
    pub fn next_job(&mut self, worker: usize) -> (next: Next<J>)
        requires
            old(self).wf(),
            worker < old(self)@.threads,
            !old(self)@.busy.contains_key(worker),
        ensures
            final(self).wf(),
            match next {
                Next::Run(job) => {
                    &&& old(self)@.queue.len() > 0
                    &&& job == old(self)@.queue.first().1
                    &&& final(self)@ == old(self)@.taken(worker)
                    &&& final(self)@.queue == old(self)@.queue.drop_first()
                    &&& final(self)@.busy == old(self)@.busy.insert(
                        worker,
                        old(self)@.queue.first().0,
                    )
                    &&& final(self)@.threads == old(self)@.threads
                    &&& final(self)@.handles == old(self)@.handles
                    &&& final(self)@.tallies == old(self)@.tallies
                    &&& final(self)@.next == old(self)@.next
                },
                Next::Wait => {
                    &&& old(self)@.queue.len() == 0
                    &&& old(self)@.handles.len() > 0
                    &&& final(self)@ == old(self)@
                },
                Next::Stop => {
                    &&& old(self)@.queue.len() == 0
                    &&& old(self)@.handles.len() == 0
                    &&& final(self)@ == old(self)@
                },
            },
    {
        let ghost before = self@;
        match self.queue.pop_front() {
            Some((instance, job)) => {
                proof {
                    before.lemma_counts_bounded(instance);
                    lemma_jobs_of_first(before.queue);
                    lemma_workers_on_insert(before.busy, worker, instance);
                    assert(before.queue.subrange(1, before.queue.len() as int)
                        == before.queue.drop_first());
                    assert(before.tallies.contains_key(instance));
                }
                let mut kept = self.instances.remove(&instance).unwrap();
                kept.state.job_starting();
                self.instances.insert(instance, kept);
                self.busy.insert(worker, instance);
                Next::Run(job)
            },
            None => {
                if self.handles == 0 {
                    Next::Stop
                } else {
                    Next::Wait
                }
            },
        }
    }

    /// The busy worker is done with its job, and idle again. A panic is counted before the job
    /// is taken off the running ones.
    pub fn job_done(&mut self, worker: usize, paniced: bool)
        requires
            old(self).wf(),
            old(self)@.busy.contains_key(worker),
        ensures
            final(self).wf(),
            final(self)@ == old(self)@.done(worker, paniced),
            final(self)@.queue == old(self)@.queue,
            final(self)@.busy == old(self)@.busy.remove(worker),
            final(self)@.threads == old(self)@.threads,
            final(self)@.handles == old(self)@.handles,
            final(self)@.next == old(self)@.next,
            old(self)@.handles.count(old(self)@.busy[worker]) > 0 ==> {
                let before = old(self)@.tallies[old(self)@.busy[worker]];
                let after = final(self)@.tallies[old(self)@.busy[worker]];
                &&& after.completed == before.completed + 1
                &&& after.paniced == if paniced {
                    before.paniced + 1
                } else {
                    before.paniced
                }
            },
            forall|other: u64|
                other != old(self)@.busy[worker] ==> #[trigger] final(self)@.tallies[other]
                    == old(self)@.tallies[other],
    {
        let ghost before = self@;
        let instance: u64 = self.busy.remove(&worker).unwrap();
        proof {
            lemma_workers_on_remove(before.busy, worker);
            assert(before.tallies.contains_key(instance));
        }
        let mut kept = self.instances.remove(&instance).unwrap();
        if paniced {
            kept.state.job_paniced();
        }
        kept.state.job_finished();
        kept.completed = kept.completed.wrapping_add(1);
        proof {
            lemma_add_mod_noop_right(1, before.paniced(instance) as int, usize_values() as int);
            lemma_add_mod_noop_right(1, before.completed(instance) as int, u64_values() as int);
        }
        let ghost tally = Tally {
            paniced: before.paniced(instance) + if paniced {
                1nat
            } else {
                0
            },
            completed: before.completed(instance) + 1,
        };
        self.tallies = Ghost(self.tallies@.insert(instance, tally));
        self.settle(instance, kept);
    }

    /// Whether the worker runs a job.
    pub fn is_busy(&self, worker: usize) -> (b: bool)
        ensures
            b == self@.busy.contains_key(worker),
    {
        self.busy.contains_key(&worker)
    }

    /// The number of workers.
    pub fn threads(&self) -> (r: ThreadAmount)
        ensures
            r@ == self@.threads,
    {
        self.threads
    }

    /// Whether the queue has room for another job.
    pub fn can_queue(&self) -> (b: bool)
        ensures
            b == (self@.queue.len() < usize::MAX),
    {
        self.queue.len() < usize::MAX
    }

    /// Whether another handle can be counted.
    pub fn can_connect(&self) -> (b: bool)
        requires
            self.wf(),
        ensures
            b == (self@.handles.len() < usize::MAX),
    {
        self.handles < usize::MAX
    }

    /// Whether another instance can be opened.
    pub fn can_open(&self) -> (b: bool)
        ensures
            b == (self@.next < u64::MAX),
    {
        self.next < u64::MAX
    }

    /// Whether the instance has a handle.
    pub(crate) fn is_connected(&self, instance: u64) -> (b: bool)
        requires
            self.wf(),
        ensures
            b == (self@.handles.count(instance) > 0),
    {
        proof {
            assert(self@.tallies.contains_key(instance) <==> self@.known(instance));
        }
        match self.instances.get(&instance) {
            Some(kept) => kept.handles > 0,
            None => false,
        }
    }

    /// The counters of an instance that has a handle.
    pub(crate) fn state(&self, instance: u64) -> (r: &SharedState)
        requires
            self.wf(),
            self@.handles.count(instance) > 0,
        ensures
            r.wf(),
            r@ == self@.state_of(instance),
    {
        proof {
            assert(self@.tallies.contains_key(instance));
        }
        &self.instances.get(&instance).unwrap().state
    }

    /// How many jobs of an instance that has a handle are done.
    pub(crate) fn completed(&self, instance: u64) -> (n: u64)
        requires
            self.wf(),
            self@.handles.count(instance) > 0,
        ensures
            n == self@.completed(instance) % u64_values(),
    {
        proof {
            assert(self@.tallies.contains_key(instance));
        }
        self.instances.get(&instance).unwrap().completed
    }
}

} // verus!
