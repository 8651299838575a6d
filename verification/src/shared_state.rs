//! The counters that one instance of a pool keeps of its jobs.

use crate::text::{
    bool_text, boolean, decimal, decimal_text, is_plain, law_bool_text_names_value,
    law_decimal_text_is_injective, lemma_field_ends_at_label, lemma_field_ends_at_separator,
    lemma_fields_are_plain, lemma_same_label,
};
use vstd::arithmetic::div_mod::{lemma_add_mod_noop_right, lemma_mod_self_0, lemma_small_mod};
use vstd::prelude::*;

verus! {

/// How many values a `usize` has. The count of panics starts again at zero there.
pub open spec fn usize_values() -> nat {
    (usize::MAX + 1) as nat
}

/// What can happen to a job of the instance.
pub enum Event {
    /// The job was sent, and waits for a thread.
    Queued,
    /// A thread took the job and runs it.
    Starting,
    /// The running job paniced.
    Paniced,
    /// The thread is done with the job.
    Finished,
}

/// The counters as numbers.
pub struct StateView {
    /// Jobs that wait for a thread.
    pub queued: nat,
    /// Jobs that a thread runs.
    pub running: nat,
    /// Jobs that paniced, modulo `usize_values`.
    pub paniced: nat,
    /// Whether any job paniced.
    pub has_paniced: bool,
}

impl StateView {
    /// The counters before the first event.
    pub open spec fn fresh() -> StateView {
        StateView { queued: 0, running: 0, paniced: 0, has_paniced: false }
    }

    /// No job is queued and none is running.
    pub open spec fn finished(self) -> bool {
        self.queued == 0 && self.running == 0
    }

    /// Whether the event can happen: only a queued job starts, and only a running job finishes.
    /// A panic can be reported at any time.
    pub open spec fn allows(self, event: Event) -> bool {
        match event {
            Event::Queued => true,
            Event::Starting => self.queued > 0,
            Event::Paniced => true,
            Event::Finished => self.running > 0,
        }
    }

    /// The counters after the event.
    pub open spec fn after(self, event: Event) -> StateView {
        match event {
            Event::Queued => StateView { queued: self.queued + 1, ..self },
            Event::Starting => StateView {
                queued: (self.queued - 1) as nat,
                running: self.running + 1,
                ..self
            },
            Event::Paniced => StateView {
                paniced: (self.paniced + 1) % usize_values(),
                has_paniced: true,
                ..self
            },
            Event::Finished => StateView { running: (self.running - 1) as nat, ..self },
        }
    }

    /// The counters after a history of events, oldest first.
    pub open spec fn of_history(events: Seq<Event>) -> StateView
        decreases events.len(),
    {
        if events.len() == 0 {
            StateView::fresh()
        } else {
            StateView::of_history(events.drop_last()).after(events.last())
        }
    }

    /// Whether every event of the history could happen when it did.
    pub open spec fn possible(events: Seq<Event>) -> bool
        decreases events.len(),
    {
        events.len() > 0 ==> {
            &&& StateView::possible(events.drop_last())
            &&& StateView::of_history(events.drop_last()).allows(events.last())
        }
    }
}

/// The text that shows the counters.
pub open spec fn state_text(s: StateView) -> Seq<char> {
    "SharedState<jobs_queued: "@ + decimal_text(s.queued) + ", jobs_running: "@
        + decimal_text(s.running) + ", jobs_paniced: "@ + decimal_text(
        s.paniced,
    ) + ", is_finished: "@ + bool_text(s.finished()) + ", has_paniced: "@
        + bool_text(s.has_paniced) + ">"@
}

/// The counters of one instance of a pool.
#[derive(Debug)]
pub struct SharedState {
    jobs_queued: usize,
    jobs_running: usize,
    jobs_paniced: usize,
    is_finished: bool,
    has_paniced: bool,
}

impl View for SharedState {
    type V = StateView;

    closed spec fn view(&self) -> StateView {
        StateView {
            queued: self.jobs_queued as nat,
            running: self.jobs_running as nat,
            paniced: self.jobs_paniced as nat,
            has_paniced: self.has_paniced,
        }
    }
}

impl SharedState {
    /// The flag for being finished agrees with the two counters, and a job that was counted as
    /// paniced is on record as a panic.
    pub closed spec fn wf(&self) -> bool {
        &&& self.is_finished == (self.jobs_queued == 0 && self.jobs_running == 0)
        &&& self.jobs_paniced > 0 ==> self.has_paniced
    }

    /// A panic that is counted is on record, in every state that the counters can be in.
    pub proof fn law_counted_panic_is_on_record(&self)
        requires
            self.wf(),
        ensures
            self@.paniced > 0 ==> self@.has_paniced,
    {
    }

    /// No job was sent yet.
    pub fn new() -> (r: SharedState)
        ensures
            r.wf(),
            r@ == StateView::fresh(),
            r@ == (StateView { queued: 0, running: 0, paniced: 0, has_paniced: false }),
    {
        SharedState {
            jobs_queued: 0,
            jobs_running: 0,
            jobs_paniced: 0,
            is_finished: true,
            has_paniced: false,
        }
    }

    /// A queued job starts.
    pub fn job_starting(&mut self)
        requires
            old(self).wf(),
            old(self)@.queued > 0,
            old(self)@.running < usize::MAX,
        ensures
            final(self).wf(),
            final(self)@ == old(self)@.after(Event::Starting),
            final(self)@.queued + 1 == old(self)@.queued,
            final(self)@.running == old(self)@.running + 1,
            final(self)@.paniced == old(self)@.paniced,
            final(self)@.has_paniced == old(self)@.has_paniced,
    {
        self.jobs_running = self.jobs_running + 1;
        self.jobs_queued = self.jobs_queued - 1;
    }

    /// A running job is done, whether it paniced or not.
    pub fn job_finished(&mut self)
        requires
            old(self).wf(),
            old(self)@.running > 0,
        ensures
            final(self).wf(),
            final(self)@ == old(self)@.after(Event::Finished),
            final(self)@.queued == old(self)@.queued,
            final(self)@.running + 1 == old(self)@.running,
            final(self)@.paniced == old(self)@.paniced,
            final(self)@.has_paniced == old(self)@.has_paniced,
    {
        self.jobs_running = self.jobs_running - 1;
        if self.jobs_queued == 0 && self.jobs_running == 0 {
            self.is_finished = true;
        }
    }

    /// A job is put in the queue.
    pub fn job_queued(&mut self)
        requires
            old(self).wf(),
            old(self)@.queued < usize::MAX,
        ensures
            final(self).wf(),
            final(self)@ == old(self)@.after(Event::Queued),
            final(self)@.queued == old(self)@.queued + 1,
            final(self)@.running == old(self)@.running,
            final(self)@.paniced == old(self)@.paniced,
            final(self)@.has_paniced == old(self)@.has_paniced,
    {
        self.jobs_queued = self.jobs_queued + 1;
        self.is_finished = false;
    }

    /// A job paniced.
    pub fn job_paniced(&mut self)
        requires
            old(self).wf(),
        ensures
            final(self).wf(),
            final(self)@ == old(self)@.after(Event::Paniced),
            final(self)@.queued == old(self)@.queued,
            final(self)@.running == old(self)@.running,
            final(self)@.paniced == if old(self)@.paniced < usize::MAX {
                old(self)@.paniced + 1
            } else {
                0
            },
            final(self)@.has_paniced,
    {
        proof {
            if self.jobs_paniced < usize::MAX {
                lemma_small_mod((self.jobs_paniced + 1) as nat, usize_values());
            } else {
                lemma_mod_self_0(usize_values() as int);
            }
        }
        self.has_paniced = true;
        self.jobs_paniced = self.jobs_paniced.wrapping_add(1);
    }

    /// The number of jobs that wait for a thread.
    pub fn jobs_queued(&self) -> (n: usize)
        ensures
            n == self@.queued,
    {
        self.jobs_queued
    }

    /// The number of jobs that a thread runs.
    pub fn jobs_running(&self) -> (n: usize)
        ensures
            n == self@.running,
    {
        self.jobs_running
    }

    /// The number of jobs that paniced.
    pub fn jobs_paniced(&self) -> (n: usize)
        ensures
            n == self@.paniced,
    {
        self.jobs_paniced
    }

    /// Whether no job is queued and none is running.
    pub fn is_finished(&self) -> (b: bool)
        requires
            self.wf(),
        ensures
            b == self@.finished(),
            b == (self@.queued == 0 && self@.running == 0),
    {
        self.is_finished
    }

    /// Whether any job paniced.
    pub fn has_paniced(&self) -> (b: bool)
        ensures
            b == self@.has_paniced,
    {
        self.has_paniced
    }

    /// Shows all five values.
    pub fn to_string(&self) -> (s: String)
        requires
            self.wf(),
        ensures
            s@ == state_text(self@),
            s@ == "SharedState<jobs_queued: "@ + decimal_text(self@.queued) + ", jobs_running: "@
                + decimal_text(self@.running) + ", jobs_paniced: "@ + decimal_text(self@.paniced)
                + ", is_finished: "@ + (if self@.queued == 0 && self@.running == 0 {
                "true"@
            } else {
                "false"@
            }) + ", has_paniced: "@ + (if self@.has_paniced {
                "true"@
            } else {
                "false"@
            }) + ">"@,
    {
        let mut s = String::from_str("SharedState<jobs_queued: ");
        s.append(decimal(self.jobs_queued).as_str());
        s.append(", jobs_running: ");
        s.append(decimal(self.jobs_running).as_str());
        s.append(", jobs_paniced: ");
        s.append(decimal(self.jobs_paniced).as_str());
        s.append(", is_finished: ");
        s.append(boolean(self.is_finished));
        s.append(", has_paniced: ");
        s.append(boolean(self.has_paniced));
        s.append(">");
        s
    }
}

/// The count of panics starts again where a `usize` ends, and no earlier.
pub proof fn law_count_of_panics_ends_with_usize(n: nat)
    ensures
        usize_values() == usize::MAX + 1,
        n <= usize::MAX ==> n % usize_values() == n,
        n % usize_values() == 0 <==> n % ((usize::MAX + 1) as nat) == 0,
{
    if n <= usize::MAX {
        lemma_small_mod(n, usize_values());
    }
}

/// The shown text tells every value: states that show the same text have the same three counters,
/// are both finished or both not, which is to have neither a queued nor a running job, and have
/// both seen a panic or both not. The text ends with the two flags under their names.
pub proof fn law_state_text_shows_every_value(s: StateView, t: StateView)
    ensures
        state_text(s) == state_text(t) ==> {
            &&& s.queued == t.queued
            &&& s.running == t.running
            &&& s.paniced == t.paniced
            &&& (s.queued == 0 && s.running == 0) == (t.queued == 0 && t.running == 0)
            &&& s.has_paniced == t.has_paniced
        },
        (", is_finished: "@ + (if s.queued == 0 && s.running == 0 {
            "true"@
        } else {
            "false"@
        }) + ", has_paniced: "@ + (if s.has_paniced {
            "true"@
        } else {
            "false"@
        }) + ">"@).is_suffix_of(state_text(s)),
        ("SharedState<jobs_queued: "@ + decimal_text(s.queued) + ", jobs_running: "@
            + decimal_text(s.running) + ", jobs_paniced: "@ + decimal_text(s.paniced)
            + ", is_finished: "@).is_prefix_of(state_text(s)),
{
    lemma_state_text_ends(s);
    if state_text(s) == state_text(t) {
        lemma_state_text_is_injective(s, t);
    }
}

/// The shown text begins with the counters and ends with the flags.
proof fn lemma_state_text_ends(s: StateView)
    ensures
        (", is_finished: "@ + bool_text(s.finished()) + ", has_paniced: "@ + bool_text(
            s.has_paniced,
        ) + ">"@).is_suffix_of(state_text(s)),
        ("SharedState<jobs_queued: "@ + decimal_text(s.queued) + ", jobs_running: "@
            + decimal_text(s.running) + ", jobs_paniced: "@ + decimal_text(s.paniced)
            + ", is_finished: "@).is_prefix_of(state_text(s)),
{
    let flags = ", is_finished: "@ + bool_text(s.finished()) + ", has_paniced: "@ + bool_text(
        s.has_paniced,
    ) + ">"@;
    let text = state_text(s);
    assert(flags =~= text.skip(text.len() - flags.len()));
    let counters = "SharedState<jobs_queued: "@ + decimal_text(s.queued) + ", jobs_running: "@
        + decimal_text(s.running) + ", jobs_paniced: "@ + decimal_text(s.paniced)
        + ", is_finished: "@;
    assert(counters =~= text.take(counters.len() as int));
}

/// States that show the same text have the same values.
proof fn lemma_state_text_is_injective(s: StateView, t: StateView)
    requires
        state_text(s) == state_text(t),
    ensures
        s.queued == t.queued,
        s.running == t.running,
        s.paniced == t.paniced,
        s.finished() == t.finished(),
        s.has_paniced == t.has_paniced,
{
    lemma_state_text_tails(s);
    lemma_state_text_tails(t);
    lemma_same_label(
        "SharedState<jobs_queued: "@,
        tail_from_queued(s),
        tail_from_queued(t),
    );
    lemma_field_ends_at_label(
        decimal_text(s.queued),
        decimal_text(t.queued),
        ", jobs_running: "@,
        tail_from_running(s),
        tail_from_running(t),
    );
    lemma_field_ends_at_label(
        decimal_text(s.running),
        decimal_text(t.running),
        ", jobs_paniced: "@,
        tail_from_paniced(s),
        tail_from_paniced(t),
    );
    lemma_field_ends_at_label(
        decimal_text(s.paniced),
        decimal_text(t.paniced),
        ", is_finished: "@,
        tail_from_finished(s),
        tail_from_finished(t),
    );
    lemma_field_ends_at_label(
        bool_text(s.finished()),
        bool_text(t.finished()),
        ", has_paniced: "@,
        bool_text(s.has_paniced) + ">"@,
        bool_text(t.has_paniced) + ">"@,
    );
    lemma_field_ends_at_separator(
        bool_text(s.has_paniced),
        ">"@,
        bool_text(t.has_paniced),
        ">"@,
    );
    law_decimal_text_is_injective(s.queued, t.queued);
    law_decimal_text_is_injective(s.running, t.running);
    law_decimal_text_is_injective(s.paniced, t.paniced);
    law_bool_text_names_value(s.finished());
    law_bool_text_names_value(t.finished());
    law_bool_text_names_value(s.has_paniced);
    law_bool_text_names_value(t.has_paniced);
}

/// The shown text from the count of queued jobs on.
spec fn tail_from_queued(s: StateView) -> Seq<char> {
    decimal_text(s.queued) + (", jobs_running: "@ + tail_from_running(s))
}

/// The shown text from the count of running jobs on.
spec fn tail_from_running(s: StateView) -> Seq<char> {
    decimal_text(s.running) + (", jobs_paniced: "@ + tail_from_paniced(s))
}

/// The shown text from the count of panics on.
spec fn tail_from_paniced(s: StateView) -> Seq<char> {
    decimal_text(s.paniced) + (", is_finished: "@ + tail_from_finished(s))
}

/// The shown text from the flag for being finished on.
spec fn tail_from_finished(s: StateView) -> Seq<char> {
    bool_text(s.finished()) + (", has_paniced: "@ + (bool_text(s.has_paniced) + ">"@))
}

/// The shown text is its head and the tails, whose fields are plain and whose labels begin with a
/// character that parts fields.
proof fn lemma_state_text_tails(s: StateView)
    ensures
        state_text(s) == "SharedState<jobs_queued: "@ + tail_from_queued(s),
        ", jobs_running: "@.len() > 0 && !is_plain(", jobs_running: "@[0]),
        ", jobs_paniced: "@.len() > 0 && !is_plain(", jobs_paniced: "@[0]),
        ", is_finished: "@.len() > 0 && !is_plain(", is_finished: "@[0]),
        ", has_paniced: "@.len() > 0 && !is_plain(", has_paniced: "@[0]),
        ">"@.len() > 0 && !is_plain(">"@[0]),
        forall|i: int|
            0 <= i < decimal_text(s.queued).len() ==> is_plain(
                #[trigger] decimal_text(s.queued)[i],
            ),
        forall|i: int|
            0 <= i < decimal_text(s.running).len() ==> is_plain(
                #[trigger] decimal_text(s.running)[i],
            ),
        forall|i: int|
            0 <= i < decimal_text(s.paniced).len() ==> is_plain(
                #[trigger] decimal_text(s.paniced)[i],
            ),
        forall|i: int|
            0 <= i < bool_text(s.finished()).len() ==> is_plain(
                #[trigger] bool_text(s.finished())[i],
            ),
        forall|i: int|
            0 <= i < bool_text(s.has_paniced).len() ==> is_plain(
                #[trigger] bool_text(s.has_paniced)[i],
            ),
{
    reveal_strlit(", jobs_running: ");
    reveal_strlit(", jobs_paniced: ");
    reveal_strlit(", is_finished: ");
    reveal_strlit(", has_paniced: ");
    reveal_strlit(">");
    lemma_fields_are_plain(s.queued, s.finished());
    lemma_fields_are_plain(s.running, s.has_paniced);
    lemma_fields_are_plain(s.paniced, s.has_paniced);
    assert(state_text(s) =~= "SharedState<jobs_queued: "@ + tail_from_queued(s));
}

/// How often the event occurs in the history.
pub open spec fn occurrences(events: Seq<Event>, event: Event) -> nat {
    events.to_multiset().count(event)
}

/// The counters of any possible history count what they say: the jobs sent and not started, the
/// jobs started and not finished, and the panics. The instance is finished exactly if every job
/// that was sent has finished, and has paniced exactly if some job did. As long as the count of
/// panics has not started again, that is so exactly if the count is above zero.
pub proof fn law_counters_follow_history(events: Seq<Event>)
    requires
        StateView::possible(events),
    ensures
        ({
            let s = StateView::of_history(events);
            &&& s.queued == occurrences(events, Event::Queued) - occurrences(
                events,
                Event::Starting,
            )
            &&& s.running == occurrences(events, Event::Starting) - occurrences(
                events,
                Event::Finished,
            )
            &&& s.paniced == occurrences(events, Event::Paniced) % usize_values()
            &&& s.has_paniced <==> occurrences(events, Event::Paniced) > 0
            &&& s.paniced > 0 ==> s.has_paniced
            &&& occurrences(events, Event::Paniced) <= usize::MAX ==> s.paniced == occurrences(
                events,
                Event::Paniced,
            )
            &&& occurrences(events, Event::Paniced) < usize_values() ==> {
                &&& s.paniced == occurrences(events, Event::Paniced)
                &&& s.has_paniced <==> s.paniced > 0
            }
            &&& s.queued == 0 && s.running == 0 <==> occurrences(events, Event::Queued)
                == occurrences(events, Event::Finished)
            &&& s.finished() <==> occurrences(events, Event::Queued) == occurrences(
                events,
                Event::Finished,
            )
        }),
    decreases events.len(),
{
    broadcast use vstd::seq_lib::group_to_multiset_ensures;

    if events.len() > 0 {
        law_counters_follow_history(events.drop_last());
        assert(events == events.drop_last().push(events.last()));
        lemma_add_mod_noop_right(
            1,
            occurrences(events.drop_last(), Event::Paniced) as int,
            usize_values() as int,
        );
    } else {
        lemma_small_mod(0, usize_values());
    }
}

} // verus!
