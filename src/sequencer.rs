use vstd::prelude::*;
use crate::request::DeleteOutcome;

verus! {

/// The pause between two delete requests, in milliseconds.
pub const PAUSE_MILLIS: u64 = 500;

/// The counts of one run.
#[derive(Clone, Copy, Debug, PartialEq, Eq, Structural)]
pub struct RunSummary {
    /// Identifiers whose delete request was made.
    pub attempted: usize,
    /// Requests answered with a success status.
    pub succeeded: usize,
    /// Requests that failed, in transport or at the endpoint.
    pub failed: usize,
}

/// What the driver of a run does next.
#[derive(Debug, PartialEq, Eq)]
pub enum Step {
    /// Make the delete request for `id`, the identifier at `position` of a
    /// list of `total`, and report its outcome with `Sequencer::record`.
    Delete { position: usize, total: usize, id: String },
    /// Wait `millis` milliseconds before the next request.
    Pause { millis: u64 },
    /// The run is over.
    Finished { summary: RunSummary },
}

/// The number of outcomes that are deletions.
pub open spec fn count_deleted(outcomes: Seq<DeleteOutcome>) -> nat
    decreases outcomes.len(),
{
    if outcomes.len() == 0 {
        0
    } else {
        count_deleted(outcomes.drop_last()) + if outcomes.last() is Deleted {
            1nat
        } else {
            0nat
        }
    }
}

/// The summary that a list of outcomes adds up to.
pub open spec fn summary_of(outcomes: Seq<DeleteOutcome>) -> RunSummary {
    RunSummary {
        attempted: outcomes.len() as usize,
        succeeded: count_deleted(outcomes) as usize,
        failed: (outcomes.len() - count_deleted(outcomes)) as usize,
    }
}

proof fn lemma_count_deleted_bounded(outcomes: Seq<DeleteOutcome>)
    ensures
        count_deleted(outcomes) <= outcomes.len(),
    decreases outcomes.len(),
{
    if outcomes.len() > 0 {
        lemma_count_deleted_bounded(outcomes.drop_last());
    }
}

/// The state of one batch run over a list of identifiers: which identifier
/// is due, whether a request is in flight or a pause is owed, and what the
/// requests so far have given.
pub struct Sequencer {
    ids: Vec<String>,
    next: usize,
    in_flight: bool,
    pause_due: bool,
    stopped: bool,
    finished: bool,
    summary: RunSummary,
    requested: Ghost<Seq<Seq<char>>>,
    outcomes: Ghost<Seq<DeleteOutcome>>,
}

impl Sequencer {
    /// The identifiers of the run, in the order they are to be deleted.
    pub closed spec fn ids(&self) -> Seq<Seq<char>> {
        self.ids@.map_values(|s: String| s@)
    }

    /// The number of identifiers whose outcome has been recorded.
    pub closed spec fn position(&self) -> nat {
        self.next as nat
    }

    /// The identifiers handed out for deletion so far, in the order they were
    /// handed out.
    pub closed spec fn requested(&self) -> Seq<Seq<char>> {
        self.requested@
    }

    /// The outcomes recorded so far, one per request, in order.
    pub closed spec fn outcomes(&self) -> Seq<DeleteOutcome> {
        self.outcomes@
    }

    /// A request has been handed out and its outcome is not recorded yet.
    pub closed spec fn awaiting_outcome(&self) -> bool {
        self.in_flight
    }

    /// A pause is owed before the next request.
    pub closed spec fn pause_due(&self) -> bool {
        self.pause_due
    }

    /// The run was told to stop early.
    pub closed spec fn stop_requested(&self) -> bool {
        self.stopped
    }

    /// The run has reported that it is over.
    pub closed spec fn is_finished(&self) -> bool {
        self.finished
    }

    /// Every identifier has had its request and outcome, or a stop was asked.
    pub open spec fn is_exhausted(&self) -> bool {
        self.stop_requested() || self.position() == self.ids().len()
    }

    /// The state agrees with itself: the identifiers handed out are the
    /// first ones of the list, each once, and the summary counts the
    /// recorded outcomes.
    pub closed spec fn wf(&self) -> bool {
        &&& self.next <= self.ids@.len()
        &&& self.in_flight ==> self.next < self.ids@.len() && !self.pause_due && !self.finished
        &&& self.pause_due ==> self.next > 0
        &&& self.finished ==> !self.in_flight && (self.stopped || self.next == self.ids@.len())
        &&& self.requested@.len() == self.next + if self.in_flight { 1int } else { 0int }
        &&& forall|i: int| 0 <= i < self.requested@.len() ==> self.requested@[i] == self.ids@[i]@
        &&& self.outcomes@.len() == self.next
        &&& self.summary == summary_of(self.outcomes@)
    }

    /// A run over `ids`, in the order given.
    pub fn new(ids: Vec<String>) -> (r: Sequencer)
        ensures
            r.wf(),
            r.ids() == ids@.map_values(|s: String| s@),
            r.position() == 0,
            r.requested() == Seq::<Seq<char>>::empty(),
            r.outcomes() == Seq::<DeleteOutcome>::empty(),
            !r.awaiting_outcome(),
            !r.pause_due(),
            !r.stop_requested(),
            !r.is_finished(),
    {
        Sequencer {
            ids,
            next: 0,
            in_flight: false,
            pause_due: false,
            stopped: false,
            finished: false,
            summary: RunSummary { attempted: 0, succeeded: 0, failed: 0 },
            requested: Ghost(Seq::empty()),
            outcomes: Ghost(Seq::empty()),
        }
    }

    /// The summary of the outcomes recorded so far.
    pub fn summary(&self) -> (r: RunSummary)
        requires
            self.wf(),
        ensures
            r == summary_of(self.outcomes()),
    {
        self.summary
    }

    /// The next thing to do. A run that has handed out every identifier, or
    /// was asked to stop, is over; otherwise a pause owed after a request
    /// comes first; otherwise the next identifier of the list is handed out.
    pub fn next_step(&mut self) -> (r: Step)
        requires
            old(self).wf(),
            !old(self).awaiting_outcome(),
        ensures
            final(self).wf(),
            final(self).ids() == old(self).ids(),
            final(self).position() == old(self).position(),
            final(self).outcomes() == old(self).outcomes(),
            final(self).stop_requested() == old(self).stop_requested(),
            old(self).is_exhausted() ==> {
                &&& r == (Step::Finished { summary: summary_of(old(self).outcomes()) })
                &&& final(self).is_finished()
                &&& !final(self).awaiting_outcome()
                &&& final(self).requested() == old(self).requested()
            },
            !old(self).is_exhausted() && old(self).pause_due() ==> {
                &&& r == (Step::Pause { millis: PAUSE_MILLIS })
                &&& !final(self).pause_due()
                &&& !final(self).awaiting_outcome()
                &&& !final(self).is_finished()
                &&& final(self).requested() == old(self).requested()
            },
            !old(self).is_exhausted() && !old(self).pause_due() ==> {
                &&& r matches Step::Delete { position, total, id }
                &&& position == old(self).position()
                &&& total == old(self).ids().len()
                &&& id@ == old(self).ids()[old(self).position() as int]
                &&& final(self).awaiting_outcome()
                &&& !final(self).is_finished()
                &&& final(self).requested() == old(self).requested().push(
                    old(self).ids()[old(self).position() as int],
                )
            },
    {
        if self.stopped || self.next == self.ids.len() {
            self.finished = true;
            self.pause_due = false;
            Step::Finished { summary: self.summary }
        } else if self.pause_due {
            self.pause_due = false;
            Step::Pause { millis: PAUSE_MILLIS }
        } else {
            let id = self.ids[self.next].clone();
            self.in_flight = true;
            self.requested = Ghost(self.requested@.push(id@));
            Step::Delete { position: self.next, total: self.ids.len(), id }
        }
    }

    /// Records the outcome of the request in flight. Whatever the outcome,
    /// the run goes on with the next identifier after a pause: a failed
    /// request is counted, never retried and never the end of the run.
    pub fn record(&mut self, outcome: DeleteOutcome)
        requires
            old(self).wf(),
            old(self).awaiting_outcome(),
        ensures
            final(self).wf(),
            final(self).ids() == old(self).ids(),
            final(self).position() == old(self).position() + 1,
            final(self).requested() == old(self).requested(),
            final(self).outcomes() == old(self).outcomes().push(outcome),
            !final(self).awaiting_outcome(),
            final(self).pause_due(),
            final(self).stop_requested() == old(self).stop_requested(),
            !final(self).is_finished(),
    {
        let ghost before = self.outcomes@;
        proof {
            lemma_count_deleted_bounded(before);
            assert(before.push(outcome).drop_last() =~= before);
        }
        assert(self.summary.succeeded == count_deleted(before));
        let total = self.ids.len();
        assert(self.next < total);
        let deleted = outcome.is_deleted();
        let succeeded = if deleted { self.summary.succeeded + 1 } else { self.summary.succeeded };
        let failed = if deleted { self.summary.failed } else { self.summary.failed + 1 };
        self.summary = RunSummary { attempted: self.next + 1, succeeded, failed };
        self.next = self.next + 1;
        self.in_flight = false;
        self.pause_due = true;
        self.outcomes = Ghost(before.push(outcome));
    }

    /// Asks the run to stop before its next request; a request in flight
    /// still has its outcome recorded.
    pub fn cancel(&mut self)
        requires
            old(self).wf(),
        ensures
            final(self).wf(),
            final(self).stop_requested(),
            final(self).ids() == old(self).ids(),
            final(self).position() == old(self).position(),
            final(self).requested() == old(self).requested(),
            final(self).outcomes() == old(self).outcomes(),
            final(self).awaiting_outcome() == old(self).awaiting_outcome(),
            final(self).pause_due() == old(self).pause_due(),
            final(self).is_finished() == old(self).is_finished(),
    {
        self.stopped = true;
    }
}

/// The identifiers handed out for deletion are always the first ones of the
/// list, in its order, each once; one outcome is recorded per request; and a
/// run that ends without a stop has handed out every identifier of the list.
pub proof fn lemma_requests_follow_list(s: Sequencer)
    requires
        s.wf(),
    ensures
        s.requested().len() <= s.ids().len(),
        s.requested() == s.ids().take(s.requested().len() as int),
        s.requested().len() == s.position() + if s.awaiting_outcome() {
            1int
        } else {
            0int
        },
        s.outcomes().len() == s.position(),
        s.is_finished() && !s.stop_requested() ==> s.requested() == s.ids(),
{
    assert(s.requested() =~= s.ids().take(s.requested().len() as int));
    if s.is_finished() && !s.stop_requested() {
        assert(s.requested() =~= s.ids());
    }
}

/// The outcomes recorded so far never decide whether the run goes on: two
/// runs that stand at the same identifier of the same list, alike but for
/// what their requests gave, are both over or both not, so a failed request
/// never keeps the next identifier from its request.
pub proof fn lemma_outcomes_never_end_run(s: Sequencer, t: Sequencer)
    requires
        s.wf(),
        t.wf(),
        s.ids() == t.ids(),
        s.position() == t.position(),
        s.stop_requested() == t.stop_requested(),
    ensures
        s.is_exhausted() == t.is_exhausted(),
        !s.stop_requested() && s.position() < s.ids().len() ==> !s.is_exhausted(),
{
}

/// A run over an empty list has nothing to request: it is over at once,
/// with nothing attempted.
pub proof fn lemma_empty_list_finishes(s: Sequencer)
    requires
        s.wf(),
        s.ids().len() == 0,
    ensures
        s.is_exhausted(),
        s.requested().len() == 0,
        summary_of(s.outcomes()) == (RunSummary { attempted: 0, succeeded: 0, failed: 0 }),
{
    assert(s.outcomes().len() == 0);
}

} // verus!
