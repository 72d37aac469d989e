//! The report state machine: the last-seen snapshot and the
//! "is-first-report" flag, with the transitions taken at tick start,
//! on report success, and on report failure.

use vstd::prelude::*;

use crate::diff::Diff;
use crate::diff::diff_added;
use crate::diff::diff_removed;
use crate::diff::model_set;
use crate::diff::models;
use crate::diff::owned_diff;
use crate::diff::lemma_diff_empty;
use crate::items::Item;
use crate::items::ItemModel;

verus! {

/// How often the loop driver fires a tick, in milliseconds.
pub const TICK_MILLIS: u64 = 500;

/// The mathematical value of the report state: the contents of the
/// last-seen snapshot, and whether the next report is a first report.
pub ghost struct StateModel {
    pub files: Set<ItemModel>,
    pub is_first: bool,
}

/// The state the agent starts in, and returns to after a failure:
/// nothing seen yet, next report flagged first.
pub open spec fn initial_state() -> StateModel {
    StateModel { files: Set::empty(), is_first: true }
}

/// The transition taken at tick start: the fresh snapshot replaces the
/// last-seen one at once; the flag is untouched.
pub open spec fn step_begin_tick(s: StateModel, curr: Set<ItemModel>) -> StateModel {
    StateModel { files: curr, is_first: s.is_first }
}

/// The transition taken when a report is acknowledged: the next report
/// is no longer a first report.
pub open spec fn step_success(s: StateModel) -> StateModel {
    StateModel { files: s.files, is_first: false }
}

/// The transition taken when a report fails, for any reason: back to
/// the initial state, so the next successful report re-declares the
/// full directory contents.
pub open spec fn step_failure(s: StateModel) -> StateModel {
    initial_state()
}

/// The report state. Owned by the loop driver; a caller that shares it
/// across execution contexts must wrap it in its own exclusion guard.
#[derive(Debug)]
pub struct State {
    pub files: Vec<Item>,
    pub is_first: bool,
}

impl View for State {
    type V = StateModel;

    open spec fn view(&self) -> StateModel {
        StateModel { files: model_set(self.files@), is_first: self.is_first }
    }
}

impl State {
    /// A fresh state: no snapshot seen yet, first report pending.
    pub fn new() -> (s: State)
        ensures
            s@ == initial_state(),
            s.files@.len() == 0,
            s.is_first,
    {
        let s = State { files: Vec::new(), is_first: true };
        proof {
            assert(model_set(s.files@) =~= Set::<ItemModel>::empty());
        }
        s
    }

    /// The work done under the lock at tick start: diff the fresh
    /// snapshot against the last-seen one, store the fresh snapshot at
    /// once, and hand back the diff together with the flag to send.
    pub fn begin_tick(&mut self, curr: Vec<Item>) -> (r: (Diff, bool))
        ensures
            model_set(r.0.added@) == diff_added(old(self)@.files, model_set(curr@)),
            model_set(r.0.removed@) == diff_removed(old(self)@.files, model_set(curr@)),
            models(r.0.added@).no_duplicates(),
            models(r.0.removed@).no_duplicates(),
            r.1 == old(self)@.is_first,
            final(self)@ == step_begin_tick(old(self)@, model_set(curr@)),
            final(self).files@ == curr@,
    {
        let d = owned_diff(&self.files, &curr);
        let first = self.is_first;
        self.files = curr;
        (d, first)
    }

    /// The transition on a successful report.
    pub fn on_success(&mut self)
        ensures
            final(self)@ == step_success(old(self)@),
            final(self).files@ == old(self).files@,
            !final(self).is_first,
    {
        self.is_first = false;
    }

    /// The transition on a failed report, whatever its kind: the
    /// last-seen snapshot is cleared and the flag is set again.
    pub fn on_failure(&mut self)
        ensures
            final(self)@ == step_failure(old(self)@),
            final(self).files@.len() == 0,
            final(self).is_first,
    {
        self.is_first = true;
        self.files = Vec::new();
        proof {
            assert(model_set(self.files@) =~= Set::<ItemModel>::empty());
        }
    }
}

/// The policy for a failed directory listing: the tick proceeds with
/// an empty snapshot rather than stalling the loop.
pub fn snapshot_or_empty(listing: Option<Vec<Item>>) -> (v: Vec<Item>)
    ensures
        match listing {
            Some(items) => v@ == items@,
            None => v@.len() == 0,
        },
{
    match listing {
        Some(items) => items,
        None => Vec::new(),
    }
}

/// One thing that can happen to the report state.
pub ghost enum Event {
    BeginTick(Set<ItemModel>),
    Success,
    Failure,
}

/// The state after one event.
pub open spec fn apply_event(s: StateModel, e: Event) -> StateModel {
    match e {
        Event::BeginTick(curr) => step_begin_tick(s, curr),
        Event::Success => step_success(s),
        Event::Failure => step_failure(s),
    }
}

/// The state after a run of events, oldest first.
pub open spec fn apply_events(s: StateModel, es: Seq<Event>) -> StateModel
    decreases es.len(),
{
    if es.len() == 0 {
        s
    } else {
        apply_events(apply_event(s, es[0]), es.skip(1))
    }
}

/// Once a report has been acknowledged, the first-report flag is
/// false, and it stays false across later tick starts and later
/// successes, until a failure occurs.
pub proof fn lemma_first_stays_false(s: StateModel, curr: Set<ItemModel>)
    ensures
        !step_success(s).is_first,
        !s.is_first ==> !step_begin_tick(s, curr).is_first,
{
}

/// The same over whole histories: from a state whose flag is already
/// false, any run of tick starts and successes — with no failure among
/// them — leaves the flag false.
pub proof fn lemma_first_false_until_failure(s: StateModel, es: Seq<Event>)
    requires
        !s.is_first,
        forall|i: int| 0 <= i < es.len() ==> !(#[trigger] es[i] matches Event::Failure),
    ensures
        !apply_events(s, es).is_first,
    decreases es.len(),
{
    if es.len() > 0 {
        let next = apply_event(s, es[0]);
        assert(!(es[0] matches Event::Failure));
        assert(!next.is_first);
        assert(forall|i: int|
            0 <= i < es.skip(1).len() ==> !(#[trigger] es.skip(1)[i] matches Event::Failure));
        lemma_first_false_until_failure(next, es.skip(1));
    }
}

/// After any report failure the state is initial again: the flag is
/// set, the last-seen snapshot is empty, and the next tick's diff is
/// computed against an empty baseline, so every entry then present
/// appears as added and none as removed.
pub proof fn lemma_failure_resyncs(s: StateModel, curr: Set<ItemModel>)
    ensures
        step_failure(s) == initial_state(),
        step_failure(s).is_first,
        diff_added(step_failure(s).files, curr) == curr,
        diff_removed(step_failure(s).files, curr) == Set::<ItemModel>::empty(),
{
    lemma_diff_empty(curr);
}

} // verus!
