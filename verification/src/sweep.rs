//! One rule from listing to report, as a machine that never touches the
//! outside world itself: it says what to do next, and is told what happened.

use crate::confirm::{
    confirm, is_consent, line_of, line_views, render, CandidateLine, LineView,
};
use crate::rule::{ConfigDetail, RuleView};
use crate::scan::{
    candidate_views, evaluate, listing_view, scan_outcome, CandidateFile, CandidateView, DirEntry,
    EntryView, ScanError,
};
use crate::timestamp::Timestamp;
use vstd::prelude::*;

verus! {

/// What became of one file that was to be removed.
#[derive(Debug)]
pub struct DeleteOutcome {
    pub path: String,
    /// `Ok` where the file was removed, else the reason it was not.
    pub result: Result<(), String>,
}

/// A [`DeleteOutcome`] as a value.
pub struct OutcomeView {
    pub path: Seq<char>,
    pub result: Result<(), Seq<char>>,
}

/// The result of a removal as a value.
pub open spec fn result_view(result: Result<(), String>) -> Result<(), Seq<char>> {
    match result {
        Ok(_) => Ok(()),
        Err(reason) => Err(reason@),
    }
}

impl View for DeleteOutcome {
    type V = OutcomeView;

    open spec fn view(&self) -> OutcomeView {
        OutcomeView { path: self.path@, result: result_view(self.result) }
    }
}

/// Outcomes as values.
pub open spec fn outcome_views(outcomes: Seq<DeleteOutcome>) -> Seq<OutcomeView> {
    outcomes.map_values(|outcome: DeleteOutcome| outcome@)
}

/// How the sweep of one rule ended.
#[derive(Debug)]
pub enum SweepReport {
    /// The rule could not be evaluated.
    Failed(ScanError),
    /// The rule selected nothing; nobody was asked.
    NoMatches,
    /// The operator did not consent; nothing was removed.
    Cancelled,
    /// The operator consented; one outcome per candidate, in order.
    Deleted(Vec<DeleteOutcome>),
    /// The sweep was told of something it had not asked for.
    Interrupted,
}

/// A [`SweepReport`] as a value.
pub enum ReportView {
    Failed(ScanError),
    NoMatches,
    Cancelled,
    Deleted(Seq<OutcomeView>),
    Interrupted,
}

impl View for SweepReport {
    type V = ReportView;

    open spec fn view(&self) -> ReportView {
        match *self {
            SweepReport::Failed(error) => ReportView::Failed(error),
            SweepReport::NoMatches => ReportView::NoMatches,
            SweepReport::Cancelled => ReportView::Cancelled,
            SweepReport::Deleted(outcomes) => ReportView::Deleted(outcome_views(outcomes@)),
            SweepReport::Interrupted => ReportView::Interrupted,
        }
    }
}

/// Where the sweep of one rule stands.
#[derive(Debug)]
pub enum SweepState {
    /// Waiting for the listing of the rule's directory.
    Listing { rule: ConfigDetail },
    /// The candidates were shown; waiting for the operator's answer.
    Confirming { candidates: Vec<CandidateFile> },
    /// The operator consented; waiting to hear what became of the candidate
    /// that follows those already logged.
    Deleting { candidates: Vec<CandidateFile>, outcomes: Vec<DeleteOutcome> },
    /// The report was handed out.
    Finished,
}

/// A [`SweepState`] as a value.
pub enum StateView {
    Listing { rule: RuleView },
    Confirming { candidates: Seq<CandidateView> },
    Deleting { candidates: Seq<CandidateView>, outcomes: Seq<OutcomeView> },
    Finished,
}

impl View for SweepState {
    type V = StateView;

    open spec fn view(&self) -> StateView {
        match *self {
            SweepState::Listing { rule } => StateView::Listing { rule: rule@ },
            SweepState::Confirming { candidates } => StateView::Confirming {
                candidates: candidate_views(candidates@),
            },
            SweepState::Deleting { candidates, outcomes } => StateView::Deleting {
                candidates: candidate_views(candidates@),
                outcomes: outcome_views(outcomes@),
            },
            SweepState::Finished => StateView::Finished,
        }
    }
}

/// What the outside world reports back.
#[derive(Debug)]
pub enum SweepEvent {
    /// The directory was listed at `now`; `None` where it does not exist or
    /// cannot be listed.
    Listed { listing: Option<Vec<DirEntry>>, now: Timestamp },
    /// The operator entered `line`.
    Answered { line: String },
    /// The removal that was asked for ended in `result`.
    Removed { result: Result<(), String> },
}

/// A [`SweepEvent`] as a value.
pub enum EventView {
    Listed { listing: Option<Seq<EntryView>>, now: Timestamp },
    Answered { line: Seq<char> },
    Removed { result: Result<(), Seq<char>> },
}

impl View for SweepEvent {
    type V = EventView;

    open spec fn view(&self) -> EventView {
        match *self {
            SweepEvent::Listed { listing, now } => EventView::Listed {
                listing: listing_view(listing),
                now,
            },
            SweepEvent::Answered { line } => EventView::Answered { line: line@ },
            SweepEvent::Removed { result } => EventView::Removed { result: result_view(result) },
        }
    }
}

/// What the sweep wants done next.
#[derive(Debug)]
pub enum SweepAction {
    /// List the immediate entries of `path` and read the clock.
    ListDirectory { path: String },
    /// Show `lines` to the operator and read one line of input.
    Ask { lines: Vec<CandidateLine> },
    /// Remove the file at `path`.
    Remove { path: String },
    /// Nothing more: the sweep ended as `report` says.
    Finish { report: SweepReport },
}

/// A [`SweepAction`] as a value.
pub enum ActionView {
    ListDirectory { path: Seq<char> },
    Ask { lines: Seq<LineView> },
    Remove { path: Seq<char> },
    Finish { report: ReportView },
}

impl View for SweepAction {
    type V = ActionView;

    open spec fn view(&self) -> ActionView {
        match *self {
            SweepAction::ListDirectory { path } => ActionView::ListDirectory { path: path@ },
            SweepAction::Ask { lines } => ActionView::Ask { lines: line_views(lines@) },
            SweepAction::Remove { path } => ActionView::Remove { path: path@ },
            SweepAction::Finish { report } => ActionView::Finish { report: report@ },
        }
    }
}

/// The sweep ends with `report`.
pub open spec fn finish(report: ReportView) -> (StateView, ActionView) {
    (StateView::Finished, ActionView::Finish { report })
}

/// The sweep's rules: where it goes from `state` when told `event`, and what
/// it wants done next.
///
/// A listing is evaluated; failure and an empty selection end the sweep at
/// once, anything else is put before the operator. Only consent starts the
/// removals, which then run through the candidates in order, each outcome
/// logged whether it is a success or not. An event that does not answer what
/// was asked ends the sweep.
pub open spec fn step(state: StateView, event: EventView) -> (StateView, ActionView) {
    match (state, event) {
        (StateView::Listing { rule }, EventView::Listed { listing, now }) => {
            match scan_outcome(rule, listing, now) {
                Err(error) => finish(ReportView::Failed(error)),
                Ok(candidates) => {
                    if candidates.len() == 0 {
                        finish(ReportView::NoMatches)
                    } else {
                        (
                            StateView::Confirming { candidates },
                            ActionView::Ask {
                                lines: candidates.map_values(
                                    |candidate: CandidateView| line_of(candidate),
                                ),
                            },
                        )
                    }
                },
            }
        },
        (StateView::Confirming { candidates }, EventView::Answered { line }) => {
            if candidates.len() > 0 && is_consent(line) {
                (
                    StateView::Deleting { candidates, outcomes: Seq::empty() },
                    ActionView::Remove { path: candidates[0].path },
                )
            } else {
                finish(ReportView::Cancelled)
            }
        },
        (StateView::Deleting { candidates, outcomes }, EventView::Removed { result }) => {
            if outcomes.len() < candidates.len() {
                let logged = outcomes.push(
                    OutcomeView { path: candidates[outcomes.len() as int].path, result },
                );
                if logged.len() < candidates.len() {
                    (
                        StateView::Deleting { candidates, outcomes: logged },
                        ActionView::Remove { path: candidates[logged.len() as int].path },
                    )
                } else {
                    finish(ReportView::Deleted(logged))
                }
            } else {
                finish(ReportView::Interrupted)
            }
        },
        _ => finish(ReportView::Interrupted),
    }
}

/// What holds of every state that a sweep passes through: the operator is
/// only asked about something, and while removals run each logged outcome
/// belongs to the candidate at its place, with at least one still to come.
pub open spec fn well_formed(state: StateView) -> bool {
    match state {
        StateView::Confirming { candidates } => candidates.len() > 0,
        StateView::Deleting { candidates, outcomes } => {
            &&& outcomes.len() < candidates.len()
            &&& forall|i: int|
                0 <= i < outcomes.len() ==> (#[trigger] outcomes[i]).path == candidates[i].path
        },
        _ => true,
    }
}

/// A step leads from a well-formed state to a well-formed state.
pub proof fn lemma_step_keeps_well_formed(state: StateView, event: EventView)
    requires
        well_formed(state),
    ensures
        well_formed(step(state, event).0),
{
}

/// The operator is asked only right after a listing, and never about an
/// empty selection: one line is shown for each candidate, and there is at
/// least one.
pub proof fn lemma_asks_only_about_candidates(state: StateView, event: EventView)
    requires
        step(state, event).1 is Ask,
    ensures
        state is Listing,
        event is Listed,
        step(state, event).0 is Confirming,
        step(state, event).1->Ask_lines.len() == step(state, event).0->Confirming_candidates.len(),
        step(state, event).1->Ask_lines.len() > 0,
{
}

/// Where the rule selects nothing, the sweep ends at once with the report
/// that nothing matched: nobody is asked and nothing is removed.
pub proof fn lemma_no_matches_ends_the_sweep(
    rule: RuleView,
    listing: Option<Seq<EntryView>>,
    now: Timestamp,
)
    requires
        scan_outcome(rule, listing, now) == Ok::<Seq<CandidateView>, ScanError>(Seq::empty()),
    ensures
        step(StateView::Listing { rule }, EventView::Listed { listing, now }) == finish(
            ReportView::NoMatches,
        ),
{
}

/// Any answer but the affirmative one cancels: the sweep ends, and no
/// removal is asked for.
pub proof fn lemma_decline_cancels(candidates: Seq<CandidateView>, line: Seq<char>)
    requires
        !is_consent(line),
    ensures
        step(StateView::Confirming { candidates }, EventView::Answered { line }) == finish(
            ReportView::Cancelled,
        ),
{
}

/// Confirmation comes before any removal: a step asks for a removal, or
/// enters the deleting state, only from the deleting state itself or on the
/// operator's consent to the candidates shown.
pub proof fn lemma_removal_needs_consent(state: StateView, event: EventView)
    requires
        step(state, event).1 is Remove || step(state, event).0 is Deleting,
    ensures
        state is Deleting || (state is Confirming && event is Answered && is_consent(
            event->Answered_line,
        )),
        step(state, event).1 is Remove,
        step(state, event).0 is Deleting,
{
}

/// A failed removal stops nothing: whatever became of one candidate, the
/// next one is asked for.
pub proof fn lemma_failure_does_not_stop_removals(
    candidates: Seq<CandidateView>,
    outcomes: Seq<OutcomeView>,
    result: Result<(), Seq<char>>,
)
    requires
        outcomes.len() + 1 < candidates.len(),
    ensures
        step(StateView::Deleting { candidates, outcomes }, EventView::Removed { result }).1 == (
        ActionView::Remove { path: candidates[outcomes.len() as int + 1].path }),
{
}

/// The report of a deletion accounts for every candidate: it holds one
/// outcome for each, in the candidates' order.
pub proof fn lemma_deleted_report_is_complete(state: StateView, event: EventView)
    requires
        well_formed(state),
        step(state, event).1 is Finish,
        step(state, event).1->Finish_report is Deleted,
    ensures
        state is Deleting,
        ({
            let log = step(state, event).1->Finish_report->Deleted_0;
            let candidates = state->Deleting_candidates;
            &&& log.len() == candidates.len()
            &&& forall|i: int| 0 <= i < log.len() ==> (#[trigger] log[i]).path == candidates[i].path
        }),
{
}

/// The sweep ran to its end: nothing matched, the operator declined, or the
/// removals were attempted. A removal that failed does not change that.
pub open spec fn is_completed(report: ReportView) -> bool {
    report is NoMatches || report is Cancelled || report is Deleted
}

/// The status to leave the process with after the sweeps that `reports`
/// tell of: 0 where every sweep ran to its end, else 1.
pub fn exit_code(reports: &Vec<SweepReport>) -> (code: u8)
    ensures
        code == 0 || code == 1,
        code == 0 <==> forall|i: int|
            0 <= i < reports@.len() ==> is_completed(#[trigger] reports@[i]@),
{
    let mut i: usize = 0;
    while i < reports.len()
        invariant
            i <= reports.len(),
            forall|k: int| 0 <= k < i ==> is_completed(#[trigger] reports@[k]@),
        decreases reports.len() - i,
    {
        match &reports[i] {
            SweepReport::NoMatches | SweepReport::Cancelled | SweepReport::Deleted(_) => {},
            SweepReport::Failed(_) | SweepReport::Interrupted => {
                assert(!is_completed(reports@[i as int]@));
                return 1;
            },
        }
        i += 1;
    }
    0
}

/// Starts the sweep of one rule: the first thing to do is to list its
/// directory.
pub fn clear_log(conf: ConfigDetail) -> (start: (SweepState, SweepAction))
    ensures
        start.0@ == (StateView::Listing { rule: conf@ }),
        start.1@ == (ActionView::ListDirectory { path: conf@.path }),
{
    let path = conf.path().to_owned();
    (SweepState::Listing { rule: conf }, SweepAction::ListDirectory { path })
}

/// Moves the sweep on by one event.
pub fn advance(state: SweepState, event: SweepEvent) -> (next: (SweepState, SweepAction))
    ensures
        (next.0@, next.1@) == step(state@, event@),
{
    match (state, event) {
        (SweepState::Listing { rule }, SweepEvent::Listed { listing, now }) => {
            match evaluate(&rule, &listing, now) {
                Err(error) => (
                    SweepState::Finished,
                    SweepAction::Finish { report: SweepReport::Failed(error) },
                ),
                Ok(candidates) => {
                    if candidates.len() == 0 {
                        (
                            SweepState::Finished,
                            SweepAction::Finish { report: SweepReport::NoMatches },
                        )
                    } else {
                        let lines = render(&candidates);
                        (SweepState::Confirming { candidates }, SweepAction::Ask { lines })
                    }
                },
            }
        },
        (SweepState::Confirming { candidates }, SweepEvent::Answered { line }) => {
            if confirm(&candidates, line.as_str()) {
                let path = candidates[0].path.clone();
                let outcomes: Vec<DeleteOutcome> = Vec::new();
                assert(outcome_views(outcomes@) =~= Seq::<OutcomeView>::empty());
                (SweepState::Deleting { candidates, outcomes }, SweepAction::Remove { path })
            } else {
                (SweepState::Finished, SweepAction::Finish { report: SweepReport::Cancelled })
            }
        },
        (SweepState::Deleting { candidates, outcomes }, SweepEvent::Removed { result }) => {
            let mut outcomes = outcomes;
            if outcomes.len() < candidates.len() {
                let ghost before = outcomes@;
                let outcome = DeleteOutcome {
                    path: candidates[outcomes.len()].path.clone(),
                    result,
                };
                outcomes.push(outcome);
                assert(outcome_views(outcomes@) =~= outcome_views(before).push(outcome@));
                if outcomes.len() < candidates.len() {
                    let path = candidates[outcomes.len()].path.clone();
                    (SweepState::Deleting { candidates, outcomes }, SweepAction::Remove { path })
                } else {
                    (
                        SweepState::Finished,
                        SweepAction::Finish { report: SweepReport::Deleted(outcomes) },
                    )
                }
            } else {
                (SweepState::Finished, SweepAction::Finish { report: SweepReport::Interrupted })
            }
        },
        _ => (SweepState::Finished, SweepAction::Finish { report: SweepReport::Interrupted }),
    }
}

} // verus!
