//! The sweep itself: which entries of a directory a rule selects.

use crate::pattern::{pattern_compiles, pattern_is_valid, pattern_matches, regex_search};
use crate::rule::{ConfigDetail, RuleView};
use crate::timestamp::{age_days, elapsed_seconds, has_expired, Timestamp};
use vstd::prelude::*;

verus! {

/// One immediate entry of a directory, as the listing reports it.
#[derive(Debug)]
pub struct DirEntry {
    /// The entry's full path.
    pub path: String,
    /// Whether the entry is a directory.
    pub is_dir: bool,
    /// When the entry was last modified; `None` where its metadata could not
    /// be read.
    pub modified: Option<Timestamp>,
}

/// A [`DirEntry`] as a value.
pub struct EntryView {
    pub path: Seq<char>,
    pub is_dir: bool,
    pub modified: Option<Timestamp>,
}

impl View for DirEntry {
    type V = EntryView;

    open spec fn view(&self) -> EntryView {
        EntryView { path: self.path@, is_dir: self.is_dir, modified: self.modified }
    }
}

/// A file that a rule selected for deletion, pending confirmation.
#[derive(Debug)]
pub struct CandidateFile {
    pub path: String,
    pub last_modified: Timestamp,
}

/// A [`CandidateFile`] as a value.
pub struct CandidateView {
    pub path: Seq<char>,
    pub last_modified: Timestamp,
}

impl View for CandidateFile {
    type V = CandidateView;

    open spec fn view(&self) -> CandidateView {
        CandidateView { path: self.path@, last_modified: self.last_modified }
    }
}

impl Clone for CandidateFile {
    fn clone(&self) -> (copy: CandidateFile)
        ensures
            copy@ == self@,
    {
        CandidateFile { path: self.path.clone(), last_modified: self.last_modified }
    }
}

/// Why a rule could not be evaluated at all.
#[derive(Clone, Copy, Debug, PartialEq, Eq, Structural)]
pub enum ScanError {
    /// The rule's directory does not exist or cannot be listed.
    DirectoryNotFound,
    /// The rule's expression cannot be compiled into a matcher.
    InvalidPattern,
}

/// The rule selects the entry at `now`: it is not a directory, its
/// modification time is known and at least `rule.day` whole days back, and
/// its path matches the rule's expression.
pub open spec fn is_candidate(rule: RuleView, now: Timestamp, entry: EntryView) -> bool {
    &&& !entry.is_dir
    &&& entry.modified matches Some(modified)
    &&& age_days(now, modified) >= rule.day
    &&& pattern_matches(rule.regex, entry.path)
}

/// The candidate that stands for a selected entry.
pub open spec fn candidate_of(entry: EntryView) -> CandidateView {
    CandidateView {
        path: entry.path,
        last_modified: match entry.modified {
            Some(modified) => modified,
            None => Timestamp { secs: 0, nanos: 0 },
        },
    }
}

/// The candidates among `entries`, in the order of the listing.
pub open spec fn select(rule: RuleView, now: Timestamp, entries: Seq<EntryView>) -> Seq<
    CandidateView,
> {
    entries.filter(|entry: EntryView| is_candidate(rule, now, entry)).map_values(
        |entry: EntryView| candidate_of(entry),
    )
}

/// What evaluating `rule` at `now` yields, given the listing of its directory
/// (`None` where the directory could not be listed). A bad expression is
/// reported before a missing directory.
pub open spec fn scan_outcome(
    rule: RuleView,
    listing: Option<Seq<EntryView>>,
    now: Timestamp,
) -> Result<Seq<CandidateView>, ScanError> {
    if !pattern_compiles(rule.regex) {
        Err(ScanError::InvalidPattern)
    } else {
        match listing {
            None => Err(ScanError::DirectoryNotFound),
            Some(entries) => Ok(select(rule, now, entries)),
        }
    }
}

/// A listing's entries as values.
pub open spec fn entry_views(entries: Seq<DirEntry>) -> Seq<EntryView> {
    entries.map_values(|entry: DirEntry| entry@)
}

/// Candidates as values.
pub open spec fn candidate_views(candidates: Seq<CandidateFile>) -> Seq<CandidateView> {
    candidates.map_values(|candidate: CandidateFile| candidate@)
}

/// A listing that may be missing, as a value.
pub open spec fn listing_view(listing: Option<Vec<DirEntry>>) -> Option<Seq<EntryView>> {
    match listing {
        Some(entries) => Some(entry_views(entries@)),
        None => None,
    }
}

/// The outcome of an evaluation as a value.
pub open spec fn scan_view(outcome: Result<Vec<CandidateFile>, ScanError>) -> Result<
    Seq<CandidateView>,
    ScanError,
> {
    match outcome {
        Ok(candidates) => Ok(candidate_views(candidates@)),
        Err(error) => Err(error),
    }
}

/// Selecting from a listing with one more entry at its end.
proof fn lemma_select_push(
    rule: RuleView,
    now: Timestamp,
    entries: Seq<EntryView>,
    entry: EntryView,
)
    ensures
        select(rule, now, entries.push(entry)) == if is_candidate(rule, now, entry) {
            select(rule, now, entries).push(candidate_of(entry))
        } else {
            select(rule, now, entries)
        },
{
    reveal(Seq::filter);
    assert(entries.push(entry).drop_last() == entries);
}

/// Every candidate stands for an entry of the listing that the rule selects.
proof fn lemma_select_origin(rule: RuleView, now: Timestamp, entries: Seq<EntryView>, k: int)
    requires
        0 <= k < select(rule, now, entries).len(),
    ensures
        exists|j: int|
            0 <= j < entries.len() && is_candidate(rule, now, #[trigger] entries[j]) && select(
                rule,
                now,
                entries,
            )[k] == candidate_of(entries[j]),
{
    let due = |entry: EntryView| is_candidate(rule, now, entry);
    let kept = entries.filter(due);
    kept.lemma_filter_len(due);
    entries.lemma_filter_pred(due, k);
    entries.lemma_filter_contains_rev(due, kept[k]);
}

/// `candidate` stands for an entry of the listing that is not a directory.
pub open spec fn stands_for_a_file(entries: Seq<EntryView>, candidate: CandidateView) -> bool {
    exists|j: int|
        0 <= j < entries.len() && !(#[trigger] entries[j]).is_dir && candidate == candidate_of(
            entries[j],
        )
}

/// Directories are never selected, whatever the expression and the
/// threshold: no directory of the listing is a candidate, and each candidate
/// stands for an entry that is not a directory.
pub proof fn lemma_no_directory_is_selected(rule: RuleView, now: Timestamp, entries: Seq<EntryView>)
    ensures
        forall|j: int|
            0 <= j < entries.len() && (#[trigger] entries[j]).is_dir ==> !is_candidate(
                rule,
                now,
                entries[j],
            ),
        forall|k: int|
            0 <= k < select(rule, now, entries).len() ==> stands_for_a_file(
                entries,
                #[trigger] select(rule, now, entries)[k],
            ),
{
    assert forall|k: int| 0 <= k < select(rule, now, entries).len() implies stands_for_a_file(
        entries,
        #[trigger] select(rule, now, entries)[k],
    ) by {
        lemma_select_origin(rule, now, entries, k);
    }
}

/// In a listing whose paths are all different, no candidate carries the path
/// of a directory.
pub proof fn lemma_no_candidate_path_is_a_directory(
    rule: RuleView,
    now: Timestamp,
    entries: Seq<EntryView>,
    k: int,
    j: int,
)
    requires
        forall|a: int, b: int|
            0 <= a < b < entries.len() ==> (#[trigger] entries[a]).path != (
            #[trigger] entries[b]).path,
        0 <= k < select(rule, now, entries).len(),
        0 <= j < entries.len(),
        entries[j].is_dir,
    ensures
        select(rule, now, entries)[k].path != entries[j].path,
{
    lemma_select_origin(rule, now, entries, k);
    let origin = choose|origin: int|
        0 <= origin < entries.len() && is_candidate(rule, now, #[trigger] entries[origin])
            && select(rule, now, entries)[k] == candidate_of(entries[origin]);
    assert(origin != j);
}

/// `first` and `second` stand for two selected entries of the listing, the
/// one for `first` enumerated before the one for `second`.
pub open spec fn stand_in_listing_order(
    rule: RuleView,
    now: Timestamp,
    entries: Seq<EntryView>,
    first: CandidateView,
    second: CandidateView,
) -> bool {
    exists|a: int, b: int|
        {
            &&& 0 <= a < b < entries.len()
            &&& is_candidate(rule, now, #[trigger] entries[a])
            &&& is_candidate(rule, now, #[trigger] entries[b])
            &&& first == candidate_of(entries[a])
            &&& second == candidate_of(entries[b])
        }
}

/// The candidates keep the order of the listing: of two candidates, the
/// earlier one stands for the entry that was enumerated first.
pub proof fn lemma_select_keeps_order(
    rule: RuleView,
    now: Timestamp,
    entries: Seq<EntryView>,
    k1: int,
    k2: int,
)
    requires
        0 <= k1 < k2 < select(rule, now, entries).len(),
    ensures
        stand_in_listing_order(
            rule,
            now,
            entries,
            select(rule, now, entries)[k1],
            select(rule, now, entries)[k2],
        ),
    decreases entries.len(),
{
    if entries.len() == 0 {
        assert(select(rule, now, entries).len() == 0) by {
            reveal(Seq::filter);
        }
    } else {
        let init = entries.drop_last();
        let last = entries.last();
        assert(init.push(last) =~= entries);
        lemma_select_push(rule, now, init, last);
        let shorter = select(rule, now, init);
        if k2 < shorter.len() {
            lemma_select_keeps_order(rule, now, init, k1, k2);
            let (a, b) = choose|a: int, b: int|
                {
                    &&& 0 <= a < b < init.len()
                    &&& is_candidate(rule, now, #[trigger] init[a])
                    &&& is_candidate(rule, now, #[trigger] init[b])
                    &&& shorter[k1] == candidate_of(init[a])
                    &&& shorter[k2] == candidate_of(init[b])
                };
            assert(entries[a] == init[a] && entries[b] == init[b]);
        } else {
            lemma_select_origin(rule, now, init, k1);
            let a = choose|a: int|
                0 <= a < init.len() && is_candidate(rule, now, #[trigger] init[a]) && shorter[k1]
                    == candidate_of(init[a]);
            assert(entries[a] == init[a] && entries[entries.len() - 1] == last);
        }
    }
}

/// Nothing that the rule selects is left out: each entry of the listing that
/// it selects is among the candidates.
pub proof fn lemma_selected_entry_is_a_candidate(
    rule: RuleView,
    now: Timestamp,
    entries: Seq<EntryView>,
    j: int,
)
    requires
        0 <= j < entries.len(),
        is_candidate(rule, now, entries[j]),
    ensures
        select(rule, now, entries).contains(candidate_of(entries[j])),
{
    let due = |entry: EntryView| is_candidate(rule, now, entry);
    entries.lemma_filter_contains(due, j);
    let kept = entries.filter(due);
    let k = choose|k: int| 0 <= k < kept.len() && kept[k] == entries[j];
    assert(select(rule, now, entries)[k] == candidate_of(entries[j]));
}

/// The threshold is inclusive: a file that is exactly `rule.day` whole days
/// old, and whose path matches, is among the candidates.
pub proof fn lemma_boundary_age_is_selected(
    rule: RuleView,
    now: Timestamp,
    entries: Seq<EntryView>,
    j: int,
    modified: Timestamp,
)
    requires
        0 <= j < entries.len(),
        !entries[j].is_dir,
        entries[j].modified == Some(modified),
        age_days(now, modified) == rule.day,
        pattern_matches(rule.regex, entries[j].path),
    ensures
        is_candidate(rule, now, entries[j]),
        select(rule, now, entries).contains(candidate_of(entries[j])),
{
    lemma_selected_entry_is_a_candidate(rule, now, entries, j);
}

/// One second short of the threshold is too young: a file whose age in
/// seconds is one less than `rule.day` days' worth is not among the
/// candidates.
pub proof fn lemma_one_second_short_is_excluded(
    rule: RuleView,
    now: Timestamp,
    entries: Seq<EntryView>,
    j: int,
    modified: Timestamp,
)
    requires
        0 <= j < entries.len(),
        entries[j].modified == Some(modified),
        elapsed_seconds(now, modified) == rule.day * 86_400 - 1,
    ensures
        age_days(now, modified) == rule.day - 1,
        !is_candidate(rule, now, entries[j]),
        !select(rule, now, entries).contains(candidate_of(entries[j])),
{
    let day = rule.day as int;
    assert((day * 86_400 - 1) / 86_400 == day - 1) by (nonlinear_arith)
        requires
            day >= 0,
    ;
    let found = select(rule, now, entries);
    if found.contains(candidate_of(entries[j])) {
        let k = choose|k: int| 0 <= k < found.len() && found[k] == candidate_of(entries[j]);
        lemma_select_origin(rule, now, entries, k);
        let origin = choose|origin: int|
            0 <= origin < entries.len() && is_candidate(rule, now, #[trigger] entries[origin])
                && found[k] == candidate_of(entries[origin]);
        assert(entries[origin].modified == Some(modified));
    }
}

/// Evaluating twice against the same listing at the same instant gives the
/// same outcome: the same candidates in the same order, or the same error.
pub proof fn lemma_evaluate_is_repeatable(
    rule: RuleView,
    listing: Option<Seq<EntryView>>,
    now: Timestamp,
    first: Result<Vec<CandidateFile>, ScanError>,
    second: Result<Vec<CandidateFile>, ScanError>,
)
    requires
        scan_view(first) == scan_outcome(rule, listing, now),
        scan_view(second) == scan_outcome(rule, listing, now),
    ensures
        scan_view(first) == scan_view(second),
{
}

/// Whether `rule` selects `entry` at `now`. An expression that does not
/// compile selects nothing.
pub fn selects(rule: &ConfigDetail, now: Timestamp, entry: &DirEntry) -> (selected: bool)
    ensures
        selected == (pattern_compiles(rule@.regex) && is_candidate(rule@, now, entry@)),
{
    if entry.is_dir {
        return false;
    }
    match entry.modified {
        None => false,
        Some(modified) => {
            if !has_expired(now, modified, rule.day()) {
                return false;
            }
            match regex_search(rule.regex(), entry.path.as_str()) {
                Some(found) => found,
                None => false,
            }
        },
    }
}

/// Evaluates `rule` at `now` against the listing of its directory: `None`
/// where the directory does not exist or cannot be listed, else its immediate
/// entries in the order of enumeration.
pub fn evaluate(rule: &ConfigDetail, listing: &Option<Vec<DirEntry>>, now: Timestamp) -> (outcome:
    Result<Vec<CandidateFile>, ScanError>)
    ensures
        scan_view(outcome) == scan_outcome(rule@, listing_view(*listing), now),
{
    if !pattern_is_valid(rule.regex()) {
        return Err(ScanError::InvalidPattern);
    }
    match listing {
        None => Err(ScanError::DirectoryNotFound),
        Some(entries) => {
            let mut found: Vec<CandidateFile> = Vec::new();
            let mut i: usize = 0;
            assert(select(rule@, now, entry_views(entries@.take(0))) =~= Seq::<
                CandidateView,
            >::empty()) by {
                reveal(Seq::filter);
            }
            while i < entries.len()
                invariant
                    i <= entries.len(),
                    pattern_compiles(rule@.regex),
                    candidate_views(found@) == select(
                        rule@,
                        now,
                        entry_views(entries@.take(i as int)),
                    ),
                decreases entries.len() - i,
            {
                let entry = &entries[i];
                proof {
                    lemma_select_push(rule@, now, entry_views(entries@.take(i as int)), entry@);
                    assert(entry_views(entries@.take(i + 1)) =~= entry_views(
                        entries@.take(i as int),
                    ).push(entry@));
                }
                if let Some(modified) = entry.modified {
                    if selects(rule, now, entry) {
                        found.push(
                            CandidateFile { path: entry.path.clone(), last_modified: modified },
                        );
                    }
                }
                i += 1;
            }
            assert(entries@.take(i as int) =~= entries@);
            Ok(found)
        },
    }
}

} // verus!
