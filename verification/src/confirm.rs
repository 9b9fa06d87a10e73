//! Confirmation: nothing is removed unless the operator says so.

use crate::scan::{candidate_views, CandidateFile, CandidateView};
use crate::timestamp::{format_time, formatted_time, text_view};
use vstd::prelude::*;

verus! {

/// The one answer that lets a deletion proceed.
pub const AFFIRMATIVE: char = 'y';

/// The clock on which modification dates are shown: eight hours east of UTC.
pub const DISPLAY_OFFSET_SECONDS: i32 = 28_800;

/// The strftime pattern of the dates shown: year, month, day.
pub const DATE_FORMAT: &'static str = "%Y-%m-%d";

/// The characters with the Unicode property `White_Space`: what trimming a
/// line removes from its ends.
pub open spec fn is_whitespace(c: char) -> bool {
    let code = c as u32;
    ||| 0x09 <= code <= 0x0D
    ||| code == 0x20
    ||| code == 0x85
    ||| code == 0xA0
    ||| code == 0x1680
    ||| 0x2000 <= code <= 0x200A
    ||| code == 0x2028
    ||| code == 0x2029
    ||| code == 0x202F
    ||| code == 0x205F
    ||| code == 0x3000
}

/// `s` without its leading whitespace.
pub open spec fn trim_start(s: Seq<char>) -> Seq<char>
    decreases s.len(),
{
    if s.len() > 0 && is_whitespace(s.first()) {
        trim_start(s.drop_first())
    } else {
        s
    }
}

/// `s` without its trailing whitespace.
pub open spec fn trim_end(s: Seq<char>) -> Seq<char>
    decreases s.len(),
{
    if s.len() > 0 && is_whitespace(s.last()) {
        trim_end(s.drop_last())
    } else {
        s
    }
}

/// `s` without the whitespace around it.
pub open spec fn trimmed(s: Seq<char>) -> Seq<char> {
    trim_end(trim_start(s))
}

/// The operator's line, once trimmed, is exactly the affirmative answer.
pub open spec fn is_consent(line: Seq<char>) -> bool {
    trimmed(line) == seq![AFFIRMATIVE]
}

/// Whether `c` is whitespace.
pub fn char_is_whitespace(c: char) -> (white: bool)
    ensures
        white == is_whitespace(c),
{
    let code: u32 = c as u32;
    (0x09 <= code && code <= 0x0D) || code == 0x20 || code == 0x85 || code == 0xA0 || code
        == 0x1680 || (0x2000 <= code && code <= 0x200A) || code == 0x2028 || code == 0x2029
        || code == 0x202F || code == 0x205F || code == 0x3000
}

/// `line` is `token` with nothing but whitespace around it.
pub open spec fn is_padded_token(line: Seq<char>, token: char) -> bool {
    exists|at: int|
        {
            &&& 0 <= at < line.len()
            &&& #[trigger] line[at] == token
            &&& forall|i: int| 0 <= i < line.len() && i != at ==> is_whitespace(#[trigger] line[i])
        }
}

/// Where the text that `trim_start` keeps begins.
proof fn lemma_trim_start_shape(s: Seq<char>) -> (first: int)
    ensures
        0 <= first <= s.len(),
        forall|i: int| 0 <= i < first ==> is_whitespace(#[trigger] s[i]),
        first < s.len() ==> !is_whitespace(s[first]),
        trim_start(s) == s.subrange(first, s.len() as int),
    decreases s.len(),
{
    if s.len() > 0 && is_whitespace(s.first()) {
        let inner = lemma_trim_start_shape(s.drop_first());
        assert forall|i: int| 0 <= i < inner + 1 implies is_whitespace(#[trigger] s[i]) by {
            if i > 0 {
                assert(s[i] == s.drop_first()[i - 1]);
            }
        }
        inner + 1
    } else {
        0
    }
}

/// Where the text that `trim_end` keeps ends.
proof fn lemma_trim_end_shape(s: Seq<char>) -> (end: int)
    ensures
        0 <= end <= s.len(),
        forall|i: int| end <= i < s.len() ==> is_whitespace(#[trigger] s[i]),
        end > 0 ==> !is_whitespace(s[end - 1]),
        trim_end(s) == s.subrange(0, end),
    decreases s.len(),
{
    if s.len() > 0 && is_whitespace(s.last()) {
        let inner = lemma_trim_end_shape(s.drop_last());
        assert forall|i: int| inner <= i < s.len() implies is_whitespace(#[trigger] s[i]) by {
            if i < s.len() - 1 {
                assert(s[i] == s.drop_last()[i]);
            }
        }
        inner
    } else {
        s.len() as int
    }
}

/// Trimming leaves a single character that is no whitespace exactly when the
/// line holds that character once and otherwise only whitespace.
pub proof fn lemma_trimmed_to_token(line: Seq<char>, token: char)
    requires
        !is_whitespace(token),
    ensures
        (trimmed(line) == seq![token]) <==> is_padded_token(line, token),
{
    let first = lemma_trim_start_shape(line);
    let rest = line.subrange(first, line.len() as int);
    let end = lemma_trim_end_shape(rest);
    if is_padded_token(line, token) {
        let at = choose|at: int|
            {
                &&& 0 <= at < line.len()
                &&& #[trigger] line[at] == token
                &&& forall|i: int|
                    0 <= i < line.len() && i != at ==> is_whitespace(#[trigger] line[i])
            };
        // The token is where the leading whitespace ends, and all that
        // follows it is trailing whitespace.
        assert(first == at);
        assert(end == 1) by {
            if end == 0 {
                assert(is_whitespace(rest[0]));
            }
        }
        assert(rest.subrange(0, end) =~= seq![token]);
    }
    if trimmed(line) == seq![token] {
        // One character is kept: it stands where the leading whitespace
        // ends, and the trailing whitespace begins right after it.
        assert(rest.subrange(0, end).len() == 1);
        assert(rest.subrange(0, end)[0] == token);
        assert forall|i: int| 0 <= i < line.len() && i != first implies is_whitespace(
            #[trigger] line[i],
        ) by {
            if i > first {
                assert(rest[i - first] == line[i]);
            }
        }
    }
}

/// Whether the operator's line is the affirmative answer, whitespace around
/// it aside. The comparison is exact: no other spelling consents.
pub fn is_affirmative(line: &str) -> (yes: bool)
    ensures
        yes == is_consent(line@),
{
    // 0: only whitespace so far; 1: the answer, once, among whitespace;
    // 2: anything else.
    let mut state: u8 = 0;
    let ghost at: int = 0;
    let ghost other: int = 0;
    for c in it: line.chars()
        invariant
            it.seq() == line@,
            state <= 2,
            state == 0 ==> forall|i: int|
                0 <= i < it.index() ==> is_whitespace(#[trigger] line@[i]),
            state == 1 ==> {
                &&& 0 <= at < it.index()
                &&& line@[at] == AFFIRMATIVE
                &&& forall|i: int|
                    0 <= i < it.index() && i != at ==> is_whitespace(#[trigger] line@[i])
            },
            state == 2 ==> {
                &&& 0 <= at < it.index()
                &&& !is_whitespace(line@[at])
                &&& line@[at] != AFFIRMATIVE || (0 <= other < it.index() && other != at
                    && !is_whitespace(line@[other]))
            },
    {
        if !char_is_whitespace(c) {
            if state == 0 && c == AFFIRMATIVE {
                state = 1;
                proof {
                    at = it.index();
                }
            } else if state == 0 {
                state = 2;
                proof {
                    at = it.index();
                }
            } else {
                state = 2;
                proof {
                    other = it.index();
                }
            }
        }
    }
    proof {
        lemma_trimmed_to_token(line@, AFFIRMATIVE);
        if state != 1 && is_padded_token(line@, AFFIRMATIVE) {
            // The one character that is no whitespace would have to be both
            // the answer and what was seen instead of it.
            let found = choose|found: int|
                {
                    &&& 0 <= found < line@.len()
                    &&& #[trigger] line@[found] == AFFIRMATIVE
                    &&& forall|i: int|
                        0 <= i < line@.len() && i != found ==> is_whitespace(#[trigger] line@[i])
                };
            assert(state == 2 ==> at == found);
        }
    }
    state == 1
}

/// Whether deleting `candidates` may go ahead, given the line the operator
/// entered. With nothing to delete the answer is no, whatever the line holds.
pub fn confirm(candidates: &Vec<CandidateFile>, line: &str) -> (proceed: bool)
    ensures
        proceed == (candidates@.len() > 0 && is_consent(line@)),
{
    candidates.len() > 0 && is_affirmative(line)
}

/// One line of what the operator is shown before being asked.
#[derive(Debug)]
pub struct CandidateLine {
    pub path: String,
    /// The day of the last modification; `None` where it has no calendar
    /// date.
    pub modified_on: Option<String>,
}

/// A [`CandidateLine`] as a value.
pub struct LineView {
    pub path: Seq<char>,
    pub modified_on: Option<Seq<char>>,
}

impl View for CandidateLine {
    type V = LineView;

    open spec fn view(&self) -> LineView {
        LineView { path: self.path@, modified_on: text_view(self.modified_on) }
    }
}

/// Lines as values.
pub open spec fn line_views(lines: Seq<CandidateLine>) -> Seq<LineView> {
    lines.map_values(|line: CandidateLine| line@)
}

/// The line shown for one candidate.
pub open spec fn line_of(candidate: CandidateView) -> LineView {
    LineView {
        path: candidate.path,
        modified_on: formatted_time(
            candidate.last_modified.secs as int,
            candidate.last_modified.nanos as int,
            DISPLAY_OFFSET_SECONDS as int,
            DATE_FORMAT@,
        ),
    }
}

/// What the operator is shown: every candidate, in order, with the day it
/// was last modified.
pub fn render(candidates: &Vec<CandidateFile>) -> (lines: Vec<CandidateLine>)
    ensures
        line_views(lines@) == candidate_views(candidates@).map_values(
            |candidate: CandidateView| line_of(candidate),
        ),
{
    let mut lines: Vec<CandidateLine> = Vec::new();
    let mut i: usize = 0;
    while i < candidates.len()
        invariant
            i <= candidates.len(),
            lines@.len() == i,
            forall|k: int| 0 <= k < i ==> (#[trigger] lines@[k])@ == line_of(candidates@[k]@),
        decreases candidates.len() - i,
    {
        let candidate = &candidates[i];
        let modified_on = format_time(candidate.last_modified, DISPLAY_OFFSET_SECONDS, DATE_FORMAT);
        lines.push(CandidateLine { path: candidate.path.clone(), modified_on });
        i += 1;
    }
    lines
}

} // verus!
