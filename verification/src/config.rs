//! Loading retention rules from a JSON document: an array of objects, each
//! with a directory, an expression and a number of days.

use crate::rule::{ConfigDetail, RuleView};
use serde_json::Value;
use vstd::prelude::*;

verus! {

/// The key under which a rule's directory stands.
pub const PATH_KEY: &'static str = "path";

/// The key under which a rule's expression stands.
pub const REGEX_KEY: &'static str = "regex";

/// The key under which a rule's threshold in days stands.
pub const DAY_KEY: &'static str = "day";

/// One of the three things a rule is made of.
#[derive(Clone, Copy, Debug, PartialEq, Eq, Structural)]
pub enum RuleField {
    Path,
    Regex,
    Day,
}

/// Why a document yields no rules.
#[derive(Clone, Copy, Debug, PartialEq, Eq, Structural)]
pub enum ConfigError {
    /// The text is not JSON.
    Malformed,
    /// The document is JSON, but not an array.
    NotAnArray,
    /// The array's item at `index` lacks `field`, or holds something of
    /// another type there.
    InvalidField { index: usize, field: RuleField },
}

/// What one item of the array holds under the three keys: a text where the
/// key leads to a string, a number where it leads to an integer that fits 64
/// bits unsigned, else nothing.
#[derive(Debug)]
pub struct RuleRecord {
    pub path: Option<String>,
    pub regex: Option<String>,
    pub day: Option<u64>,
}

/// A [`RuleRecord`] as a value.
pub struct RecordView {
    pub path: Option<Seq<char>>,
    pub regex: Option<Seq<char>>,
    pub day: Option<u64>,
}

/// A text field that may be missing, as a value.
pub open spec fn field_view(text: Option<String>) -> Option<Seq<char>> {
    match text {
        Some(text) => Some(text@),
        None => None,
    }
}

impl View for RuleRecord {
    type V = RecordView;

    open spec fn view(&self) -> RecordView {
        RecordView { path: field_view(self.path), regex: field_view(self.regex), day: self.day }
    }
}

/// Records as values.
pub open spec fn record_views(records: Seq<RuleRecord>) -> Seq<RecordView> {
    records.map_values(|record: RuleRecord| record@)
}

/// What reading a document gave, as a value.
pub open spec fn records_view(records: Result<Vec<RuleRecord>, ConfigError>) -> Result<
    Seq<RecordView>,
    ConfigError,
> {
    match records {
        Ok(records) => Ok(record_views(records@)),
        Err(error) => Err(error),
    }
}

/// Rules as values.
pub open spec fn rule_views(rules: Seq<ConfigDetail>) -> Seq<RuleView> {
    rules.map_values(|rule: ConfigDetail| rule@)
}

/// What loading gave, as a value.
pub open spec fn rules_view(rules: Result<Vec<ConfigDetail>, ConfigError>) -> Result<
    Seq<RuleView>,
    ConfigError,
> {
    match rules {
        Ok(rules) => Ok(rule_views(rules@)),
        Err(error) => Err(error),
    }
}

/// What `serde_json` reads from `text`: `Malformed` where `from_str` gives
/// no `Value`, `NotAnArray` where `Value::as_array` gives nothing for that
/// value, else for each item of the array, in order, what `as_str`
/// (`as_u64` for the last) gives for the item indexed by the three keys.
pub uninterp spec fn json_records(
    text: Seq<char>,
    path_key: Seq<char>,
    regex_key: Seq<char>,
    day_key: Seq<char>,
) -> Result<Seq<RecordView>, ConfigError>;

/// Parses `text` with `serde_json::from_str` and hands out the items of the
/// array it holds, each as what stands under the three keys.
///
/// Trusted: parsing and the accessors `Value::as_array`, indexing a `Value`
/// by a `&str`, `Value::as_str` and `Value::as_u64` depend on their
/// arguments alone and do not panic; indexing gives `Null` where the item is
/// no object or lacks the key, and the two accessors give `None` for a value
/// of another type. The contract says no more than that the result is what
/// these calls give, under the name `json_records`.
#[verifier::external_body]
fn read_records(text: &str, path_key: &str, regex_key: &str, day_key: &str) -> (records: Result<
    Vec<RuleRecord>,
    ConfigError,
>)
    ensures
        records_view(records) == json_records(text@, path_key@, regex_key@, day_key@),
{
    let document: Value = serde_json::from_str(text).map_err(|_| ConfigError::Malformed)?;
    let items = document.as_array().ok_or(ConfigError::NotAnArray)?;
    let mut records: Vec<RuleRecord> = Vec::new();
    for item in items {
        records.push(
            RuleRecord {
                path: item[path_key].as_str().map(str::to_owned),
                regex: item[regex_key].as_str().map(str::to_owned),
                day: item[day_key].as_u64(),
            },
        );
    }
    Ok(records)
}

/// The field that keeps `record` from being a rule: the first of directory,
/// expression and days that it lacks.
pub open spec fn missing_field(record: RecordView) -> Option<RuleField> {
    if record.path is None {
        Some(RuleField::Path)
    } else if record.regex is None {
        Some(RuleField::Regex)
    } else if record.day is None {
        Some(RuleField::Day)
    } else {
        None
    }
}

/// The rule that a complete record stands for.
pub open spec fn rule_of(record: RecordView) -> RuleView {
    RuleView {
        path: record.path.unwrap(),
        regex: record.regex.unwrap(),
        day: record.day.unwrap() as nat,
    }
}

/// `index` is the place of the first record that is no rule.
pub open spec fn is_first_invalid(records: Seq<RecordView>, index: int) -> bool {
    &&& 0 <= index < records.len()
    &&& missing_field(records[index]) is Some
    &&& forall|j: int| 0 <= j < index ==> missing_field(#[trigger] records[j]) is None
}

/// The rules that `records` stand for, in order; or, where some record is
/// no rule, the first such record and what it lacks.
pub open spec fn rules_outcome(records: Seq<RecordView>) -> Result<Seq<RuleView>, ConfigError> {
    if exists|index: int| is_first_invalid(records, index) {
        let index = choose|index: int| is_first_invalid(records, index);
        Err(
            ConfigError::InvalidField {
                index: index as usize,
                field: missing_field(records[index]).unwrap(),
            },
        )
    } else {
        Ok(records.map_values(|record: RecordView| rule_of(record)))
    }
}

/// What loading rules from `text` yields.
pub open spec fn load_outcome(text: Seq<char>) -> Result<Seq<RuleView>, ConfigError> {
    match json_records(text, PATH_KEY@, REGEX_KEY@, DAY_KEY@) {
        Ok(records) => rules_outcome(records),
        Err(error) => Err(error),
    }
}

/// Turns one record into a rule, or says which field it lacks.
pub fn rule_from_record(record: &RuleRecord) -> (rule: Result<ConfigDetail, RuleField>)
    ensures
        match rule {
            Ok(rule) => missing_field(record@) is None && rule@ == rule_of(record@),
            Err(field) => missing_field(record@) == Some(field),
        },
{
    match &record.path {
        None => Err(RuleField::Path),
        Some(path) => match &record.regex {
            None => Err(RuleField::Regex),
            Some(regex) => match record.day {
                None => Err(RuleField::Day),
                Some(day) => Ok(ConfigDetail::new(path.clone(), regex.clone(), day)),
            },
        },
    }
}

/// Turns records into rules, all or none: the first record that is no rule
/// is reported with its place and the field it lacks.
pub fn rules_from_records(records: &Vec<RuleRecord>) -> (rules: Result<
    Vec<ConfigDetail>,
    ConfigError,
>)
    ensures
        rules_view(rules) == rules_outcome(record_views(records@)),
{
    let ghost views = record_views(records@);
    let mut rules: Vec<ConfigDetail> = Vec::new();
    let mut i: usize = 0;
    while i < records.len()
        invariant
            i <= records.len(),
            views == record_views(records@),
            rules@.len() == i,
            forall|j: int| 0 <= j < i ==> missing_field(#[trigger] views[j]) is None,
            forall|j: int| 0 <= j < i ==> (#[trigger] rules@[j])@ == rule_of(views[j]),
        decreases records.len() - i,
    {
        match rule_from_record(&records[i]) {
            Ok(rule) => {
                rules.push(rule);
            },
            Err(field) => {
                proof {
                    // No record before this one is invalid, so this is the
                    // first, and there is only one first.
                    assert(is_first_invalid(views, i as int));
                    let index = choose|index: int| is_first_invalid(views, index);
                    assert(index == i);
                }
                return Err(ConfigError::InvalidField { index: i, field });
            },
        }
        i += 1;
    }
    proof {
        assert(!exists|index: int| is_first_invalid(views, index));
        assert(rule_views(rules@) =~= views.map_values(|record: RecordView| rule_of(record)));
    }
    Ok(rules)
}

/// Loads the rules that the JSON document `text` holds.
pub fn read_conf_from_json(text: &str) -> (rules: Result<Vec<ConfigDetail>, ConfigError>)
    ensures
        rules_view(rules) == load_outcome(text@),
{
    match read_records(text, PATH_KEY, REGEX_KEY, DAY_KEY) {
        Ok(records) => rules_from_records(&records),
        Err(error) => Err(error),
    }
}

} // verus!
