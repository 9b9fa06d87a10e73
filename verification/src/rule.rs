//! Retention rules.

use vstd::prelude::*;

verus! {

/// What a retention rule says: which directory it sweeps, which paths it
/// applies to, and from which age in whole days a file is due.
pub struct RuleView {
    pub path: Seq<char>,
    pub regex: Seq<char>,
    pub day: nat,
}

/// One retention rule: files directly inside `path` whose full path matches
/// `regex` are due once they are `day` whole days old. Fixed once built.
#[derive(Debug)]
pub struct ConfigDetail {
    path: String,
    regex: String,
    day: u64,
}

impl View for ConfigDetail {
    type V = RuleView;

    closed spec fn view(&self) -> RuleView {
        RuleView { path: self.path@, regex: self.regex@, day: self.day as nat }
    }
}

impl ConfigDetail {
    pub fn new(path: String, regex: String, day: u64) -> (rule: ConfigDetail)
        ensures
            rule@ == (RuleView { path: path@, regex: regex@, day: day as nat }),
    {
        ConfigDetail { path, regex, day }
    }

    /// The directory the rule sweeps.
    pub fn path(&self) -> (path: &str)
        ensures
            path@ == self@.path,
    {
        self.path.as_str()
    }

    /// The expression a file's full path has to match.
    pub fn regex(&self) -> (regex: &str)
        ensures
            regex@ == self@.regex,
    {
        self.regex.as_str()
    }

    /// The age in whole days from which a file is due.
    pub fn day(&self) -> (day: u64)
        ensures
            day == self@.day,
    {
        self.day
    }
}

impl Clone for ConfigDetail {
    fn clone(&self) -> (copy: ConfigDetail)
        ensures
            copy@ == self@,
    {
        ConfigDetail { path: self.path.clone(), regex: self.regex.clone(), day: self.day }
    }
}

} // verus!
