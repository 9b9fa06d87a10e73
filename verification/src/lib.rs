//! Retention sweeps over log directories: which files a rule selects, what the
//! operator is asked, and what is removed once they agree.
//!
//! The library decides and never acts: listing a directory, reading the
//! clock, asking the operator and removing files are left to the caller, who
//! is told what to do next and reports back what happened.

pub mod config;
pub mod confirm;
pub mod pattern;
pub mod rule;
pub mod scan;
pub mod sweep;
pub mod timestamp;

pub use config::{read_conf_from_json, ConfigError, RuleField, RuleRecord};
pub use confirm::{confirm, CandidateLine};
pub use rule::ConfigDetail;
pub use scan::{evaluate, CandidateFile, DirEntry, ScanError};
pub use sweep::{
    advance, clear_log, exit_code, DeleteOutcome, SweepAction, SweepEvent, SweepReport, SweepState,
};
pub use timestamp::Timestamp;
