//! The shape of a `git-annex addurl` record with the file kept as plain text.
use vstd::prelude::*;

verus! {

/// A record from `git-annex addurl`: download progress, or the outcome.
#[derive(Clone, Debug, Eq, PartialEq)]
pub enum AddurlOutput {
    Progress {
        byte_progress: usize,
        total_size: Option<usize>,
        percent_progress: Option<String>,
        action: Action,
    },
    Completion {
        key: Option<String>,
        action: Action,
        success: bool,
        error_messages: Vec<String>,
        note: Option<String>,
    },
}

/// What an output record is about.
#[derive(Clone, Debug, Eq, PartialEq)]
pub struct Action {
    pub command: String,
    /// `None` for an in-progress download requested without an explicit
    /// download path.
    pub file: Option<String>,
    pub input: Vec<String>,
}

} // verus!
