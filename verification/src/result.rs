//! [`FileResult`] and [`Status`]: the output types of a single file check.
use vstd::prelude::*;

verus! {

/// The outcome of checking a single file against its line limits.
#[derive(Debug, PartialEq, Eq, Structural, PartialOrd, Ord, Clone, Copy, Hash)]
pub enum Status {
    /// Line count is within all limits.
    Okay,
    /// Line count exceeds the warn threshold but not the error threshold.
    Warn,
    /// Line count exceeds the error threshold.
    Error,
}

/// The severity rank of a status: `Okay < Warn < Error`, as the derived order has it.
pub open spec fn severity(s: Status) -> int {
    match s {
        Status::Okay => 0,
        Status::Warn => 1,
        Status::Error => 2,
    }
}

/// The result of checking a single file.
#[derive(Debug, Clone, PartialEq, Eq)]
pub struct FileResult {
    /// Whether the file is within limits, at warn level, or at error level.
    pub status: Status,
    /// Number of lines in the file.
    pub lines: usize,
    /// The warn threshold that applied, if any.
    pub warn_limit: Option<usize>,
    /// The error threshold that applied, if any.
    pub error_limit: Option<usize>,
    /// Human-readable hint from the matched rule's message field for the
    /// status reached, if set.
    pub message: Option<String>,
}

/// The abstract content of a [`FileResult`], with its message as text.
pub ghost struct FileReport {
    pub status: Status,
    pub lines: usize,
    pub warn_limit: Option<usize>,
    pub error_limit: Option<usize>,
    pub message: Option<Seq<char>>,
}

/// The text of an optional string.
pub open spec fn text_opt(o: Option<String>) -> Option<Seq<char>> {
    match o {
        Some(s) => Some(s@),
        None => None,
    }
}

impl View for FileResult {
    type V = FileReport;

    open spec fn view(&self) -> FileReport {
        FileReport {
            status: self.status,
            lines: self.lines,
            warn_limit: self.warn_limit,
            error_limit: self.error_limit,
            message: text_opt(self.message),
        }
    }
}

/// A copy of an optional string, with the same text.
pub fn clone_text_opt(o: &Option<String>) -> (r: Option<String>)
    ensures
        text_opt(r) == text_opt(*o),
{
    match o {
        Some(s) => Some(s.clone()),
        None => None,
    }
}

} // verus!
