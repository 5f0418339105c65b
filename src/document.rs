//! A checked Markdown file and the issues reported on it.
use vstd::prelude::*;

verus! {

/// The kind of analysis pass that reported an issue.
#[derive(Debug, Clone, Copy, PartialEq, Eq, Structural)]
pub enum IssueCategory {
    Formatting,
    LinkChecking,
    Grammar,
    Spelling,
    Review,
    Linting,
}

#[derive(Debug, Clone, Copy, PartialEq, Eq, Structural)]
pub enum IssueSeverity {
    Warning,
    Help,
    Note,
    Error,
}

/// One problem in a file as reported to the user: rows and columns are
/// 1-indexed, offsets 0-indexed.
#[derive(Debug, Clone, PartialEq, Eq)]
pub struct CheckIssue {
    pub category: IssueCategory,
    pub severity: IssueSeverity,
    pub file_path: String,
    pub row_num_start: usize,
    pub row_num_end: usize,
    pub col_num_start: usize,
    pub col_num_end: usize,
    pub offset_start: usize,
    pub offset_end: usize,
    pub message: String,
    pub fixes: Vec<String>,
}

/// A Markdown file under check: where it lives, what it holds, and the issues
/// found in it so far.
#[derive(Debug, Clone)]
pub struct MarkDownFile {
    pub path: String,
    pub content: String,
    pub issues: Vec<CheckIssue>,
}

} // verus!
