//! Run one operation across many tagged directories, bounded in concurrency,
//! and render the per-directory outcomes.
#![allow(unused_imports)]

use vstd::prelude::*;

/// Text building blocks: decimal rendering, padding, comparison.
pub mod text;
/// Paths compared and split by components.
pub mod paths;
/// The tag table and the selection of directories.
pub mod dirs;
/// Command-line options, as plain values.
pub mod options;
/// Tag actions on the mapping.
pub mod tag;
/// Terminal styles and the table of named styles.
pub mod styling;
/// Presenters: what is written for each message.
pub mod renderers;
/// The compact version-control status of a directory.
pub mod status;
/// Fast-forwarding a directory's branch to its upstream.
pub mod merge;
/// Running an external command in a directory.
pub mod exec;
/// Bounded scheduling of the per-directory tasks.
pub mod dispatch;
/// The operation and presenter that the options select.
pub mod factory;

verus! {

/// What one directory's operation produced.
#[derive(Debug, Clone, PartialEq)]
pub struct CommandOutput {
    pub output: String,
    pub error: String,
    pub dir: String,
}

/// Intermediate progress of one directory's operation.
#[derive(Debug, Clone, PartialEq)]
pub struct CommandProgress {
    pub progress: u32,
    pub out_of: u32,
    pub message: String,
    pub dir: String,
}

/// Why one directory's operation failed.
#[derive(Debug, Clone, PartialEq)]
pub enum OperationError {
    /// The repository is missing or could not be read or changed; holds
    /// the directory and the cause.
    Repository(String, String),
    /// The process could not run, or its output was not text; holds the
    /// directory and the cause.
    Execution(String, String),
    /// No command was given; holds the directory.
    MissingCommand(String),
}

/// The text of a failure in directory `d` caused by `m`.
pub open spec fn failure_text(d: Seq<char>, m: Seq<char>) -> Seq<char> {
    "Processing failed for directory: "@ + d + ": "@ + m
}

/// The text of a failure in directory `d` caused by `m`.
fn failure_message(d: &String, m: &String) -> (r: String)
    ensures
        r@ == failure_text(d@, m@),
{
    let mut r = String::from_str("Processing failed for directory: ");
    text::push_str(&mut r, d.as_str());
    text::push_str(&mut r, ": ");
    text::push_str(&mut r, m.as_str());
    r
}

/// The user-facing text of an error.
pub open spec fn error_text(e: OperationError) -> Seq<char> {
    match e {
        OperationError::Repository(d, m) => failure_text(d@, m@),
        OperationError::Execution(d, m) => failure_text(d@, m@),
        OperationError::MissingCommand(d) => "No command provided for dir: "@ + d@,
    }
}

impl OperationError {
    /// The user-facing text of this error.
    pub fn message(&self) -> (r: String)
        ensures
            r@ == error_text(*self),
    {
        match self {
            OperationError::Repository(d, m) => failure_message(d, m),
            OperationError::Execution(d, m) => failure_message(d, m),
            OperationError::MissingCommand(d) => {
                let mut r = String::from_str("No command provided for dir: ");
                text::push_str(&mut r, d.as_str());
                r
            },
        }
    }
}

/// A message from a directory's task to the presenter.
#[derive(Debug, PartialEq)]
pub enum CommandMessage {
    Increment(CommandOutput),
    Progress(CommandProgress),
    /// The last message of a directory.
    Final(Result<CommandOutput, OperationError>),
}

/// The outcome of a repository operation on `dir`: its text as output,
/// or its failure as a repository error.
pub open spec fn repository_outcome_spec(
    dir: Seq<char>,
    res: Result<String, String>,
    r: Result<CommandOutput, OperationError>,
) -> bool {
    match res {
        Ok(text) => r matches Ok(o) && o.output@ == text@ && o.error@.len() == 0 && o.dir@ == dir,
        Err(m) => r matches Err(OperationError::Repository(d, e)) && d@ == dir && e@ == m@,
    }
}

/// Turns the result of a repository operation on `dir` into its outcome.
pub fn repository_outcome(dir: String, res: Result<String, String>) -> (r: Result<CommandOutput, OperationError>)
    ensures
        repository_outcome_spec(dir@, res, r),
{
    match res {
        Ok(text) => Ok(CommandOutput { output: text, error: String::new(), dir }),
        Err(m) => Err(OperationError::Repository(dir, m)),
    }
}

/// Shows every message in full, for diagnostics.
#[derive(Debug, Clone, Copy, PartialEq, Default)]
pub struct DebugRenderer {}

} // verus!
