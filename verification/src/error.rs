//! Errors of the project domain.

use vstd::prelude::*;

use crate::text::{concat2, concat3, i64_to_decimal, int_decimal, owned};
use crate::types::{ProjectId, uuid_text};

verus! {

/// Errors that can occur in the project domain.
#[derive(Debug, Clone)]
pub enum CoreError {
    /// No project has this identifier.
    ProjectNotFound(ProjectId),
    /// A path was not found or is inaccessible.
    PathNotFound(String),
    /// A storage operation failed.
    Storage(String),
    /// A scan failed.
    Scan(String),
    /// A version-control operation failed.
    Git(String),
    /// A command exited with a nonzero status.
    CommandFailed { command_name: String, exit_code: i32 },
    /// A command was terminated without reporting an exit code.
    CommandTerminated { command_name: String },
    /// A remote API refused a request for its rate limit.
    RateLimitExceeded,
    /// An unexpected internal error.
    Internal(String),
}

/// The value of an error, its texts as sequences.
pub enum ErrorView {
    ProjectNotFound(u128),
    PathNotFound(Seq<char>),
    Storage(Seq<char>),
    Scan(Seq<char>),
    Git(Seq<char>),
    CommandFailed { command_name: Seq<char>, exit_code: i32 },
    CommandTerminated { command_name: Seq<char> },
    RateLimitExceeded,
    Internal(Seq<char>),
}

impl View for CoreError {
    type V = ErrorView;

    open spec fn view(&self) -> ErrorView {
        match self {
            CoreError::ProjectNotFound(id) => ErrorView::ProjectNotFound(id.0),
            CoreError::PathNotFound(p) => ErrorView::PathNotFound(p@),
            CoreError::Storage(m) => ErrorView::Storage(m@),
            CoreError::Scan(m) => ErrorView::Scan(m@),
            CoreError::Git(m) => ErrorView::Git(m@),
            CoreError::CommandFailed { command_name, exit_code } => ErrorView::CommandFailed {
                command_name: command_name@,
                exit_code: *exit_code,
            },
            CoreError::CommandTerminated { command_name } => ErrorView::CommandTerminated {
                command_name: command_name@,
            },
            CoreError::RateLimitExceeded => ErrorView::RateLimitExceeded,
            CoreError::Internal(m) => ErrorView::Internal(m@),
        }
    }
}

/// The value of a result whose error is a `CoreError`.
pub open spec fn result_view<T>(r: Result<T, CoreError>) -> Result<T, ErrorView> {
    match r {
        Ok(v) => Ok(v),
        Err(e) => Err(e@),
    }
}

impl CoreError {
    /// The text of an error (its `Display` text).
    pub open spec fn spec_message(&self) -> Seq<char> {
        match self {
            CoreError::ProjectNotFound(id) => "project not found: "@ + uuid_text(id.0),
            CoreError::PathNotFound(p) => "path not found: "@ + p@,
            CoreError::Storage(m) => "storage error: "@ + m@,
            CoreError::Scan(m) => "scan error: "@ + m@,
            CoreError::Git(m) => "git error: "@ + m@,
            CoreError::CommandFailed { command_name, exit_code } => "command '"@ + command_name@
                + "' failed with exit code "@ + int_decimal(*exit_code as int),
            CoreError::CommandTerminated { command_name } => "command '"@ + command_name@
                + "' was terminated without reporting an exit code"@,
            CoreError::RateLimitExceeded => "API rate limit exceeded"@,
            CoreError::Internal(m) => "internal error: "@ + m@,
        }
    }

    /// The text of an error.
    pub fn message(&self) -> (s: String)
        ensures
            s@ == self.spec_message(),
    {
        match self {
            CoreError::ProjectNotFound(id) => {
                let t = id.text();
                concat2("project not found: ", t.as_str())
            },
            CoreError::PathNotFound(p) => concat2("path not found: ", p.as_str()),
            CoreError::Storage(m) => concat2("storage error: ", m.as_str()),
            CoreError::Scan(m) => concat2("scan error: ", m.as_str()),
            CoreError::Git(m) => concat2("git error: ", m.as_str()),
            CoreError::CommandFailed { command_name, exit_code } => {
                let code = i64_to_decimal(*exit_code as i64);
                let head = concat3("command '", command_name.as_str(), "' failed with exit code ");
                concat2(head.as_str(), code.as_str())
            },
            CoreError::CommandTerminated { command_name } => concat3(
                "command '",
                command_name.as_str(),
                "' was terminated without reporting an exit code",
            ),
            CoreError::RateLimitExceeded => owned("API rate limit exceeded"),
            CoreError::Internal(m) => concat2("internal error: ", m.as_str()),
        }
    }
}

} // verus!
