//! Error types for githubdw.

use vstd::prelude::*;
use crate::number::{push_signed, signed_decimal};
use crate::text::{copy, join2};

verus! {

/// Unified error enum for all githubdw operations. A variant that reports a
/// failure of another component holds that component's own message.
#[derive(Debug, Clone, PartialEq, Eq)]
pub enum Error {
    Database(String),
    Migration(String),
    Io(String),
    Json(String),
    GhUnavailable(String),
    GhCommand { exit_code: Option<i32>, stderr: String },
    GitHubApi(String),
    Config(String),
    InvalidArgument(String),
    NotFound(String),
    SyncInProgress(String),
    SchemaIntegrity(String),
    Llm(String),
}

/// The model of an error.
pub ghost enum Fault {
    Database(Seq<char>),
    Migration(Seq<char>),
    Io(Seq<char>),
    Json(Seq<char>),
    GhUnavailable(Seq<char>),
    GhCommand { exit_code: Option<i32>, stderr: Seq<char> },
    GitHubApi(Seq<char>),
    Config(Seq<char>),
    InvalidArgument(Seq<char>),
    NotFound(Seq<char>),
    SyncInProgress(Seq<char>),
    SchemaIntegrity(Seq<char>),
    Llm(Seq<char>),
}

impl View for Error {
    type V = Fault;

    open spec fn view(&self) -> Fault {
        match *self {
            Error::Database(detail) => Fault::Database(detail@),
            Error::Migration(detail) => Fault::Migration(detail@),
            Error::Io(detail) => Fault::Io(detail@),
            Error::Json(detail) => Fault::Json(detail@),
            Error::GhUnavailable(detail) => Fault::GhUnavailable(detail@),
            Error::GhCommand { exit_code, stderr } => Fault::GhCommand {
                exit_code,
                stderr: stderr@,
            },
            Error::GitHubApi(detail) => Fault::GitHubApi(detail@),
            Error::Config(detail) => Fault::Config(detail@),
            Error::InvalidArgument(detail) => Fault::InvalidArgument(detail@),
            Error::NotFound(detail) => Fault::NotFound(detail@),
            Error::SyncInProgress(detail) => Fault::SyncInProgress(detail@),
            Error::SchemaIntegrity(detail) => Fault::SchemaIntegrity(detail@),
            Error::Llm(detail) => Fault::Llm(detail@),
        }
    }
}

/// An exit code in its debug form: `Some(1)` or `None`.
pub open spec fn exit_code_text(exit_code: Option<i32>) -> Seq<char> {
    match exit_code {
        Some(code) => "Some("@ + signed_decimal(code as int) + ")"@,
        None => "None"@,
    }
}

/// The message that a fault is shown with.
pub open spec fn fault_text(fault: Fault) -> Seq<char> {
    match fault {
        Fault::Database(detail) => "database error: "@ + detail,
        Fault::Migration(detail) => "migration error: "@ + detail,
        Fault::Io(detail) => "I/O error: "@ + detail,
        Fault::Json(detail) => "JSON error: "@ + detail,
        Fault::GhUnavailable(detail) => "gh CLI is not available or not authenticated: "@ + detail,
        Fault::GhCommand { exit_code, stderr } => "gh command failed (exit "@ + exit_code_text(
            exit_code,
        ) + "): "@ + stderr,
        Fault::GitHubApi(detail) => "GitHub API error: "@ + detail,
        Fault::Config(detail) => "configuration error: "@ + detail,
        Fault::InvalidArgument(detail) => "invalid argument: "@ + detail,
        Fault::NotFound(detail) => "not found: "@ + detail,
        Fault::SyncInProgress(detail) => "sync already in progress for "@ + detail,
        Fault::SchemaIntegrity(detail) => "schema integrity error: "@ + detail,
        Fault::Llm(detail) => "LLM error: "@ + detail,
    }
}

/// The message that an error is shown with.
pub open spec fn error_text(error: Error) -> Seq<char> {
    fault_text(error@)
}

impl Error {
    /// The message of the error.
    pub fn message(&self) -> (text: String)
        ensures
            text@ == error_text(*self),
    {
        match self {
            Error::Database(detail) => join2("database error: ", detail),
            Error::Migration(detail) => join2("migration error: ", detail),
            Error::Io(detail) => join2("I/O error: ", detail),
            Error::Json(detail) => join2("JSON error: ", detail),
            Error::GhUnavailable(detail) => join2(
                "gh CLI is not available or not authenticated: ",
                detail,
            ),
            Error::GhCommand { exit_code, stderr } => {
                let mut code = copy("None");
                if let Some(value) = exit_code {
                    code = copy("Some(");
                    push_signed(&mut code, *value as i64);
                    code.append(")");
                }
                let mut text = join2("gh command failed (exit ", &code);
                text.append("): ");
                text.append(stderr);
                text
            },
            Error::GitHubApi(detail) => join2("GitHub API error: ", detail),
            Error::Config(detail) => join2("configuration error: ", detail),
            Error::InvalidArgument(detail) => join2("invalid argument: ", detail),
            Error::NotFound(detail) => join2("not found: ", detail),
            Error::SyncInProgress(detail) => join2("sync already in progress for ", detail),
            Error::SchemaIntegrity(detail) => join2("schema integrity error: ", detail),
            Error::Llm(detail) => join2("LLM error: ", detail),
        }
    }
}

/// The error is an invalid argument with the given message.
pub open spec fn is_invalid(error: Error, message: Seq<char>) -> bool {
    error matches Error::InvalidArgument(detail) && detail@ == message
}

/// The error is a GitHub API error with the given message.
pub open spec fn is_api(error: Error, message: Seq<char>) -> bool {
    error matches Error::GitHubApi(detail) && detail@ == message
}

/// The error is a configuration error with the given message.
pub open spec fn is_config(error: Error, message: Seq<char>) -> bool {
    error matches Error::Config(detail) && detail@ == message
}

} // verus!
