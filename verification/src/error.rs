//! The ways an operation of this library fails.

use vstd::prelude::*;

verus! {

/// Why an operation failed.
#[derive(Debug, PartialEq, Eq)]
pub enum Error {
    /// The process does not run inside a git repository.
    NotInRepository,
    /// The directory `path`, given as the repository, holds no git repository.
    NotARepository { path: String },
    /// A stored snapshot exists but could not be understood.
    CorruptState,
    /// No agent has the identifier that was given.
    AgentNotFound,
    /// Git ended with a failure; `stderr` is what it printed.
    VcsCommandFailed { stderr: String },
    /// The snapshot could not be written; `detail` says why.
    StorageFailed { detail: String },
    /// A step was taken that the operation in progress does not expect.
    OutOfTurn,
}

/// An `Error` as contracts see it.
pub enum ErrorView {
    NotInRepository,
    NotARepository { path: Seq<char> },
    CorruptState,
    AgentNotFound,
    VcsCommandFailed { stderr: Seq<char> },
    StorageFailed { detail: Seq<char> },
    OutOfTurn,
}

impl View for Error {
    type V = ErrorView;

    open spec fn view(&self) -> ErrorView {
        match self {
            Error::NotInRepository => ErrorView::NotInRepository,
            Error::NotARepository { path } => ErrorView::NotARepository { path: path@ },
            Error::CorruptState => ErrorView::CorruptState,
            Error::AgentNotFound => ErrorView::AgentNotFound,
            Error::VcsCommandFailed { stderr } => ErrorView::VcsCommandFailed { stderr: stderr@ },
            Error::StorageFailed { detail } => ErrorView::StorageFailed { detail: detail@ },
            Error::OutOfTurn => ErrorView::OutOfTurn,
        }
    }
}

/// The text of an error, as it is shown to a person.
pub open spec fn message_of(e: ErrorView) -> Seq<char> {
    match e {
        ErrorView::NotInRepository => "Not in a git repository"@,
        ErrorView::NotARepository { path } => "Not a git repository: "@ + path,
        ErrorView::CorruptState => "Failed to parse state file"@,
        ErrorView::AgentNotFound => "Agent not found"@,
        ErrorView::VcsCommandFailed { stderr } => "Git command failed: "@ + stderr,
        ErrorView::StorageFailed { detail } => "Failed to write state file: "@ + detail,
        ErrorView::OutOfTurn => "Operation out of turn"@,
    }
}

impl Error {
    /// The text of this error, as it is shown to a person.
    pub fn message(&self) -> (text: String)
        ensures
            text@ == message_of(self@),
    {
        match self {
            Error::NotInRepository => "Not in a git repository".to_owned(),
            Error::NotARepository { path } => {
                let mut text = "Not a git repository: ".to_owned();
                text.append(path.as_str());
                text
            },
            Error::CorruptState => "Failed to parse state file".to_owned(),
            Error::AgentNotFound => "Agent not found".to_owned(),
            Error::VcsCommandFailed { stderr } => {
                let mut text = "Git command failed: ".to_owned();
                text.append(stderr.as_str());
                text
            },
            Error::StorageFailed { detail } => {
                let mut text = "Failed to write state file: ".to_owned();
                text.append(detail.as_str());
                text
            },
            Error::OutOfTurn => "Operation out of turn".to_owned(),
        }
    }
}

} // verus!
