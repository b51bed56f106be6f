//! The ways in which a request can fail.

use vstd::prelude::*;
use vstd::string::*;
use crate::store::{error_display, error_text};

verus! {

/// Why a request failed.
#[derive(Clone, Copy, Debug, PartialEq, Eq, Structural)]
pub enum ErrorKind {
    /// The path does not exist.
    PathNotFound,
    /// No repository encloses the path.
    NotARepository,
    /// The path lies outside the working tree of the repository found.
    PathOutsideRepository,
    /// Line attribution was asked for a directory.
    PathIsDirectory,
    /// Line attribution was asked for a file without recorded history.
    FileNotTracked,
    /// No commit in the history touches the path.
    NoHistory,
    /// The object store could not be read.
    ObjectStoreError,
    /// Options that exclude each other were given together.
    InvalidRequest,
    /// A file or directory of the working tree could not be read.
    FileUnreadable,
}

/// A failed request: its kind, and the line shown to the user.
#[derive(Debug)]
pub struct WerError {
    pub kind: ErrorKind,
    pub message: String,
}

impl WerError {
    /// An error of kind `kind` whose message is `before`, `subject` and
    /// `after` in a row.
    pub fn about(kind: ErrorKind, before: &str, subject: &str, after: &str) -> (error: WerError)
        ensures
            error.kind == kind,
            error.message@ == before@ + subject@ + after@,
    {
        let mut message = String::from_str(before);
        message.append(subject);
        message.append(after);
        WerError { kind, message }
    }

    /// An error of kind `kind` whose message is `before` followed by
    /// `subject`.
    pub fn with(kind: ErrorKind, before: &str, subject: &str) -> (error: WerError)
        ensures
            error.kind == kind,
            error.message@ == before@ + subject@,
    {
        let mut message = String::from_str(before);
        message.append(subject);
        WerError { kind, message }
    }

    /// A failure of the object store, with the text that git2 gives for it.
    pub fn from_store(error: &git2::Error) -> (failure: WerError)
        ensures
            failure.kind == ErrorKind::ObjectStoreError,
            failure.message@ == error_display(*error),
    {
        WerError { kind: ErrorKind::ObjectStoreError, message: error_text(error) }
    }

    /// The line shown to the user.
    pub fn to_string(&self) -> (text: String)
        ensures
            text@ == self.message@,
    {
        self.message.clone()
    }
}

} // verus!
