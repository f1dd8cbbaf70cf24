//! What can go wrong in a step of a job.

use vstd::prelude::*;
use vstd::string::*;
use crate::text::concat3;

verus! {

/// The classes of failure.
#[derive(Debug, Clone, Copy, PartialEq, Eq, Structural)]
pub enum ErrorKind {
    /// The remote service could not be reached.
    RemoteUnavailable,
    /// The remote service answered without the data asked for.
    MissingUpstreamData,
    /// The store holds no such job, or no chapters for it.
    RecordNotFound,
    /// Reading assets or writing the archive failed.
    AssemblyIoFailure,
    /// The store could not be read or written.
    StoreFailure,
}

impl ErrorKind {
    /// The words that name this class in a message.
    pub open spec fn label_text(self) -> Seq<char> {
        match self {
            ErrorKind::RemoteUnavailable => "remote unavailable"@,
            ErrorKind::MissingUpstreamData => "missing upstream data"@,
            ErrorKind::RecordNotFound => "record not found"@,
            ErrorKind::AssemblyIoFailure => "assembly I/O failure"@,
            ErrorKind::StoreFailure => "store failure"@,
        }
    }

    /// The words that name this class in a message.
    pub fn label(&self) -> (text: &'static str)
        ensures
            text@ == self.label_text(),
    {
        match self {
            ErrorKind::RemoteUnavailable => "remote unavailable",
            ErrorKind::MissingUpstreamData => "missing upstream data",
            ErrorKind::RecordNotFound => "record not found",
            ErrorKind::AssemblyIoFailure => "assembly I/O failure",
            ErrorKind::StoreFailure => "store failure",
        }
    }
}

/// A failure of a step: its class and what happened.
#[derive(Debug, PartialEq, Eq)]
pub struct StepError {
    pub kind: ErrorKind,
    pub detail: String,
}

/// A failure as a value: its class and the characters of its detail.
pub struct ErrorView {
    pub kind: ErrorKind,
    pub detail: Seq<char>,
}

impl ErrorView {
    /// The message of this failure: the class, a colon, the detail.
    pub open spec fn message(self) -> Seq<char> {
        self.kind.label_text() + ": "@ + self.detail
    }
}

impl View for StepError {
    type V = ErrorView;

    open spec fn view(&self) -> ErrorView {
        ErrorView { kind: self.kind, detail: self.detail@ }
    }
}

impl StepError {
    /// A failure of the given class.
    pub fn new(kind: ErrorKind, detail: &str) -> (e: StepError)
        ensures
            e@ == (ErrorView { kind, detail: detail@ }),
    {
        StepError { kind, detail: String::from_str(detail) }
    }

    /// The message of this failure, as it goes into the event log.
    pub fn describe(&self) -> (text: String)
        ensures
            text@ == self@.message(),
    {
        concat3(self.kind.label(), ": ", self.detail.as_str())
    }
}

} // verus!
