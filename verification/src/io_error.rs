//! Errors of input and output: what kind they are of, and what they say.

use vstd::prelude::*;
use vstd::string::*;

verus! {

/// The kind of an I/O error.
#[derive(Debug, Clone, Copy, PartialEq, Eq, Structural)]
pub enum IoErrorKind {
    /// An argument was not one that can be worked with.
    InvalidInput,
    /// Data was not what it should be.
    InvalidData,
    /// The operating system reported this error number.
    Os(i32),
    /// Anything else.
    Other,
}

/// An I/O error.
#[derive(Debug)]
pub struct IoError {
    pub kind: IoErrorKind,
    pub text: String,
}

/// What an `IoError` says.
pub struct IoErrorView {
    pub kind: IoErrorKind,
    pub text: Seq<char>,
}

impl View for IoError {
    type V = IoErrorView;

    open spec fn view(&self) -> IoErrorView {
        IoErrorView { kind: self.kind, text: self.text@ }
    }
}

/// An error of no particular kind.
pub open spec fn other_error(text: Seq<char>) -> IoErrorView {
    IoErrorView { kind: IoErrorKind::Other, text }
}

impl IoError {
    /// An error of the given kind.
    pub fn new(kind: IoErrorKind, text: String) -> (e: Self)
        ensures
            e@ == (IoErrorView { kind, text: text@ }),
    {
        IoError { kind, text }
    }

    /// An error of no particular kind.
    pub fn other(text: String) -> (e: Self)
        ensures
            e@ == other_error(text@),
    {
        IoError { kind: IoErrorKind::Other, text }
    }

    /// The kind of the error.
    pub fn kind(&self) -> (kind: IoErrorKind)
        ensures
            kind == self@.kind,
    {
        self.kind
    }
}

/// An error of no particular kind is of the kind for anything else, and keeps its text.
pub proof fn law_other_errors(text: Seq<char>)
    ensures
        other_error(text).kind == IoErrorKind::Other,
        other_error(text).text == text,
{
}

} // verus!
