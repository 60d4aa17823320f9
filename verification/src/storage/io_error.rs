//! Failures of input and output, as plain values.

use vstd::prelude::*;

verus! {

/// The kinds of failure that the read path tells apart.
#[derive(Clone, Copy, Debug, PartialEq, Eq, Structural)]
pub enum IoErrorKind {
    /// The bytes are there but make no sense.
    InvalidData,
    /// The file ended before the last byte asked for.
    UnexpectedEof,
    /// Any other failure.
    Other,
}

/// A failed input or output operation.
#[derive(Debug)]
pub struct IoError {
    pub kind: IoErrorKind,
    pub message: String,
}

/// An [`IoError`] as a mathematical value.
pub struct IoFault {
    pub kind: IoErrorKind,
    pub message: Seq<char>,
}

impl View for IoError {
    type V = IoFault;

    open spec fn view(&self) -> IoFault {
        IoFault { kind: self.kind, message: self.message@ }
    }
}

impl Clone for IoError {
    fn clone(&self) -> (copy: IoError)
        ensures
            copy == *self,
    {
        IoError { kind: self.kind, message: self.message.clone() }
    }
}

impl IoError {
    /// A failure of the given kind, with a message.
    pub fn new(kind: IoErrorKind, message: &str) -> (error: IoError)
        ensures
            error@ == (IoFault { kind, message: message@ }),
    {
        IoError { kind, message: message.to_owned() }
    }
}

} // verus!
