//! Error values of the I/O layer.
use vstd::prelude::*;

verus! {

/// The kinds of failure that the I/O layer tells apart.
#[derive(Clone, Copy, Debug, PartialEq, Eq, Structural)]
pub enum ErrorKind {
    /// No progress is possible without waiting for readiness.
    WouldBlock,
    /// A signal interrupted the operation; it may be retried at once.
    Interrupted,
    /// The transport accepted nothing on a call that had to make progress.
    WriteZero,
    /// The peer closed the stream while more bytes were expected.
    UnexpectedEof,
    /// Any other transport failure, passed on unchanged.
    Other,
}

/// A failure of an I/O operation: its kind and a message.
#[derive(Debug)]
pub struct Error {
    kind: ErrorKind,
    message: String,
}

/// The result type of the I/O layer.
pub type IoResult<T> = Result<T, Error>;

impl Error {
    /// The kind of this error, as seen by specifications.
    pub closed spec fn spec_kind(&self) -> ErrorKind {
        self.kind
    }

    /// The message of this error, as seen by specifications.
    pub closed spec fn spec_message(&self) -> Seq<char> {
        self.message@
    }

    /// Creates an error of the given kind with the given message.
    pub fn new(kind: ErrorKind, message: &str) -> (r: Error)
        ensures
            r.spec_kind() == kind,
            r.spec_message() == message@,
    {
        Error { kind, message: message.to_owned() }
    }

    /// Returns the kind of this error.
    #[verifier::when_used_as_spec(spec_kind)]
    pub fn kind(&self) -> (r: ErrorKind)
        ensures
            r == self.spec_kind(),
    {
        self.kind
    }

    /// Returns the message of this error.
    pub fn message(&self) -> (r: &str)
        ensures
            r@ == self.spec_message(),
    {
        self.message.as_str()
    }
}

} // verus!
