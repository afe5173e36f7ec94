//! Error types.

use vstd::prelude::*;

verus! {

/// Why a stream operation failed.
#[derive(Clone, Copy, Debug, PartialEq, Eq, Structural)]
pub enum ErrorKind {
    /// The operation was interrupted before it transferred anything and may
    /// be tried again.
    Interrupted,
    /// A seek was asked to go before the first byte or beyond the last
    /// position a stream can address.
    InvalidInput,
    /// The stream ended before a buffer could be filled.
    UnexpectedEof,
    /// The stream accepted no byte of a buffer that still had bytes to write.
    WriteZero,
    /// Any other failure of the wrapped stream.
    Other,
}

/// A failed stream operation.
#[derive(Clone, Copy, Debug, PartialEq, Eq, Structural)]
pub struct IoError {
    pub kind: ErrorKind,
}

impl IoError {
    /// An error of the given kind.
    pub fn new(kind: ErrorKind) -> (e: IoError)
        ensures
            e.kind == kind,
    {
        IoError { kind }
    }

    /// The kind of this error.
    pub fn kind(&self) -> (kind: ErrorKind)
        ensures
            kind == self.kind,
    {
        self.kind
    }

    /// What the error says.
    pub open spec fn text(&self) -> Seq<char> {
        match self.kind {
            ErrorKind::Interrupted => "operation interrupted"@,
            ErrorKind::InvalidInput => "invalid seek to a negative or overflowing position"@,
            ErrorKind::UnexpectedEof => "failed to fill whole buffer"@,
            ErrorKind::WriteZero => "failed to write whole buffer"@,
            ErrorKind::Other => "other error"@,
        }
    }

    /// What the error says.
    pub fn description(&self) -> (text: &'static str)
        ensures
            text@ == self.text(),
    {
        match self.kind {
            ErrorKind::Interrupted => "operation interrupted",
            ErrorKind::InvalidInput => "invalid seek to a negative or overflowing position",
            ErrorKind::UnexpectedEof => "failed to fill whole buffer",
            ErrorKind::WriteZero => "failed to write whole buffer",
            ErrorKind::Other => "other error",
        }
    }
}

/// Errors that may occur when working with Redshirt-encoded data.
#[derive(Clone, Copy, Debug, PartialEq, Eq, Structural)]
pub enum Error {
    /// An I/O error occurred.
    Io(IoError),
    /// The Redshirt 1/Redshirt 2 header contains invalid data.
    BadHeader,
    /// The checksum in the Redshirt 2 header does not match the checksum of
    /// the encoded data.
    BadChecksum,
}

impl Error {
    /// What the error says.
    pub open spec fn text(&self) -> Seq<char> {
        match self {
            Error::Io(inner) => inner.text(),
            Error::BadHeader => "bad header"@,
            Error::BadChecksum => "bad checksum"@,
        }
    }

    /// What the error says: for an I/O error what that error says, else
    /// which part of the header is wrong.
    pub fn to_string(&self) -> (text: String)
        ensures
            text@ == self.text(),
    {
        match self {
            Error::Io(inner) => inner.description().to_owned(),
            Error::BadHeader => "bad header".to_owned(),
            Error::BadChecksum => "bad checksum".to_owned(),
        }
    }

    /// The I/O error behind this error, if there is one.
    pub fn source(&self) -> (inner: Option<IoError>)
        ensures
            inner == match self {
                Error::Io(e) => Some(*e),
                _ => None,
            },
    {
        match self {
            Error::Io(inner) => Some(*inner),
            _ => None,
        }
    }
}

} // verus!
