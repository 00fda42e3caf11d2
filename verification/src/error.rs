//! The failures that operations of the object bridge report.

use vstd::prelude::*;

verus! {

/// Why an operation of the object bridge did not succeed.
#[derive(Clone, Copy, Debug, PartialEq, Eq, Hash, Structural)]
pub enum Error {
    /// The class named in the operation is not registered.
    ClassNotFound,
    /// A null, stale or unknown handle stood where a live object was required.
    InvalidHandle,
    /// The payload was asked for under a tag that is not the object's.
    TypeMismatch,
    /// No class in the resolution chain implements the message.
    UnknownSelector,
    /// An object was released after its retain count had reached zero.
    DoubleRelease,
    /// Keys and values of a dictionary under construction differ in number.
    LengthMismatch,
}

impl Error {
    /// Whether policy treats the failure as recoverable: only an unknown
    /// selector is, every other failure is a contract violation.
    pub fn is_recoverable(&self) -> (r: bool)
        ensures
            r == (*self == Error::UnknownSelector),
    {
        match self {
            Error::UnknownSelector => true,
            _ => false,
        }
    }
}

} // verus!
