//! The error type shared by every fallible operation of the crate: a message
//! for a human reader and a kind that callers can match on.
use vstd::prelude::*;

verus! {

/// The kind of a failure, the part of an error that contracts speak of.
#[derive(Debug, Copy, Clone, PartialEq, Eq, PartialOrd, Ord, Hash)]
pub enum PromErrorKind {
    IncrementNegative,
    InvalidLabelName,
    InvalidMetricName,
    MissingComponent,
    BucketNotFound,
    DuplicatedCollector,
    FormattingError,
}

/// An error of this crate: a human-readable message and a machine-readable kind.
#[derive(Debug, Clone, PartialEq, Eq)]
pub struct PromError {
    message: String,
    kind: PromErrorKind,
}

impl PromError {
    pub closed spec fn message_spec(&self) -> Seq<char> {
        self.message@
    }

    pub closed spec fn kind_spec(&self) -> PromErrorKind {
        self.kind
    }

    /// The message and kind a caller handed in are what the error holds.
    pub fn new(message: String, kind: PromErrorKind) -> (r: Self)
        ensures
            r.message_spec() == message@,
            r.kind_spec() == kind,
    {
        PromError { message, kind }
    }

    pub fn message(&self) -> (r: &str)
        ensures
            r@ == self.message_spec(),
    {
        self.message.as_str()
    }

    pub fn kind(&self) -> (r: PromErrorKind)
        ensures
            r == self.kind_spec(),
    {
        self.kind
    }
}

} // verus!
