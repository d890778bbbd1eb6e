//! Error values returned by the field accessors, the time codes and the packets.
use vstd::prelude::*;

verus! {

/// The class of a failure; callers branch on this, the description is for logs.
#[derive(Clone, Copy, Debug, PartialEq, Eq, Structural)]
pub enum ErrorKind {
    /// A bit or byte span reaches past the end of the buffer.
    RangeError,
    /// A requested field width lies outside the supported range.
    InvalidLength,
    /// A value does not fit into the width of its field.
    ValueOverflow,
    /// A byte is not one of the recognised CUC time code selectors.
    InvalidFormatCode,
    /// A calendar time with negative seconds or nanoseconds.
    NegativeTime,
    /// A value lies outside the domain that its encoding can represent.
    OutOfRange,
    /// A packet buffer is shorter than the primary header plus one byte.
    BufferTooSmall,
    /// The packet length field does not match the buffer size.
    InconsistentLength,
}

/// A failure: its kind and a human-readable description.
#[derive(Debug)]
pub struct Exception {
    pub kind: ErrorKind,
    pub description: String,
}

impl Exception {
    /// The description given when the failure was raised.
    pub fn description(&self) -> (r: &str)
        ensures
            r@ == self.description@,
    {
        self.description.as_str()
    }
}

/// Builds a failure of the given kind with a description for logging.
pub fn raise(kind: ErrorKind, description: &str) -> (r: Exception)
    ensures
        r.kind == kind,
        r.description@ == description@,
{
    Exception { kind, description: description.to_owned() }
}

} // verus!
