//! The errors of decoding and of logging.

use vstd::prelude::*;

verus! {

/// Why a buffer could not be decoded. A decoding error fails the message
/// that is being read and nothing else.
#[derive(Clone, Copy, Debug, PartialEq, Eq, Structural)]
pub enum DecodeError {
    /// The buffer ends before the value does.
    Truncated,
    /// A variable-length integer runs over ten bytes, or its value does not
    /// fit the integer type that is read.
    InvalidVarint,
    /// A length prefix announces more bytes than the buffer still holds.
    LengthExceedsBuffer,
    /// A field header carries a wire-type code that no wire type has, or a
    /// tag above sixteen bits.
    InvalidHeader,
    /// A log entry carries a kind code that no kind of entry has.
    InvalidKind,
}

/// Why a schema refused a declaration.
#[derive(Clone, Copy, Debug, PartialEq, Eq, Structural)]
pub enum SchemaError {
    /// The tag was declared before, with the other wire type. The wire
    /// type of a tag never changes.
    WireTypeChanged,
}

/// Why an entry could not be written to the sink.
#[derive(Clone, Copy, Debug, PartialEq, Eq, Structural)]
pub enum LogIoError {
    /// The sink has no room left for the entry. Nothing of it was written.
    SinkFull,
}

} // verus!
