//! Error types surfaced by the codec.
use crate::term::TermKind;
use vstd::prelude::*;

verus! {

/// Decoding errors.  Every failure names the byte or value that caused it;
/// the codec never recovers on its own.
#[derive(Debug)]
pub enum DecodeError {
    /// A tag byte whose (kind, extended subtag) combination is not defined.
    UnknownTermTag { tag: u8 },
    /// The tag was valid but the term kind is not accepted at this position.
    UnexpectedTerm { expected: Vec<TermKind>, actual: TermKind },
    /// An allocation list item kind outside words / floats / funs.
    UnknownAllocationListItemTag { tag: usize },
    /// The opcode byte has no schema entry.
    UnknownOpcode { opcode: u8 },
    /// A character decoded to a value that is not a Unicode scalar.
    InvalidUnicodeCodepoint { value: u32 },
    /// A non-negative index required machine-word range but the stream
    /// specified a larger integer width, or a negative value.
    TooLargeUsizeValue { byte_size: usize },
    /// The buffer ended inside an instruction or operand.
    IoError,
}

/// Encoding errors.  Encoding into an owned buffer cannot fail, but the
/// result type is kept so that callers writing to fallible sinks can share
/// the signature.
#[derive(Debug)]
pub enum EncodeError {
    IoError,
}

/// Mathematical mirror of [`DecodeError`], used by the wire-format
/// specification functions.
pub enum DecodeErrorV {
    UnknownTermTag { tag: u8 },
    UnexpectedTerm { expected: Seq<TermKind>, actual: TermKind },
    UnknownAllocationListItemTag { tag: int },
    UnknownOpcode { opcode: u8 },
    InvalidUnicodeCodepoint { value: u32 },
    TooLargeUsizeValue { byte_size: int },
    IoError,
}

impl View for DecodeError {
    type V = DecodeErrorV;

    open spec fn view(&self) -> DecodeErrorV {
        match self {
            DecodeError::UnknownTermTag { tag } => DecodeErrorV::UnknownTermTag { tag: *tag },
            DecodeError::UnexpectedTerm { expected, actual } => DecodeErrorV::UnexpectedTerm {
                expected: expected@,
                actual: *actual,
            },
            DecodeError::UnknownAllocationListItemTag { tag } => {
                DecodeErrorV::UnknownAllocationListItemTag { tag: *tag as int }
            },
            DecodeError::UnknownOpcode { opcode } => DecodeErrorV::UnknownOpcode {
                opcode: *opcode,
            },
            DecodeError::InvalidUnicodeCodepoint { value } => {
                DecodeErrorV::InvalidUnicodeCodepoint { value: *value }
            },
            DecodeError::TooLargeUsizeValue { byte_size } => DecodeErrorV::TooLargeUsizeValue {
                byte_size: *byte_size as int,
            },
            DecodeError::IoError => DecodeErrorV::IoError,
        }
    }
}

impl DecodeError {
    /// A short description of the error, for reporting by callers.
    pub fn message(&self) -> String {
        match self {
            DecodeError::UnknownTermTag { .. } => "unknown term tag".to_string(),
            DecodeError::UnexpectedTerm { .. } => "unexpected term".to_string(),
            DecodeError::UnknownAllocationListItemTag { .. } => {
                "unknown allocation list item tag".to_string()
            },
            DecodeError::UnknownOpcode { .. } => "unknown opcode".to_string(),
            DecodeError::InvalidUnicodeCodepoint { .. } => {
                "invalid Unicode codepoint".to_string()
            },
            DecodeError::TooLargeUsizeValue { .. } => "too large usize value".to_string(),
            DecodeError::IoError => "unexpected end of input".to_string(),
        }
    }
}

} // verus!
