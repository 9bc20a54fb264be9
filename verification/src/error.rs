use vstd::prelude::*;

verus! {

/// Why a value could not be decoded.
#[derive(Debug, Clone, Copy, PartialEq, Eq, Structural)]
pub enum DecodeError {
    /// The value needs more bytes than the buffer still holds.
    EndOfInput,
    /// The tag byte belongs to no form that the reader handles.
    UnrecognizedTag,
    /// A character's code point is no Unicode scalar value.
    InvalidCodepoint,
    /// A type reference names no entry of the type table.
    UnresolvedTypeReference,
}

impl DecodeError {
    /// A short description of the error.
    pub fn message(&self) -> (r: &'static str)
        ensures
            r@ == match *self {
                DecodeError::EndOfInput => "unexpected end of input"@,
                DecodeError::UnrecognizedTag => "unrecognized tag"@,
                DecodeError::InvalidCodepoint => "invalid code point"@,
                DecodeError::UnresolvedTypeReference => "unresolved type reference"@,
            },
    {
        match self {
            DecodeError::EndOfInput => "unexpected end of input",
            DecodeError::UnrecognizedTag => "unrecognized tag",
            DecodeError::InvalidCodepoint => "invalid code point",
            DecodeError::UnresolvedTypeReference => "unresolved type reference",
        }
    }
}

} // verus!
