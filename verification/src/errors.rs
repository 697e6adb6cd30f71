//! Error taxonomy of the wire codec.

use vstd::prelude::*;

verus! {

use vstd::string::StringSliceAdditionalSpecFns;

/// Why a byte buffer failed to decode into a protocol message.
#[derive(Clone, Copy, Debug, PartialEq, Eq, Structural)]
pub enum DecodeError {
    /// A fixed-size field section has the wrong byte count.
    LengthMismatch { actual: usize, expected: usize },
    /// The leading message discriminant byte has no registered variant.
    UnknownDiscriminant { id: u8 },
    /// A section ends before its declared or required length.
    Truncated,
    /// A variable-size section cannot be parsed.
    Malformed,
}

impl DecodeError {
    /// Short human-readable description of the error.
    pub open spec fn spec_describe(self) -> Seq<char> {
        match self {
            DecodeError::LengthMismatch { .. } => "fixed-width field has the wrong length"@,
            DecodeError::UnknownDiscriminant { .. } => "unknown message discriminant"@,
            DecodeError::Truncated => "message is truncated"@,
            DecodeError::Malformed => "message is malformed"@,
        }
    }

    /// The description as UTF-8 bytes, as it appears in a diagnostic response.
    pub open spec fn spec_describe_bytes(self) -> Seq<u8> {
        match self {
            DecodeError::LengthMismatch { .. } => "fixed-width field has the wrong length".spec_bytes(),
            DecodeError::UnknownDiscriminant { .. } => "unknown message discriminant".spec_bytes(),
            DecodeError::Truncated => "message is truncated".spec_bytes(),
            DecodeError::Malformed => "message is malformed".spec_bytes(),
        }
    }

    /// Short human-readable description of the error.
    pub fn describe(&self) -> (r: &'static str)
        ensures
            r@ == self.spec_describe(),
            r.spec_bytes() == self.spec_describe_bytes(),
    {
        match self {
            DecodeError::LengthMismatch { .. } => "fixed-width field has the wrong length",
            DecodeError::UnknownDiscriminant { .. } => "unknown message discriminant",
            DecodeError::Truncated => "message is truncated",
            DecodeError::Malformed => "message is malformed",
        }
    }
}

} // verus!
