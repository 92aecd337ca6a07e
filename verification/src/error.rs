use vstd::prelude::*;

verus! {

/// Why decoding failed.
#[derive(Debug, Clone, Copy, PartialEq, Eq)]
pub enum DecodeError {
    /// The input ended before the value did.
    EOF,
    /// A discriminant byte named no variant.
    InvalidDiscriminant,
    /// A size did not fit in `usize`.
    InvalidUSize,
    /// A decoded value could not be converted.
    ConversionFailure,
    /// The bytes do not form a valid value.
    InvalidData,
    /// A conversion inside a codec failed.
    CodecFailure,
    /// A value had more bits than its type holds.
    BitOverflow,
}

/// Why encoding or measuring failed.
#[derive(Debug, Clone, Copy, PartialEq, Eq)]
pub enum EncodeError {
    /// The output buffer has too little room left.
    BufferTooSmall,
    /// A size did not fit in `usize`.
    InvalidUSize,
    /// A conversion inside a codec failed.
    CodecFailure,
    /// The value cannot be encoded by this codec.
    InvalidData,
    /// A value had more bits than its encoding holds.
    BitOverflow,
}

} // verus!
