//! The error taxonomy of the decoder. Every failure is fatal to the current
//! decode and propagates to the caller; there is no partial result.

use vstd::prelude::*;

verus! {

/// Why a decode failed.
#[derive(Debug, Clone, Copy, PartialEq, Eq, Structural)]
pub enum DecodeError {
    /// Fewer bytes remain than a fixed-width or declared-length read requires.
    Truncated,
    /// The header magic does not match the format constant.
    BadMagic,
    /// A constant-pool tag byte is not one of the defined kinds.
    UnknownConstantTag(u8),
    /// A Utf8 pool entry's bytes are not well-formed modified UTF-8.
    InvalidText,
    /// An index refers to an absent constant-pool slot.
    DanglingIndex,
    /// An index resolves to a slot of the wrong variant for its context.
    WrongConstantKind,
    /// An element-value tag byte is not one of the defined kinds.
    InvalidAnnotationTag(u8),
    /// A structured attribute's decoded body size does not equal its
    /// declared length.
    AttributeLengthMismatch,
}

} // verus!
