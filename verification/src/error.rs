//! The error surface of the decoder.
//!
//! Every failure aborts parsing; there is no partial result.  The spec-level
//! parser returns a [`SpecError`], and each executable function is proved to
//! return an [`ErrorType`] whose view is exactly that value.

use vstd::prelude::*;

verus! {

/// Why a parse failed.
#[derive(Debug, Clone, PartialEq, Eq)]
pub enum ErrorType {
    /// The magic word is present but is not `0xCAFEBABE`.
    BadMagic,
    /// A read ran past the end of the buffer.
    Truncated,
    /// Bytes remain after the top-level parse consumed the whole image.
    TrailingBytes,
    /// A constant pool tag byte is not defined by the JVM specification.
    UnknownConstantTag(u8),
    /// A method handle reference kind is outside 1..=9.
    UnknownReferenceKind(u8),
    /// An instruction byte is not a defined opcode.
    UnknownOpcode(u8),
    /// A constant pool entry is structurally invalid, such as a `Long` or
    /// `Double` in the final pool slot.
    MalformedPool,
    /// The instruction stream is misaligned: the end of the `Code` region
    /// falls inside an instruction, or a reserved operand byte is not zero.
    MalformedCode,
    /// An `attribute_name_index` does not point at a `Utf8` pool entry.
    InvalidNameIndex,
    /// An attribute name's byte slice is not valid UTF-8.
    InvalidUtf8,
    /// An attribute name is not recognized, under the `reject` policy.
    /// Carries the name's bytes.
    UnknownAttribute(Vec<u8>),
    /// Nested attributes exceed the configured depth ceiling.
    AttributeDepthExceeded,
    /// An access flag word carries bits outside the defined set, under the
    /// `reject` policy.  Carries the offending flag word.
    UnknownAccessBits(u16),
}

/// Spec-level mirror of [`ErrorType`], with the attribute name as a sequence.
pub enum SpecError {
    BadMagic,
    Truncated,
    TrailingBytes,
    UnknownConstantTag(u8),
    UnknownReferenceKind(u8),
    UnknownOpcode(u8),
    MalformedPool,
    MalformedCode,
    InvalidNameIndex,
    InvalidUtf8,
    UnknownAttribute(Seq<u8>),
    AttributeDepthExceeded,
    UnknownAccessBits(u16),
}

impl View for ErrorType {
    type V = SpecError;

    open spec fn view(&self) -> SpecError {
        match self {
            ErrorType::BadMagic => SpecError::BadMagic,
            ErrorType::Truncated => SpecError::Truncated,
            ErrorType::TrailingBytes => SpecError::TrailingBytes,
            ErrorType::UnknownConstantTag(t) => SpecError::UnknownConstantTag(*t),
            ErrorType::UnknownReferenceKind(k) => SpecError::UnknownReferenceKind(*k),
            ErrorType::UnknownOpcode(b) => SpecError::UnknownOpcode(*b),
            ErrorType::MalformedPool => SpecError::MalformedPool,
            ErrorType::MalformedCode => SpecError::MalformedCode,
            ErrorType::InvalidNameIndex => SpecError::InvalidNameIndex,
            ErrorType::InvalidUtf8 => SpecError::InvalidUtf8,
            ErrorType::UnknownAttribute(name) => SpecError::UnknownAttribute(name@),
            ErrorType::AttributeDepthExceeded => SpecError::AttributeDepthExceeded,
            ErrorType::UnknownAccessBits(bits) => SpecError::UnknownAccessBits(*bits),
        }
    }
}

} // verus!
