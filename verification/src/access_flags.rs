//! Access flag words.
//!
//! Each context (class, field, method, inner class, parameter) has its own
//! set of defined bits.  A flag word is kept verbatim — undefined bits are
//! preserved — and the parser checks a word against its context's defined
//! mask only under the `reject` policy.

use vstd::prelude::*;

verus! {

// Class access flags (JVM §4.1).
pub const CLASS_ACC_PUBLIC: u16 = 0x0001;
pub const CLASS_ACC_FINAL: u16 = 0x0010;
pub const CLASS_ACC_SUPER: u16 = 0x0020;
pub const CLASS_ACC_INTERFACE: u16 = 0x0200;
pub const CLASS_ACC_ABSTRACT: u16 = 0x0400;
pub const CLASS_ACC_SYNTHETIC: u16 = 0x1000;
pub const CLASS_ACC_ENUM: u16 = 0x4000;

/// All bits defined for class access flags.
pub const CLASS_FLAGS_MASK: u16 = 0x0001 | 0x0010 | 0x0020 | 0x0200 | 0x0400 | 0x1000 | 0x4000;

// Inner class access flags (JVM §4.7.6).
pub const INNER_CLASS_ACC_PUBLIC: u16 = 0x0001;
pub const INNER_CLASS_ACC_PRIVATE: u16 = 0x0002;
pub const INNER_CLASS_ACC_PROTECTED: u16 = 0x0004;
pub const INNER_CLASS_ACC_STATIC: u16 = 0x0008;
pub const INNER_CLASS_ACC_FINAL: u16 = 0x0010;
pub const INNER_CLASS_ACC_INTERFACE: u16 = 0x0200;
pub const INNER_CLASS_ACC_ABSTRACT: u16 = 0x0400;
pub const INNER_CLASS_ACC_SYNTHETIC: u16 = 0x1000;
pub const INNER_CLASS_ACC_ANNOTATION: u16 = 0x2000;
pub const INNER_CLASS_ACC_ENUM: u16 = 0x4000;

/// All bits defined for inner class access flags.
pub const INNER_CLASS_FLAGS_MASK: u16 = 0x0001 | 0x0002 | 0x0004 | 0x0008 | 0x0010 | 0x0200
    | 0x0400 | 0x1000 | 0x2000 | 0x4000;

// Field access flags (JVM §4.5).
pub const FIELD_ACC_PUBLIC: u16 = 0x0001;
pub const FIELD_ACC_PRIVATE: u16 = 0x0002;
pub const FIELD_ACC_PROTECTED: u16 = 0x0004;
pub const FIELD_ACC_STATIC: u16 = 0x0008;
pub const FIELD_ACC_FINAL: u16 = 0x0010;
pub const FIELD_ACC_VOLATILE: u16 = 0x0040;
pub const FIELD_ACC_TRANSIENT: u16 = 0x0080;
pub const FIELD_ACC_SYNTHETIC: u16 = 0x1000;
pub const FIELD_ACC_ENUM: u16 = 0x4000;

/// All bits defined for field access flags.
pub const FIELD_FLAGS_MASK: u16 = 0x0001 | 0x0002 | 0x0004 | 0x0008 | 0x0010 | 0x0040 | 0x0080
    | 0x1000 | 0x4000;

// Method access flags (JVM §4.6).
pub const METHOD_ACC_PUBLIC: u16 = 0x0001;
pub const METHOD_ACC_PRIVATE: u16 = 0x0002;
pub const METHOD_ACC_PROTECTED: u16 = 0x0004;
pub const METHOD_ACC_STATIC: u16 = 0x0008;
pub const METHOD_ACC_FINAL: u16 = 0x0010;
pub const METHOD_ACC_SYNCHRONIZED: u16 = 0x0020;
pub const METHOD_ACC_BRIDGE: u16 = 0x0040;
pub const METHOD_ACC_VARARGS: u16 = 0x0080;
pub const METHOD_ACC_NATIVE: u16 = 0x0100;
pub const METHOD_ACC_ABSTRACT: u16 = 0x0400;
pub const METHOD_ACC_STRICT: u16 = 0x0800;
pub const METHOD_ACC_SYNTHETIC: u16 = 0x1000;

/// All bits defined for method access flags.
pub const METHOD_FLAGS_MASK: u16 = 0x0001 | 0x0002 | 0x0004 | 0x0008 | 0x0010 | 0x0020 | 0x0040
    | 0x0080 | 0x0100 | 0x0400 | 0x0800 | 0x1000;

// Method parameter access flags (JVM §4.7.24).
pub const PARAMETER_ACC_FINAL: u16 = 0x0010;
pub const PARAMETER_ACC_SYNTHETIC: u16 = 0x1000;
pub const PARAMETER_ACC_MANDATED: u16 = 0x8000;

/// All bits defined for method parameter access flags.
pub const PARAMETER_FLAGS_MASK: u16 = 0x0010 | 0x1000 | 0x8000;

/// A class access flag word.
#[derive(Debug, Clone, Copy, PartialEq, Eq, Structural)]
pub struct ClassAccessFlag {
    /// The flag word, kept verbatim.
    pub bits: u16,
}

impl ClassAccessFlag {
    /// Wraps a flag word; every bit, defined or not, is preserved.
    pub fn from_bits(bits: u16) -> (r: Self)
        ensures
            r.bits == bits,
    {
        ClassAccessFlag { bits }
    }

    /// True when every bit of `mask` is set in the word.
    pub fn contains(&self, mask: u16) -> (r: bool)
        ensures
            r == (self.bits & mask == mask),
    {
        self.bits & mask == mask
    }
}

/// An inner class access flag word.
#[derive(Debug, Clone, Copy, PartialEq, Eq, Structural)]
pub struct InnerClassAccessFlag {
    /// The flag word, kept verbatim.
    pub bits: u16,
}

impl InnerClassAccessFlag {
    /// Wraps a flag word; every bit, defined or not, is preserved.
    pub fn from_bits(bits: u16) -> (r: Self)
        ensures
            r.bits == bits,
    {
        InnerClassAccessFlag { bits }
    }

    /// True when every bit of `mask` is set in the word.
    pub fn contains(&self, mask: u16) -> (r: bool)
        ensures
            r == (self.bits & mask == mask),
    {
        self.bits & mask == mask
    }
}

/// A field access flag word.
#[derive(Debug, Clone, Copy, PartialEq, Eq, Structural)]
pub struct FieldAccessFlag {
    /// The flag word, kept verbatim.
    pub bits: u16,
}

impl FieldAccessFlag {
    /// Wraps a flag word; every bit, defined or not, is preserved.
    pub fn from_bits(bits: u16) -> (r: Self)
        ensures
            r.bits == bits,
    {
        FieldAccessFlag { bits }
    }

    /// True when every bit of `mask` is set in the word.
    pub fn contains(&self, mask: u16) -> (r: bool)
        ensures
            r == (self.bits & mask == mask),
    {
        self.bits & mask == mask
    }
}

/// A method access flag word.
#[derive(Debug, Clone, Copy, PartialEq, Eq, Structural)]
pub struct MethodAccessFlag {
    /// The flag word, kept verbatim.
    pub bits: u16,
}

impl MethodAccessFlag {
    /// Wraps a flag word; every bit, defined or not, is preserved.
    pub fn from_bits(bits: u16) -> (r: Self)
        ensures
            r.bits == bits,
    {
        MethodAccessFlag { bits }
    }

    /// True when every bit of `mask` is set in the word.
    pub fn contains(&self, mask: u16) -> (r: bool)
        ensures
            r == (self.bits & mask == mask),
    {
        self.bits & mask == mask
    }
}

/// A method parameter access flag word.
#[derive(Debug, Clone, Copy, PartialEq, Eq, Structural)]
pub struct ParameterAccessFlag {
    /// The flag word, kept verbatim.
    pub bits: u16,
}

impl ParameterAccessFlag {
    /// Wraps a flag word; every bit, defined or not, is preserved.
    pub fn from_bits(bits: u16) -> (r: Self)
        ensures
            r.bits == bits,
    {
        ParameterAccessFlag { bits }
    }

    /// True when every bit of `mask` is set in the word.
    pub fn contains(&self, mask: u16) -> (r: bool)
        ensures
            r == (self.bits & mask == mask),
    {
        self.bits & mask == mask
    }
}

} // verus!
