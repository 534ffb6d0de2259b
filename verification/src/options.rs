//! Configuration of the parser's policies.

use vstd::prelude::*;

verus! {

/// What to do with an attribute whose name is not recognized.
#[derive(Debug, Clone, Copy, PartialEq, Eq, Structural)]
pub enum AttributePolicy {
    /// Advance past the attribute's body and drop it (forward compatible).
    Skip,
    /// Fail with `UnknownAttribute`.
    Reject,
}

/// What to do with access flag words carrying undefined bits.
#[derive(Debug, Clone, Copy, PartialEq, Eq, Structural)]
pub enum AccessBitsPolicy {
    /// Keep the word as it is; unknown bits are preserved.
    Ignore,
    /// Fail with `UnknownAccessBits`.
    Reject,
}

/// The default ceiling on the nesting depth of attributes.
pub const DEFAULT_MAX_ATTRIBUTE_DEPTH: u32 = 16;

/// The parser's policies.
#[derive(Debug, Clone, Copy, PartialEq, Eq, Structural)]
pub struct ParseOptions {
    /// Policy for attributes with unrecognized names.
    pub on_unknown_attribute: AttributePolicy,
    /// Policy for access flag words with undefined bits.
    pub on_unknown_access_bits: AccessBitsPolicy,
    /// Ceiling on the nesting depth of attributes; exceeding it fails with
    /// `AttributeDepthExceeded`.
    pub max_attribute_depth: u32,
}

impl Default for ParseOptions {
    /// Skip unknown attributes, keep unknown flag bits, allow 16 levels of
    /// attribute nesting.
    fn default() -> (r: Self)
        ensures
            r == ParseOptions::spec_default(),
    {
        ParseOptions {
            on_unknown_attribute: AttributePolicy::Skip,
            on_unknown_access_bits: AccessBitsPolicy::Ignore,
            max_attribute_depth: DEFAULT_MAX_ATTRIBUTE_DEPTH,
        }
    }
}

impl ParseOptions {
    /// The default policies, as a spec value.
    pub open spec fn spec_default() -> ParseOptions {
        ParseOptions {
            on_unknown_attribute: AttributePolicy::Skip,
            on_unknown_access_bits: AccessBitsPolicy::Ignore,
            max_attribute_depth: DEFAULT_MAX_ATTRIBUTE_DEPTH,
        }
    }
}

} // verus!
