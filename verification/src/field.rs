//! Fields of a class, and the spec-level field table decoder.

use vstd::prelude::*;

use crate::access_flags::{FieldAccessFlag, FIELD_FLAGS_MASK};
use crate::attribute::{attrs_view, spec_parse_attributes, Attribute, SpecAttribute};
use crate::constant_pool::SpecConstant;
use crate::error::SpecError;
use crate::options::{AccessBitsPolicy, ParseOptions};
use crate::wire::be_u16;

verus! {

/// A field (JVM §4.5): access flags, name and descriptor pool indices, and
/// attributes.
#[derive(Debug)]
pub struct Field {
    pub access_flags: FieldAccessFlag,
    pub name_index: u16,
    pub descriptor_index: u16,
    pub attributes_count: u16,
    pub attributes: Vec<Attribute>,
}

/// Spec-level mirror of [`Field`].
pub struct SpecField {
    pub access_flags: FieldAccessFlag,
    pub name_index: u16,
    pub descriptor_index: u16,
    pub attributes_count: u16,
    pub attributes: Seq<SpecAttribute>,
}

impl View for Field {
    type V = SpecField;

    open spec fn view(&self) -> SpecField {
        SpecField {
            access_flags: self.access_flags,
            name_index: self.name_index,
            descriptor_index: self.descriptor_index,
            attributes_count: self.attributes_count,
            attributes: attrs_view(self.attributes@),
        }
    }
}

/// The element-wise view of a decoded field table.
pub open spec fn fields_view(fs: Seq<Field>) -> Seq<SpecField> {
    Seq::new(fs.len(), |i: int| fs[i]@)
}

/// Decodes `rem` field entries starting at `off`, appending them to `acc`.
/// Each entry is four `u16`s followed by its attribute table; under the
/// `reject` policy a flag word with undefined bits fails.
pub open spec fn spec_parse_fields(
    bytes: Seq<u8>,
    off: int,
    rem: int,
    pool: Seq<SpecConstant>,
    opts: ParseOptions,
    acc: Seq<SpecField>,
) -> Result<(Seq<SpecField>, int), SpecError>
    decreases rem,
{
    if rem <= 0 {
        Ok((acc, off))
    } else if off + 8 > bytes.len() {
        Err(SpecError::Truncated)
    } else {
        let flags = be_u16(bytes, off);
        if opts.on_unknown_access_bits == AccessBitsPolicy::Reject && flags & !FIELD_FLAGS_MASK
            != 0 {
            Err(SpecError::UnknownAccessBits(flags))
        } else {
            let attributes_count = be_u16(bytes, off + 6);
            match spec_parse_attributes(
                bytes,
                off + 8,
                attributes_count as int,
                pool,
                opts,
                opts.max_attribute_depth as int,
                Seq::empty(),
            ) {
                Err(e) => Err(e),
                Ok((attributes, next)) => spec_parse_fields(
                    bytes,
                    next,
                    rem - 1,
                    pool,
                    opts,
                    acc.push(
                        SpecField {
                            access_flags: FieldAccessFlag { bits: flags },
                            name_index: be_u16(bytes, off + 2),
                            descriptor_index: be_u16(bytes, off + 4),
                            attributes_count,
                            attributes,
                        },
                    ),
                ),
            }
        }
    }
}

/// Decoding field entries never moves the offset backwards.
pub proof fn lemma_fields_advances(
    bytes: Seq<u8>,
    off: int,
    rem: int,
    pool: Seq<SpecConstant>,
    opts: ParseOptions,
    acc: Seq<SpecField>,
)
    ensures
        spec_parse_fields(bytes, off, rem, pool, opts, acc) matches Ok(r) ==> r.1 >= off,
    decreases rem,
{
    if rem <= 0 {
    } else if off + 8 > bytes.len() {
    } else {
        let flags = be_u16(bytes, off);
        if opts.on_unknown_access_bits == AccessBitsPolicy::Reject && flags & !FIELD_FLAGS_MASK != 0 {
        } else {
            let attributes_count = be_u16(bytes, off + 6);
            crate::attribute::lemma_attributes_advances(
                bytes,
                off + 8,
                attributes_count as int,
                pool,
                opts,
                opts.max_attribute_depth as int,
                Seq::empty(),
            );
            match spec_parse_attributes(
                bytes,
                off + 8,
                attributes_count as int,
                pool,
                opts,
                opts.max_attribute_depth as int,
                Seq::empty(),
            ) {
                Err(_) => {},
                Ok((attributes, next)) => {
                    let entry = SpecField {
                        access_flags: FieldAccessFlag { bits: flags },
                        name_index: be_u16(bytes, off + 2),
                        descriptor_index: be_u16(bytes, off + 4),
                        attributes_count,
                        attributes,
                    };
                    lemma_fields_advances(bytes, next, rem - 1, pool, opts, acc.push(entry));
                },
            }
        }
    }
}

/// Decoding field entries from a prefix of the buffer: a table that lay
/// inside the prefix is unchanged, and one that needed a byte past the cut
/// fails with `Truncated`.
pub proof fn lemma_fields_truncated(
    bytes: Seq<u8>,
    m: int,
    off: int,
    rem: int,
    pool: Seq<SpecConstant>,
    opts: ParseOptions,
    acc: Seq<SpecField>,
)
    requires
        0 <= off <= m <= bytes.len(),
    ensures
        spec_parse_fields(bytes, off, rem, pool, opts, acc) matches Ok(r) ==> spec_parse_fields(
            bytes.take(m),
            off,
            rem,
            pool,
            opts,
            acc,
        ) == (if r.1 <= m {
            Ok::<(Seq<SpecField>, int), SpecError>(r)
        } else {
            Err(SpecError::Truncated)
        }),
    decreases rem,
{
    broadcast use vstd::seq::group_seq_axioms;

    if rem <= 0 {
    } else if off + 8 > bytes.len() {
    } else {
        if off + 8 <= m {
            assert(be_u16(bytes.take(m), off) == be_u16(bytes, off));
            assert(be_u16(bytes.take(m), off + 2) == be_u16(bytes, off + 2));
            assert(be_u16(bytes.take(m), off + 4) == be_u16(bytes, off + 4));
            assert(be_u16(bytes.take(m), off + 6) == be_u16(bytes, off + 6));
        }
        let flags = be_u16(bytes, off);
        if opts.on_unknown_access_bits == AccessBitsPolicy::Reject && flags & !FIELD_FLAGS_MASK != 0 {
        } else {
            let attributes_count = be_u16(bytes, off + 6);
            crate::attribute::lemma_attributes_advances(
                bytes,
                off + 8,
                attributes_count as int,
                pool,
                opts,
                opts.max_attribute_depth as int,
                Seq::empty(),
            );
            if off + 8 <= m {
                crate::attribute::lemma_attributes_truncated(
                    bytes,
                    m,
                    off + 8,
                    attributes_count as int,
                    pool,
                    opts,
                    opts.max_attribute_depth as int,
                    Seq::empty(),
                );
            }
            match spec_parse_attributes(
                bytes,
                off + 8,
                attributes_count as int,
                pool,
                opts,
                opts.max_attribute_depth as int,
                Seq::empty(),
            ) {
                Err(_) => {},
                Ok((attributes, next)) => {
                    let entry = SpecField {
                        access_flags: FieldAccessFlag { bits: flags },
                        name_index: be_u16(bytes, off + 2),
                        descriptor_index: be_u16(bytes, off + 4),
                        attributes_count,
                        attributes,
                    };
                    lemma_fields_advances(bytes, next, rem - 1, pool, opts, acc.push(entry));
                    if next <= m {
                        lemma_fields_truncated(bytes, m, next, rem - 1, pool, opts, acc.push(entry));
                    }
                },
            }
        }
    }
}

} // verus!


