//! The constant pool: tags, entries, and the spec-level pool decoder.
//!
//! Pool indices are 1-based; the pool of a file with `constant_pool_count`
//! equal to `N` holds `N - 1` slots, stored here densely at 0-based positions
//! `0 .. N - 1` (so index `i` lives at position `i - 1`).  A `Long` or
//! `Double` occupies two slots: the decoder places an [`Constant::Unusable`]
//! sentinel in the slot after it (JVM §4.4.5).

use vstd::prelude::*;

use crate::error::{ErrorType, SpecError};
use crate::wire::{be_i32_val, be_u16, be_u32};

verus! {

/// The tag byte of a constant pool entry (JVM §4.4).
#[derive(Debug, Clone, Copy, PartialEq, Eq, Structural)]
pub enum ConstantTag {
    Class,
    Fieldref,
    Methodref,
    InterfaceMethodref,
    String,
    Integer,
    Float,
    Long,
    Double,
    NameAndType,
    Utf8,
    MethodHandle,
    MethodType,
    InvokeDynamic,
}

/// The tag encoded by a byte: 1, 3..=12, 15, 16 and 18 are defined.
pub open spec fn spec_tag_of(v: u8) -> Option<ConstantTag> {
    match v {
        1u8 => Some(ConstantTag::Utf8),
        3u8 => Some(ConstantTag::Integer),
        4u8 => Some(ConstantTag::Float),
        5u8 => Some(ConstantTag::Long),
        6u8 => Some(ConstantTag::Double),
        7u8 => Some(ConstantTag::Class),
        8u8 => Some(ConstantTag::String),
        9u8 => Some(ConstantTag::Fieldref),
        10u8 => Some(ConstantTag::Methodref),
        11u8 => Some(ConstantTag::InterfaceMethodref),
        12u8 => Some(ConstantTag::NameAndType),
        15u8 => Some(ConstantTag::MethodHandle),
        16u8 => Some(ConstantTag::MethodType),
        18u8 => Some(ConstantTag::InvokeDynamic),
        _ => None,
    }
}

impl ConstantTag {
    /// Decodes a tag byte; any byte outside the defined set yields
    /// `UnknownConstantTag`.
    pub fn of(v: u8) -> (r: Result<ConstantTag, ErrorType>)
        ensures
            match spec_tag_of(v) {
                Some(t) => r == Ok::<ConstantTag, ErrorType>(t),
                None => r == Err::<ConstantTag, ErrorType>(ErrorType::UnknownConstantTag(v)),
            },
    {
        match v {
            1u8 => Ok(ConstantTag::Utf8),
            3u8 => Ok(ConstantTag::Integer),
            4u8 => Ok(ConstantTag::Float),
            5u8 => Ok(ConstantTag::Long),
            6u8 => Ok(ConstantTag::Double),
            7u8 => Ok(ConstantTag::Class),
            8u8 => Ok(ConstantTag::String),
            9u8 => Ok(ConstantTag::Fieldref),
            10u8 => Ok(ConstantTag::Methodref),
            11u8 => Ok(ConstantTag::InterfaceMethodref),
            12u8 => Ok(ConstantTag::NameAndType),
            15u8 => Ok(ConstantTag::MethodHandle),
            16u8 => Ok(ConstantTag::MethodType),
            18u8 => Ok(ConstantTag::InvokeDynamic),
            _ => Err(ErrorType::UnknownConstantTag(v)),
        }
    }
}

/// The kind of a method handle (JVM §4.4.8), encoded as 1..=9.
#[derive(Debug, Clone, Copy, PartialEq, Eq, Structural)]
pub enum ReferenceKind {
    GetField,
    GetStatic,
    PutField,
    PutStatic,
    InvokeVirtual,
    InvokeStatic,
    InvokeSpecial,
    NewInvokeSpecial,
    InvokeInterface,
}

/// The reference kind encoded by a byte: 1..=9 are defined.
pub open spec fn spec_ref_kind_of(v: u8) -> Option<ReferenceKind> {
    match v {
        1u8 => Some(ReferenceKind::GetField),
        2u8 => Some(ReferenceKind::GetStatic),
        3u8 => Some(ReferenceKind::PutField),
        4u8 => Some(ReferenceKind::PutStatic),
        5u8 => Some(ReferenceKind::InvokeVirtual),
        6u8 => Some(ReferenceKind::InvokeStatic),
        7u8 => Some(ReferenceKind::InvokeSpecial),
        8u8 => Some(ReferenceKind::NewInvokeSpecial),
        9u8 => Some(ReferenceKind::InvokeInterface),
        _ => None,
    }
}

impl ReferenceKind {
    /// Decodes a reference kind byte; any byte outside 1..=9 yields
    /// `UnknownReferenceKind`.
    pub fn of(v: u8) -> (r: Result<ReferenceKind, ErrorType>)
        ensures
            match spec_ref_kind_of(v) {
                Some(k) => r == Ok::<ReferenceKind, ErrorType>(k),
                None => r == Err::<ReferenceKind, ErrorType>(ErrorType::UnknownReferenceKind(v)),
            },
    {
        match v {
            1u8 => Ok(ReferenceKind::GetField),
            2u8 => Ok(ReferenceKind::GetStatic),
            3u8 => Ok(ReferenceKind::PutField),
            4u8 => Ok(ReferenceKind::PutStatic),
            5u8 => Ok(ReferenceKind::InvokeVirtual),
            6u8 => Ok(ReferenceKind::InvokeStatic),
            7u8 => Ok(ReferenceKind::InvokeSpecial),
            8u8 => Ok(ReferenceKind::NewInvokeSpecial),
            9u8 => Ok(ReferenceKind::InvokeInterface),
            _ => Err(ErrorType::UnknownReferenceKind(v)),
        }
    }
}

/// A constant pool entry (JVM §4.4).  `Utf8` and `Float` keep borrowed
/// slices of the input buffer; nothing is copied.
#[derive(Debug)]
pub enum Constant<'c> {
    Class { tag: ConstantTag, name_index: u16 },
    Fieldref { tag: ConstantTag, class_index: u16, name_and_type_index: u16 },
    Methodref { tag: ConstantTag, class_index: u16, name_and_type_index: u16 },
    InterfaceMethodref { tag: ConstantTag, class_index: u16, name_and_type_index: u16 },
    String { tag: ConstantTag, string_index: u16 },
    Integer { tag: ConstantTag, value: i32 },
    Float { tag: ConstantTag, bytes: &'c [u8] },
    Long { tag: ConstantTag, high_bytes: u32, low_bytes: u32 },
    Double { tag: ConstantTag, high_bytes: u32, low_bytes: u32 },
    NameAndType { tag: ConstantTag, name_index: u16, descriptor_index: u16 },
    Utf8 { tag: ConstantTag, length: u16, bytes: &'c [u8] },
    MethodHandle { tag: ConstantTag, reference_kind: ReferenceKind, reference_index: u16 },
    MethodType { tag: ConstantTag, descriptor_index: u16 },
    InvokeDynamic { tag: ConstantTag, bootstrap_method_attr_index: u16, name_and_type_index: u16 },
    /// The sentinel filling the slot after a `Long` or `Double`.
    Unusable,
}

/// Spec-level mirror of [`Constant`], with byte slices as sequences.
pub enum SpecConstant {
    Class { tag: ConstantTag, name_index: u16 },
    Fieldref { tag: ConstantTag, class_index: u16, name_and_type_index: u16 },
    Methodref { tag: ConstantTag, class_index: u16, name_and_type_index: u16 },
    InterfaceMethodref { tag: ConstantTag, class_index: u16, name_and_type_index: u16 },
    String { tag: ConstantTag, string_index: u16 },
    Integer { tag: ConstantTag, value: i32 },
    Float { tag: ConstantTag, bytes: Seq<u8> },
    Long { tag: ConstantTag, high_bytes: u32, low_bytes: u32 },
    Double { tag: ConstantTag, high_bytes: u32, low_bytes: u32 },
    NameAndType { tag: ConstantTag, name_index: u16, descriptor_index: u16 },
    Utf8 { tag: ConstantTag, length: u16, bytes: Seq<u8> },
    MethodHandle { tag: ConstantTag, reference_kind: ReferenceKind, reference_index: u16 },
    MethodType { tag: ConstantTag, descriptor_index: u16 },
    InvokeDynamic { tag: ConstantTag, bootstrap_method_attr_index: u16, name_and_type_index: u16 },
    Unusable,
}

impl<'c> View for Constant<'c> {
    type V = SpecConstant;

    open spec fn view(&self) -> SpecConstant {
        match self {
            Constant::Class { tag, name_index } => SpecConstant::Class {
                tag: *tag,
                name_index: *name_index,
            },
            Constant::Fieldref { tag, class_index, name_and_type_index } => SpecConstant::Fieldref {
                tag: *tag,
                class_index: *class_index,
                name_and_type_index: *name_and_type_index,
            },
            Constant::Methodref { tag, class_index, name_and_type_index } => {
                SpecConstant::Methodref {
                    tag: *tag,
                    class_index: *class_index,
                    name_and_type_index: *name_and_type_index,
                }
            },
            Constant::InterfaceMethodref { tag, class_index, name_and_type_index } => {
                SpecConstant::InterfaceMethodref {
                    tag: *tag,
                    class_index: *class_index,
                    name_and_type_index: *name_and_type_index,
                }
            },
            Constant::String { tag, string_index } => SpecConstant::String {
                tag: *tag,
                string_index: *string_index,
            },
            Constant::Integer { tag, value } => SpecConstant::Integer {
                tag: *tag,
                value: *value,
            },
            Constant::Float { tag, bytes } => SpecConstant::Float { tag: *tag, bytes: bytes@ },
            Constant::Long { tag, high_bytes, low_bytes } => SpecConstant::Long {
                tag: *tag,
                high_bytes: *high_bytes,
                low_bytes: *low_bytes,
            },
            Constant::Double { tag, high_bytes, low_bytes } => SpecConstant::Double {
                tag: *tag,
                high_bytes: *high_bytes,
                low_bytes: *low_bytes,
            },
            Constant::NameAndType { tag, name_index, descriptor_index } => {
                SpecConstant::NameAndType {
                    tag: *tag,
                    name_index: *name_index,
                    descriptor_index: *descriptor_index,
                }
            },
            Constant::Utf8 { tag, length, bytes } => SpecConstant::Utf8 {
                tag: *tag,
                length: *length,
                bytes: bytes@,
            },
            Constant::MethodHandle { tag, reference_kind, reference_index } => {
                SpecConstant::MethodHandle {
                    tag: *tag,
                    reference_kind: *reference_kind,
                    reference_index: *reference_index,
                }
            },
            Constant::MethodType { tag, descriptor_index } => SpecConstant::MethodType {
                tag: *tag,
                descriptor_index: *descriptor_index,
            },
            Constant::InvokeDynamic { tag, bootstrap_method_attr_index, name_and_type_index } => {
                SpecConstant::InvokeDynamic {
                    tag: *tag,
                    bootstrap_method_attr_index: *bootstrap_method_attr_index,
                    name_and_type_index: *name_and_type_index,
                }
            },
            Constant::Unusable => SpecConstant::Unusable,
        }
    }
}

/// The element-wise view of a stored pool.
pub open spec fn pool_view(pool: Seq<Constant>) -> Seq<SpecConstant> {
    Seq::new(pool.len(), |i: int| pool[i]@)
}

/// Decodes the single pool entry whose tag byte sits at `off`.  The result
/// carries the entry, whether it occupies two slots (`Long`/`Double`), and
/// the offset just after it.
pub open spec fn spec_parse_pool_entry(bytes: Seq<u8>, off: int) -> Result<
    (SpecConstant, bool, int),
    SpecError,
> {
    if off + 1 > bytes.len() {
        Err(SpecError::Truncated)
    } else {
        match spec_tag_of(bytes[off]) {
            None => Err(SpecError::UnknownConstantTag(bytes[off])),
            Some(tag) => match tag {
                ConstantTag::Class => {
                    if off + 3 > bytes.len() {
                        Err(SpecError::Truncated)
                    } else {
                        Ok((
                            SpecConstant::Class { tag, name_index: be_u16(bytes, off + 1) },
                            false,
                            off + 3,
                        ))
                    }
                },
                ConstantTag::Fieldref => {
                    if off + 5 > bytes.len() {
                        Err(SpecError::Truncated)
                    } else {
                        Ok((
                            SpecConstant::Fieldref {
                                tag,
                                class_index: be_u16(bytes, off + 1),
                                name_and_type_index: be_u16(bytes, off + 3),
                            },
                            false,
                            off + 5,
                        ))
                    }
                },
                ConstantTag::Methodref => {
                    if off + 5 > bytes.len() {
                        Err(SpecError::Truncated)
                    } else {
                        Ok((
                            SpecConstant::Methodref {
                                tag,
                                class_index: be_u16(bytes, off + 1),
                                name_and_type_index: be_u16(bytes, off + 3),
                            },
                            false,
                            off + 5,
                        ))
                    }
                },
                ConstantTag::InterfaceMethodref => {
                    if off + 5 > bytes.len() {
                        Err(SpecError::Truncated)
                    } else {
                        Ok((
                            SpecConstant::InterfaceMethodref {
                                tag,
                                class_index: be_u16(bytes, off + 1),
                                name_and_type_index: be_u16(bytes, off + 3),
                            },
                            false,
                            off + 5,
                        ))
                    }
                },
                ConstantTag::String => {
                    if off + 3 > bytes.len() {
                        Err(SpecError::Truncated)
                    } else {
                        Ok((
                            SpecConstant::String { tag, string_index: be_u16(bytes, off + 1) },
                            false,
                            off + 3,
                        ))
                    }
                },
                ConstantTag::Integer => {
                    if off + 5 > bytes.len() {
                        Err(SpecError::Truncated)
                    } else {
                        Ok((
                            SpecConstant::Integer {
                                tag,
                                value: be_i32_val(bytes, off + 1) as i32,
                            },
                            false,
                            off + 5,
                        ))
                    }
                },
                ConstantTag::Float => {
                    if off + 5 > bytes.len() {
                        Err(SpecError::Truncated)
                    } else {
                        Ok((
                            SpecConstant::Float {
                                tag,
                                bytes: bytes.subrange(off + 1, off + 5),
                            },
                            false,
                            off + 5,
                        ))
                    }
                },
                ConstantTag::Long => {
                    if off + 9 > bytes.len() {
                        Err(SpecError::Truncated)
                    } else {
                        Ok((
                            SpecConstant::Long {
                                tag,
                                high_bytes: be_u32(bytes, off + 1),
                                low_bytes: be_u32(bytes, off + 5),
                            },
                            true,
                            off + 9,
                        ))
                    }
                },
                ConstantTag::Double => {
                    if off + 9 > bytes.len() {
                        Err(SpecError::Truncated)
                    } else {
                        Ok((
                            SpecConstant::Double {
                                tag,
                                high_bytes: be_u32(bytes, off + 1),
                                low_bytes: be_u32(bytes, off + 5),
                            },
                            true,
                            off + 9,
                        ))
                    }
                },
                ConstantTag::NameAndType => {
                    if off + 5 > bytes.len() {
                        Err(SpecError::Truncated)
                    } else {
                        Ok((
                            SpecConstant::NameAndType {
                                tag,
                                name_index: be_u16(bytes, off + 1),
                                descriptor_index: be_u16(bytes, off + 3),
                            },
                            false,
                            off + 5,
                        ))
                    }
                },
                ConstantTag::Utf8 => {
                    if off + 3 > bytes.len() {
                        Err(SpecError::Truncated)
                    } else {
                        let length = be_u16(bytes, off + 1);
                        if off + 3 + length > bytes.len() {
                            Err(SpecError::Truncated)
                        } else {
                            Ok((
                                SpecConstant::Utf8 {
                                    tag,
                                    length,
                                    bytes: bytes.subrange(off + 3, off + 3 + length),
                                },
                                false,
                                off + 3 + length,
                            ))
                        }
                    }
                },
                ConstantTag::MethodHandle => {
                    if off + 4 > bytes.len() {
                        Err(SpecError::Truncated)
                    } else {
                        match spec_ref_kind_of(bytes[off + 1]) {
                            None => Err(SpecError::UnknownReferenceKind(bytes[off + 1])),
                            Some(reference_kind) => Ok((
                                SpecConstant::MethodHandle {
                                    tag,
                                    reference_kind,
                                    reference_index: be_u16(bytes, off + 2),
                                },
                                false,
                                off + 4,
                            )),
                        }
                    }
                },
                ConstantTag::MethodType => {
                    if off + 3 > bytes.len() {
                        Err(SpecError::Truncated)
                    } else {
                        Ok((
                            SpecConstant::MethodType {
                                tag,
                                descriptor_index: be_u16(bytes, off + 1),
                            },
                            false,
                            off + 3,
                        ))
                    }
                },
                ConstantTag::InvokeDynamic => {
                    if off + 5 > bytes.len() {
                        Err(SpecError::Truncated)
                    } else {
                        Ok((
                            SpecConstant::InvokeDynamic {
                                tag,
                                bootstrap_method_attr_index: be_u16(bytes, off + 1),
                                name_and_type_index: be_u16(bytes, off + 3),
                            },
                            false,
                            off + 5,
                        ))
                    }
                },
            },
        }
    }
}

/// Decodes `rem` remaining pool slots starting at `off`, appending entries to
/// `acc`.  A two-slot entry (`Long`/`Double`) appends itself and an
/// [`SpecConstant::Unusable`] sentinel and uses up two slots; one in the
/// final slot is `MalformedPool`.
pub open spec fn spec_parse_pool(bytes: Seq<u8>, off: int, rem: int, acc: Seq<SpecConstant>)
    -> Result<(Seq<SpecConstant>, int), SpecError>
    decreases rem,
{
    if rem <= 0 {
        Ok((acc, off))
    } else {
        match spec_parse_pool_entry(bytes, off) {
            Err(e) => Err(e),
            Ok((entry, wide, next)) => {
                if wide {
                    if rem == 1 {
                        Err(SpecError::MalformedPool)
                    } else {
                        spec_parse_pool(
                            bytes,
                            next,
                            rem - 2,
                            acc.push(entry).push(SpecConstant::Unusable),
                        )
                    }
                } else {
                    spec_parse_pool(bytes, next, rem - 1, acc.push(entry))
                }
            },
        }
    }
}

/// A decoded pool entry ends after its tag byte.
pub proof fn lemma_pool_entry_advances(bytes: Seq<u8>, off: int)
    ensures
        spec_parse_pool_entry(bytes, off) matches Ok(r) ==> r.2 > off,
{
}

/// Decoding pool slots never moves the offset backwards.
pub proof fn lemma_pool_advances(bytes: Seq<u8>, off: int, rem: int, acc: Seq<SpecConstant>)
    ensures
        spec_parse_pool(bytes, off, rem, acc) matches Ok(r) ==> r.1 >= off,
    decreases rem,
{
    if rem <= 0 {
    } else {
        match spec_parse_pool_entry(bytes, off) {
            Err(_) => {},
            Ok((entry, wide, next)) => {
                lemma_pool_entry_advances(bytes, off);
                if wide {
                    if rem != 1 {
                        lemma_pool_advances(
                            bytes,
                            next,
                            rem - 2,
                            acc.push(entry).push(SpecConstant::Unusable),
                        );
                    }
                } else {
                    lemma_pool_advances(bytes, next, rem - 1, acc.push(entry));
                }
            },
        }
    }
}

/// Decoding one pool entry from a prefix of the buffer: an entry that lay
/// inside the prefix is unchanged, and one that needed a byte past the cut
/// fails with `Truncated`.
pub proof fn lemma_pool_entry_truncated(bytes: Seq<u8>, m: int, off: int)
    requires
        0 <= off <= m <= bytes.len(),
    ensures
        spec_parse_pool_entry(bytes, off) matches Ok(r) ==> spec_parse_pool_entry(
            bytes.take(m),
            off,
        ) == (if r.2 <= m {
            Ok::<(SpecConstant, bool, int), SpecError>(r)
        } else {
            Err(SpecError::Truncated)
        }),
{
    broadcast use vstd::seq::group_seq_axioms;

    if spec_parse_pool_entry(bytes, off) is Ok {
        if off + 1 <= m {
            assert(bytes.take(m)[off] == bytes[off]);
            match spec_tag_of(bytes[off]) {
                None => {},
                Some(tag) => {
                    match tag {
                        ConstantTag::Utf8 => {
                            if off + 3 <= m {
                                assert(be_u16(bytes.take(m), off + 1) == be_u16(bytes, off + 1));
                                let length = be_u16(bytes, off + 1);
                                if off + 3 + length <= m {
                                    assert(bytes.take(m).subrange(off + 3, off + 3 + length)
                                        =~= bytes.subrange(off + 3, off + 3 + length));
                                }
                            }
                        },
                        ConstantTag::Float => {
                            if off + 5 <= m {
                                assert(bytes.take(m).subrange(off + 1, off + 5) =~= bytes.subrange(
                                    off + 1,
                                    off + 5,
                                ));
                            }
                        },
                        _ => {},
                    }
                },
            }
        }
    }
}

/// Decoding pool slots from a prefix of the buffer: a pool that lay inside
/// the prefix is unchanged, and one that needed a byte past the cut fails
/// with `Truncated`.
pub proof fn lemma_pool_truncated(bytes: Seq<u8>, m: int, off: int, rem: int, acc: Seq<SpecConstant>)
    requires
        0 <= off <= m <= bytes.len(),
    ensures
        spec_parse_pool(bytes, off, rem, acc) matches Ok(r) ==> spec_parse_pool(
            bytes.take(m),
            off,
            rem,
            acc,
        ) == (if r.1 <= m {
            Ok::<(Seq<SpecConstant>, int), SpecError>(r)
        } else {
            Err(SpecError::Truncated)
        }),
    decreases rem,
{
    if rem <= 0 {
    } else {
        match spec_parse_pool_entry(bytes, off) {
            Err(_) => {},
            Ok((entry, wide, next)) => {
                lemma_pool_entry_truncated(bytes, m, off);
                if next <= m {
                    if wide {
                        if rem != 1 {
                            let acc2 = acc.push(entry).push(SpecConstant::Unusable);
                            lemma_pool_advances(bytes, next, rem - 2, acc2);
                            lemma_pool_truncated(bytes, m, next, rem - 2, acc2);
                        }
                    } else {
                        let acc2 = acc.push(entry);
                        lemma_pool_advances(bytes, next, rem - 1, acc2);
                        lemma_pool_truncated(bytes, m, next, rem - 1, acc2);
                    }
                } else {
                    if wide {
                        if rem != 1 {
                            lemma_pool_advances(
                                bytes,
                                next,
                                rem - 2,
                                acc.push(entry).push(SpecConstant::Unusable),
                            );
                        }
                    } else {
                        lemma_pool_advances(bytes, next, rem - 1, acc.push(entry));
                    }
                }
            },
        }
    }
}

} // verus!
