//! Laws of the decoder, stated over the spec-level parser and proved once
//! and for all.  [`crate::parser::ClassParser::parse`] is proved equivalent
//! to [`spec_parse_class`], so each law carries over to the executable
//! parser.

use vstd::prelude::*;

use crate::attribute::{
    spec_attr_name_kind, spec_parse_attribute, spec_parse_attributes, spec_parse_code,
    spec_resolve_utf8, AttrKind, SpecAttribute,
};
use crate::constant_pool::{spec_parse_pool, spec_parse_pool_entry, SpecConstant};
use crate::error::SpecError;
use crate::field::{spec_parse_fields, SpecField};
use crate::method::{spec_parse_methods, SpecMethod};
use crate::opcode::{spec_parse_instr, spec_parse_instrs, SpecInstruction};
use crate::options::ParseOptions;
use crate::raw_class::{spec_parse_class, SpecRawClass, CLASS_MAGIC};
use crate::wire::{be_u16, be_u32, spec_u16s};

verus! {

broadcast use vstd::seq::group_seq_axioms;

/// A parse that succeeds consumed the buffer to its exact end: the offsets
/// of all decoder stages advance from `off` to the buffer's length, with no
/// trailing bytes.
pub proof fn lemma_parse_consumes_buffer(bytes: Seq<u8>, opts: ParseOptions, off: int)
    ensures
        spec_parse_class(bytes, opts, off) matches Ok(r) ==> r.1 == bytes.len(),
{
}

/// A buffer whose first four bytes are present but do not spell the magic
/// word is rejected with `BadMagic`.
pub proof fn lemma_wrong_magic_rejected(bytes: Seq<u8>, opts: ParseOptions, off: int)
    requires
        off + 4 <= bytes.len(),
        be_u32(bytes, off) != CLASS_MAGIC,
    ensures
        spec_parse_class(bytes, opts, off) == Err::<(SpecRawClass, int), SpecError>(
            SpecError::BadMagic,
        ),
{
}

/// Mutating any single byte of the magic word of a well-formed class file
/// makes the parse fail with `BadMagic`.
pub proof fn lemma_magic_mutation(
    bytes: Seq<u8>,
    mutated: Seq<u8>,
    opts: ParseOptions,
    j: int,
)
    requires
        spec_parse_class(bytes, opts, 0) is Ok,
        mutated.len() == bytes.len(),
        0 <= j < 4,
        mutated[j] != bytes[j],
        forall|i: int| 0 <= i < bytes.len() && i != j ==> mutated[i] == bytes[i],
    ensures
        spec_parse_class(mutated, opts, 0) == Err::<(SpecRawClass, int), SpecError>(
            SpecError::BadMagic,
        ),
{
    assert(bytes.len() >= 4);
    assert(be_u32(bytes, 0) == CLASS_MAGIC);
    assert(be_u32(mutated, 0) != CLASS_MAGIC);
    lemma_wrong_magic_rejected(mutated, opts, 0);
}

/// The pool slot count that the class header at `off` announces.
pub open spec fn spec_class_pool_count(bytes: Seq<u8>, off: int) -> int {
    crate::wire::be_u16(bytes, off + 8) - 1
}

/// Every slot holding a `Long` or `Double` is followed by a slot holding the
/// `Unusable` sentinel, inside the pool.
pub open spec fn pool_slots_ok(pool: Seq<SpecConstant>) -> bool {
    forall|i: int|
        0 <= i < pool.len() && ((#[trigger] pool[i]) is Long || pool[i] is Double) ==> i + 1
            < pool.len() && pool[i + 1] is Unusable
}

/// The `Unusable` sentinel appears only in the slot after a `Long` or
/// `Double`: no other entry is ever unusable.
pub open spec fn unusable_only_after_wide(pool: Seq<SpecConstant>) -> bool {
    forall|i: int|
        0 <= i < pool.len() && (#[trigger] pool[i]) is Unusable ==> 0 < i && (pool[i - 1] is Long
            || pool[i - 1] is Double)
}

/// A decoded pool entry is never the sentinel, and occupies two slots
/// exactly when it is a `Long` or `Double`.
pub proof fn lemma_pool_entry_shape(bytes: Seq<u8>, off: int)
    ensures
        spec_parse_pool_entry(bytes, off) matches Ok(r) ==> !(r.0 is Unusable) && (r.1 <==> (
        r.0 is Long || r.0 is Double)),
{
}

/// The pool decoder maintains the slot discipline: starting from a pool
/// prefix that satisfies it, the decoded pool satisfies it.
pub proof fn lemma_parse_pool_slots(bytes: Seq<u8>, off: int, rem: int, acc: Seq<SpecConstant>)
    requires
        pool_slots_ok(acc),
        unusable_only_after_wide(acc),
    ensures
        spec_parse_pool(bytes, off, rem, acc) matches Ok(r) ==> pool_slots_ok(r.0)
            && unusable_only_after_wide(r.0),
    decreases rem,
{
    if rem <= 0 {
    } else {
        match spec_parse_pool_entry(bytes, off) {
            Err(_) => {},
            Ok((entry, wide, next)) => {
                lemma_pool_entry_shape(bytes, off);
                if wide {
                    if rem == 1 {
                    } else {
                        let acc2 = acc.push(entry).push(SpecConstant::Unusable);
                        assert(pool_slots_ok(acc2));
                        assert(unusable_only_after_wide(acc2));
                        lemma_parse_pool_slots(bytes, next, rem - 2, acc2);
                    }
                } else {
                    let acc2 = acc.push(entry);
                    assert(pool_slots_ok(acc2));
                    assert(unusable_only_after_wide(acc2));
                    lemma_parse_pool_slots(bytes, next, rem - 1, acc2);
                }
            },
        }
    }
}

/// The Long/Double slot rule, for every parsed class image: each `Long` or
/// `Double` constant at pool slot `i` is followed by the `Unusable` sentinel
/// at slot `i + 1`, and the sentinel stands nowhere else — so no decoded
/// constant ever occupies the slot after a `Long` or `Double`.
pub proof fn lemma_long_double_slot_rule(bytes: Seq<u8>, opts: ParseOptions, off: int)
    ensures
        spec_parse_class(bytes, opts, off) matches Ok(r) ==> pool_slots_ok(r.0.constant_pool)
            && unusable_only_after_wide(r.0.constant_pool),
{
    if spec_parse_class(bytes, opts, off) is Ok {
        assert(pool_slots_ok(Seq::<SpecConstant>::empty()));
        assert(unusable_only_after_wide(Seq::<SpecConstant>::empty()));
        lemma_parse_pool_slots(bytes, off + 10, spec_class_pool_count(bytes, off), Seq::empty());
    }
}

/// Cutting any number of bytes off the end of a well-formed class file makes
/// the parse fail with `Truncated`: every byte of the buffer is needed, and
/// the first read past the cut is a bounds failure, never a misparse.
#[verifier::rlimit(60)]
pub proof fn lemma_truncation_fails(bytes: Seq<u8>, opts: ParseOptions, m: int)
    requires
        spec_parse_class(bytes, opts, 0) is Ok,
        0 <= m < bytes.len(),
    ensures
        spec_parse_class(bytes.take(m), opts, 0) == Err::<(SpecRawClass, int), SpecError>(
            SpecError::Truncated,
        ),
{
    let cut = bytes.take(m);
    if m >= 4 {
        assert(be_u32(cut, 0) == be_u32(bytes, 0));
    }
    if m >= 10 {
        assert(be_u16(cut, 8) == be_u16(bytes, 8));
        let rem = spec_class_pool_count(bytes, 0);
        crate::constant_pool::lemma_pool_advances(bytes, 10, rem, Seq::empty());
        crate::constant_pool::lemma_pool_truncated(bytes, m, 10, rem, Seq::empty());
        match spec_parse_pool(bytes, 10, rem, Seq::empty()) {
            Err(_) => {},
            Ok((pool, p_end)) => {
                if p_end + 2 <= m {
                    assert(be_u16(cut, p_end) == be_u16(bytes, p_end));
                }
                if p_end + 8 <= m {
                    assert(be_u16(cut, p_end + 2) == be_u16(bytes, p_end + 2));
                    assert(be_u16(cut, p_end + 4) == be_u16(bytes, p_end + 4));
                    assert(be_u16(cut, p_end + 6) == be_u16(bytes, p_end + 6));
                    let if_count = be_u16(bytes, p_end + 6) as int;
                    crate::wire::lemma_u16s_advances(bytes, p_end + 8, if_count, Seq::empty());
                    crate::wire::lemma_u16s_truncated(bytes, m, p_end + 8, if_count, Seq::empty());
                    match spec_u16s(bytes, p_end + 8, if_count, Seq::empty()) {
                        Err(_) => {},
                        Ok((_, i_end)) => {
                            if i_end + 2 <= m {
                                assert(be_u16(cut, i_end) == be_u16(bytes, i_end));
                                let field_count = be_u16(bytes, i_end) as int;
                                crate::field::lemma_fields_advances(
                                    bytes,
                                    i_end + 2,
                                    field_count,
                                    pool,
                                    opts,
                                    Seq::empty(),
                                );
                                crate::field::lemma_fields_truncated(
                                    bytes,
                                    m,
                                    i_end + 2,
                                    field_count,
                                    pool,
                                    opts,
                                    Seq::empty(),
                                );
                                match spec_parse_fields(
                                    bytes,
                                    i_end + 2,
                                    field_count,
                                    pool,
                                    opts,
                                    Seq::empty(),
                                ) {
                                    Err(_) => {},
                                    Ok((_, f_end)) => {
                                        if f_end + 2 <= m {
                                            assert(be_u16(cut, f_end) == be_u16(bytes, f_end));
                                            let methods_count = be_u16(bytes, f_end) as int;
                                            crate::method::lemma_methods_advances(
                                                bytes,
                                                f_end + 2,
                                                methods_count,
                                                pool,
                                                opts,
                                                Seq::empty(),
                                            );
                                            crate::method::lemma_methods_truncated(
                                                bytes,
                                                m,
                                                f_end + 2,
                                                methods_count,
                                                pool,
                                                opts,
                                                Seq::empty(),
                                            );
                                            match spec_parse_methods(
                                                bytes,
                                                f_end + 2,
                                                methods_count,
                                                pool,
                                                opts,
                                                Seq::empty(),
                                            ) {
                                                Err(_) => {},
                                                Ok((_, m_end)) => {
                                                    if m_end + 2 <= m {
                                                        assert(be_u16(cut, m_end) == be_u16(
                                                            bytes,
                                                            m_end,
                                                        ));
                                                        let attributes_count = be_u16(
                                                            bytes,
                                                            m_end,
                                                        ) as int;
                                                        crate::attribute::lemma_attributes_advances(
                                                            bytes,
                                                            m_end + 2,
                                                            attributes_count,
                                                            pool,
                                                            opts,
                                                            opts.max_attribute_depth as int,
                                                            Seq::empty(),
                                                        );
                                                        crate::attribute::lemma_attributes_truncated(
                                                            bytes,
                                                            m,
                                                            m_end + 2,
                                                            attributes_count,
                                                            pool,
                                                            opts,
                                                            opts.max_attribute_depth as int,
                                                            Seq::empty(),
                                                        );
                                                    }
                                                },
                                            }
                                        }
                                    },
                                }
                            }
                        },
                    }
                }
            },
        }
    }
}

/// The total byte size of a decoded instruction sequence: one opcode byte
/// plus the operand bytes, per instruction.
pub open spec fn instrs_size(code: Seq<SpecInstruction>) -> int
    decreases code.len(),
{
    if code.len() <= 0 {
        0
    } else {
        instrs_size(code.drop_last()) + 1 + code.last().operands.len()
    }
}

/// One decoded instruction spans its opcode byte plus its operand bytes.
pub proof fn lemma_instr_span(bytes: Seq<u8>, code_start: int, code_end: int, off: int)
    requires
        0 <= off,
    ensures
        spec_parse_instr(bytes, code_start, code_end, off) matches Ok(r) ==> r.1 == off + 1
            + r.0.operands.len(),
{
}

/// The instruction decoder consumes its window exactly: the decoded
/// instructions span precisely the bytes from `off` to the window's end.
pub proof fn lemma_instrs_sized(
    bytes: Seq<u8>,
    code_start: int,
    code_end: int,
    off: int,
    acc: Seq<SpecInstruction>,
)
    requires
        0 <= off,
    ensures
        spec_parse_instrs(bytes, code_start, code_end, off, acc) matches Ok(r) ==> instrs_size(r.0)
            == instrs_size(acc) + (r.1 - off) && (off <= code_end ==> r.1 == code_end),
    decreases code_end - off,
{
    if off >= code_end {
    } else {
        match spec_parse_instr(bytes, code_start, code_end, off) {
            Err(_) => {},
            Ok((ins, next)) => {
                if off < next <= code_end {
                    lemma_instr_span(bytes, code_start, code_end, off);
                    assert(acc.push(ins).drop_last() =~= acc);
                    lemma_instrs_sized(bytes, code_start, code_end, next, acc.push(ins));
                }
            },
        }
    }
}

/// Within a single attribute: every `Code` attribute in it — itself, or
/// nested in its `Code` body — has instructions spanning exactly
/// `code_length` bytes.
pub open spec fn attr_code_sized(a: SpecAttribute) -> bool
    decreases a,
{
    match a {
        SpecAttribute::Code { code_length, code, attributes, .. } => instrs_size(code)
            == code_length && forall|i: int|
            0 <= i < attributes.len() ==> attr_code_sized(#[trigger] attributes[i]),
        _ => true,
    }
}

/// [`attr_code_sized`], over every attribute of a list.
pub open spec fn attrs_code_sized(attrs: Seq<SpecAttribute>) -> bool {
    forall|i: int| 0 <= i < attrs.len() ==> attr_code_sized(#[trigger] attrs[i])
}

/// [`attr_code_sized`], over every attribute of every field of a table.
pub open spec fn fields_code_sized(fs: Seq<SpecField>) -> bool {
    forall|i: int| 0 <= i < fs.len() ==> attrs_code_sized((#[trigger] fs[i]).attributes)
}

/// [`attr_code_sized`], over every attribute of every method of a table.
pub open spec fn methods_code_sized(ms: Seq<SpecMethod>) -> bool {
    forall|i: int| 0 <= i < ms.len() ==> attrs_code_sized((#[trigger] ms[i]).attributes)
}

proof fn lemma_attribute_code_sized(
    bytes: Seq<u8>,
    off: int,
    pool: Seq<SpecConstant>,
    opts: ParseOptions,
    depth: int,
)
    requires
        0 <= off,
    ensures
        spec_parse_attribute(bytes, off, pool, opts, depth) matches Ok(r) ==> (r.0 matches Some(a)
            ==> attr_code_sized(a)),
    decreases depth, 0int, 1int,
{
    if depth <= 0 {
    } else if off + 2 > bytes.len() {
    } else if off + 6 > bytes.len() {
    } else {
        match spec_resolve_utf8(pool, be_u16(bytes, off)) {
            None => {},
            Some(name) => {
                if vstd::utf8::valid_utf8(name) {
                    match spec_attr_name_kind(name) {
                        AttrKind::Code => {
                            lemma_code_code_sized(
                                bytes,
                                off + 6,
                                pool,
                                opts,
                                depth,
                                be_u16(bytes, off),
                                be_u32(bytes, off + 2),
                            );
                        },
                        _ => {},
                    }
                }
            },
        }
    }
}

proof fn lemma_code_code_sized(
    bytes: Seq<u8>,
    off: int,
    pool: Seq<SpecConstant>,
    opts: ParseOptions,
    depth: int,
    attribute_name_index: u16,
    attribute_length: u32,
)
    requires
        0 <= off,
    ensures
        spec_parse_code(bytes, off, pool, opts, depth, attribute_name_index, attribute_length)
            matches Ok(r) ==> attr_code_sized(r.0),
    decreases depth, 0int, 0int,
{
    if depth <= 0 {
    } else if off + 8 > bytes.len() {
    } else {
        let code_length = be_u32(bytes, off + 4);
        lemma_instrs_sized(bytes, off + 8, off + 8 + code_length, off + 8, Seq::empty());
        crate::opcode::lemma_instrs_advances(
            bytes,
            off + 8,
            off + 8 + code_length,
            off + 8,
            Seq::empty(),
        );
        match spec_parse_instrs(bytes, off + 8, off + 8 + code_length, off + 8, Seq::empty()) {
            Err(_) => {},
            Ok((code, code_end)) => {
                if code_end + 2 <= bytes.len() {
                    crate::attribute::lemma_exception_entries_advances(
                        bytes,
                        code_end + 2,
                        be_u16(bytes, code_end) as int,
                        Seq::empty(),
                    );
                    match crate::attribute::spec_exception_entries(
                        bytes,
                        code_end + 2,
                        be_u16(bytes, code_end) as int,
                        Seq::empty(),
                    ) {
                        Err(_) => {},
                        Ok((_, et_end)) => {
                            if et_end + 2 <= bytes.len() {
                                lemma_attributes_code_sized(
                                    bytes,
                                    et_end + 2,
                                    be_u16(bytes, et_end) as int,
                                    pool,
                                    opts,
                                    depth - 1,
                                    Seq::empty(),
                                );
                            }
                        },
                    }
                }
            },
        }
    }
}

proof fn lemma_attributes_code_sized(
    bytes: Seq<u8>,
    off: int,
    rem: int,
    pool: Seq<SpecConstant>,
    opts: ParseOptions,
    depth: int,
    acc: Seq<SpecAttribute>,
)
    requires
        0 <= off,
        attrs_code_sized(acc),
    ensures
        spec_parse_attributes(bytes, off, rem, pool, opts, depth, acc) matches Ok(r)
            ==> attrs_code_sized(r.0),
    decreases depth, rem, 2int,
{
    if rem <= 0 {
    } else if depth <= 0 {
    } else {
        match spec_parse_attribute(bytes, off, pool, opts, depth) {
            Err(_) => {},
            Ok((kept, next)) => {
                lemma_attribute_code_sized(bytes, off, pool, opts, depth);
                crate::attribute::lemma_attribute_advances(bytes, off, pool, opts, depth);
                let acc2 = match kept {
                    Some(a) => acc.push(a),
                    None => acc,
                };
                assert(attrs_code_sized(acc2));
                lemma_attributes_code_sized(bytes, next, rem - 1, pool, opts, depth, acc2);
            },
        }
    }
}

proof fn lemma_fields_code_sized(
    bytes: Seq<u8>,
    off: int,
    rem: int,
    pool: Seq<SpecConstant>,
    opts: ParseOptions,
    acc: Seq<SpecField>,
)
    requires
        0 <= off,
        fields_code_sized(acc),
    ensures
        spec_parse_fields(bytes, off, rem, pool, opts, acc) matches Ok(r) ==> fields_code_sized(
            r.0,
        ),
    decreases rem,
{
    if rem <= 0 {
    } else if off + 8 > bytes.len() {
    } else {
        let attributes_count = be_u16(bytes, off + 6);
        lemma_attributes_code_sized(
            bytes,
            off + 8,
            attributes_count as int,
            pool,
            opts,
            opts.max_attribute_depth as int,
            Seq::empty(),
        );
        crate::attribute::lemma_attributes_advances(
            bytes,
            off + 8,
            attributes_count as int,
            pool,
            opts,
            opts.max_attribute_depth as int,
            Seq::empty(),
        );
        match spec_parse_attributes(
            bytes,
            off + 8,
            attributes_count as int,
            pool,
            opts,
            opts.max_attribute_depth as int,
            Seq::empty(),
        ) {
            Err(_) => {},
            Ok((attributes, next)) => {
                match spec_parse_fields(bytes, off, rem, pool, opts, acc) {
                    Err(_) => {},
                    Ok(_) => {
                        let f = SpecField {
                            access_flags: crate::access_flags::FieldAccessFlag {
                                bits: be_u16(bytes, off),
                            },
                            name_index: be_u16(bytes, off + 2),
                            descriptor_index: be_u16(bytes, off + 4),
                            attributes_count,
                            attributes,
                        };
                        assert(fields_code_sized(acc.push(f)));
                        lemma_fields_code_sized(bytes, next, rem - 1, pool, opts, acc.push(f));
                    },
                }
            },
        }
    }
}

proof fn lemma_methods_code_sized(
    bytes: Seq<u8>,
    off: int,
    rem: int,
    pool: Seq<SpecConstant>,
    opts: ParseOptions,
    acc: Seq<SpecMethod>,
)
    requires
        0 <= off,
        methods_code_sized(acc),
    ensures
        spec_parse_methods(bytes, off, rem, pool, opts, acc) matches Ok(r) ==> methods_code_sized(
            r.0,
        ),
    decreases rem,
{
    if rem <= 0 {
    } else if off + 8 > bytes.len() {
    } else {
        let attributes_count = be_u16(bytes, off + 6);
        lemma_attributes_code_sized(
            bytes,
            off + 8,
            attributes_count as int,
            pool,
            opts,
            opts.max_attribute_depth as int,
            Seq::empty(),
        );
        crate::attribute::lemma_attributes_advances(
            bytes,
            off + 8,
            attributes_count as int,
            pool,
            opts,
            opts.max_attribute_depth as int,
            Seq::empty(),
        );
        match spec_parse_attributes(
            bytes,
            off + 8,
            attributes_count as int,
            pool,
            opts,
            opts.max_attribute_depth as int,
            Seq::empty(),
        ) {
            Err(_) => {},
            Ok((attributes, next)) => {
                match spec_parse_methods(bytes, off, rem, pool, opts, acc) {
                    Err(_) => {},
                    Ok(_) => {
                        let m = SpecMethod {
                            access_flags: crate::access_flags::MethodAccessFlag {
                                bits: be_u16(bytes, off),
                            },
                            name_index: be_u16(bytes, off + 2),
                            descriptor_index: be_u16(bytes, off + 4),
                            attributes_count,
                            attributes,
                        };
                        assert(methods_code_sized(acc.push(m)));
                        lemma_methods_code_sized(bytes, next, rem - 1, pool, opts, acc.push(m));
                    },
                }
            },
        }
    }
}

/// The attribute's stored `attribute_name_index` points at a `Utf8` entry of
/// the pool, and so does that of every attribute nested in its `Code` body.
pub open spec fn attr_name_resolves(pool: Seq<SpecConstant>, a: SpecAttribute) -> bool
    decreases a,
{
    &&& spec_resolve_utf8(pool, spec_attr_name_index(a)) is Some
    &&& match a {
        SpecAttribute::Code { attributes, .. } => forall|i: int|
            0 <= i < attributes.len() ==> attr_name_resolves(pool, #[trigger] attributes[i]),
        _ => true,
    }
}

/// The `attribute_name_index` an attribute was decoded from.
pub open spec fn spec_attr_name_index(a: SpecAttribute) -> u16 {
    match a {
        SpecAttribute::ConstantValue { attribute_name_index, .. } => attribute_name_index,
        SpecAttribute::Code { attribute_name_index, .. } => attribute_name_index,
        SpecAttribute::InnerClasses { attribute_name_index, .. } => attribute_name_index,
        SpecAttribute::SourceFile { attribute_name_index, .. } => attribute_name_index,
        SpecAttribute::LineNumberTable { attribute_name_index, .. } => attribute_name_index,
        SpecAttribute::BootstrapMethods { attribute_name_index, .. } => attribute_name_index,
        SpecAttribute::MethodParameters { attribute_name_index, .. } => attribute_name_index,
        SpecAttribute::NestMembers { attribute_name_index, .. } => attribute_name_index,
    }
}

/// [`attr_name_resolves`], over every attribute of a list.
pub open spec fn attrs_names_resolve(pool: Seq<SpecConstant>, attrs: Seq<SpecAttribute>) -> bool {
    forall|i: int| 0 <= i < attrs.len() ==> attr_name_resolves(pool, #[trigger] attrs[i])
}

/// [`attr_name_resolves`], over every attribute of every field of a table.
pub open spec fn fields_names_resolve(pool: Seq<SpecConstant>, fs: Seq<SpecField>) -> bool {
    forall|i: int| 0 <= i < fs.len() ==> attrs_names_resolve(pool, (#[trigger] fs[i]).attributes)
}

/// [`attr_name_resolves`], over every attribute of every method of a table.
pub open spec fn methods_names_resolve(pool: Seq<SpecConstant>, ms: Seq<SpecMethod>) -> bool {
    forall|i: int| 0 <= i < ms.len() ==> attrs_names_resolve(pool, (#[trigger] ms[i]).attributes)
}

proof fn lemma_attribute_names_resolve(
    bytes: Seq<u8>,
    off: int,
    pool: Seq<SpecConstant>,
    opts: ParseOptions,
    depth: int,
)
    ensures
        spec_parse_attribute(bytes, off, pool, opts, depth) matches Ok(r) ==> (r.0 matches Some(a)
            ==> attr_name_resolves(pool, a)),
    decreases depth, 0int, 1int,
{
    if depth <= 0 {
    } else if off + 2 > bytes.len() {
    } else if off + 6 > bytes.len() {
    } else {
        match spec_resolve_utf8(pool, be_u16(bytes, off)) {
            None => {},
            Some(name) => {
                if vstd::utf8::valid_utf8(name) {
                    match spec_attr_name_kind(name) {
                        AttrKind::Code => {
                            lemma_code_names_resolve(
                                bytes,
                                off + 6,
                                pool,
                                opts,
                                depth,
                                be_u16(bytes, off),
                                be_u32(bytes, off + 2),
                            );
                        },
                        _ => {},
                    }
                }
            },
        }
    }
}

proof fn lemma_code_names_resolve(
    bytes: Seq<u8>,
    off: int,
    pool: Seq<SpecConstant>,
    opts: ParseOptions,
    depth: int,
    attribute_name_index: u16,
    attribute_length: u32,
)
    requires
        spec_resolve_utf8(pool, attribute_name_index) is Some,
    ensures
        spec_parse_code(bytes, off, pool, opts, depth, attribute_name_index, attribute_length)
            matches Ok(r) ==> attr_name_resolves(pool, r.0),
    decreases depth, 0int, 0int,
{
    if depth <= 0 {
    } else if off + 8 > bytes.len() {
    } else {
        let code_length = be_u32(bytes, off + 4);
        match spec_parse_instrs(bytes, off + 8, off + 8 + code_length, off + 8, Seq::empty()) {
            Err(_) => {},
            Ok((code, code_end)) => {
                if code_end + 2 <= bytes.len() {
                    match crate::attribute::spec_exception_entries(
                        bytes,
                        code_end + 2,
                        be_u16(bytes, code_end) as int,
                        Seq::empty(),
                    ) {
                        Err(_) => {},
                        Ok((_, et_end)) => {
                            if et_end + 2 <= bytes.len() {
                                lemma_attributes_names_resolve(
                                    bytes,
                                    et_end + 2,
                                    be_u16(bytes, et_end) as int,
                                    pool,
                                    opts,
                                    depth - 1,
                                    Seq::empty(),
                                );
                            }
                        },
                    }
                }
            },
        }
    }
}

proof fn lemma_attributes_names_resolve(
    bytes: Seq<u8>,
    off: int,
    rem: int,
    pool: Seq<SpecConstant>,
    opts: ParseOptions,
    depth: int,
    acc: Seq<SpecAttribute>,
)
    requires
        attrs_names_resolve(pool, acc),
    ensures
        spec_parse_attributes(bytes, off, rem, pool, opts, depth, acc) matches Ok(r)
            ==> attrs_names_resolve(pool, r.0),
    decreases depth, rem, 2int,
{
    if rem <= 0 {
    } else if depth <= 0 {
    } else {
        match spec_parse_attribute(bytes, off, pool, opts, depth) {
            Err(_) => {},
            Ok((kept, next)) => {
                lemma_attribute_names_resolve(bytes, off, pool, opts, depth);
                let acc2 = match kept {
                    Some(a) => acc.push(a),
                    None => acc,
                };
                assert(attrs_names_resolve(pool, acc2));
                lemma_attributes_names_resolve(bytes, next, rem - 1, pool, opts, depth, acc2);
            },
        }
    }
}

proof fn lemma_fields_names_resolve(
    bytes: Seq<u8>,
    off: int,
    rem: int,
    pool: Seq<SpecConstant>,
    opts: ParseOptions,
    acc: Seq<SpecField>,
)
    requires
        fields_names_resolve(pool, acc),
    ensures
        spec_parse_fields(bytes, off, rem, pool, opts, acc) matches Ok(r) ==> fields_names_resolve(
            pool,
            r.0,
        ),
    decreases rem,
{
    if rem <= 0 {
    } else if off + 8 > bytes.len() {
    } else {
        let attributes_count = be_u16(bytes, off + 6);
        lemma_attributes_names_resolve(
            bytes,
            off + 8,
            attributes_count as int,
            pool,
            opts,
            opts.max_attribute_depth as int,
            Seq::empty(),
        );
        match spec_parse_attributes(
            bytes,
            off + 8,
            attributes_count as int,
            pool,
            opts,
            opts.max_attribute_depth as int,
            Seq::empty(),
        ) {
            Err(_) => {},
            Ok((attributes, next)) => {
                match spec_parse_fields(bytes, off, rem, pool, opts, acc) {
                    Err(_) => {},
                    Ok(_) => {
                        let f = SpecField {
                            access_flags: crate::access_flags::FieldAccessFlag {
                                bits: be_u16(bytes, off),
                            },
                            name_index: be_u16(bytes, off + 2),
                            descriptor_index: be_u16(bytes, off + 4),
                            attributes_count,
                            attributes,
                        };
                        assert(fields_names_resolve(pool, acc.push(f)));
                        lemma_fields_names_resolve(bytes, next, rem - 1, pool, opts, acc.push(f));
                    },
                }
            },
        }
    }
}

proof fn lemma_methods_names_resolve(
    bytes: Seq<u8>,
    off: int,
    rem: int,
    pool: Seq<SpecConstant>,
    opts: ParseOptions,
    acc: Seq<SpecMethod>,
)
    requires
        methods_names_resolve(pool, acc),
    ensures
        spec_parse_methods(bytes, off, rem, pool, opts, acc) matches Ok(r)
            ==> methods_names_resolve(pool, r.0),
    decreases rem,
{
    if rem <= 0 {
    } else if off + 8 > bytes.len() {
    } else {
        let attributes_count = be_u16(bytes, off + 6);
        lemma_attributes_names_resolve(
            bytes,
            off + 8,
            attributes_count as int,
            pool,
            opts,
            opts.max_attribute_depth as int,
            Seq::empty(),
        );
        match spec_parse_attributes(
            bytes,
            off + 8,
            attributes_count as int,
            pool,
            opts,
            opts.max_attribute_depth as int,
            Seq::empty(),
        ) {
            Err(_) => {},
            Ok((attributes, next)) => {
                match spec_parse_methods(bytes, off, rem, pool, opts, acc) {
                    Err(_) => {},
                    Ok(_) => {
                        let m = SpecMethod {
                            access_flags: crate::access_flags::MethodAccessFlag {
                                bits: be_u16(bytes, off),
                            },
                            name_index: be_u16(bytes, off + 2),
                            descriptor_index: be_u16(bytes, off + 4),
                            attributes_count,
                            attributes,
                        };
                        assert(methods_names_resolve(pool, acc.push(m)));
                        lemma_methods_names_resolve(bytes, next, rem - 1, pool, opts, acc.push(m));
                    },
                }
            },
        }
    }
}

/// Every attribute of a parsed class image — on the class, a field, a
/// method, or nested inside a `Code` attribute — carries an
/// `attribute_name_index` that points at a `Utf8` entry of the image's own
/// constant pool.
pub proof fn lemma_attribute_names_resolve_in_class(bytes: Seq<u8>, opts: ParseOptions, off: int)
    ensures
        spec_parse_class(bytes, opts, off) matches Ok(r) ==> attrs_names_resolve(
            r.0.constant_pool,
            r.0.attributes,
        ) && fields_names_resolve(r.0.constant_pool, r.0.fields) && methods_names_resolve(
            r.0.constant_pool,
            r.0.methods,
        ),
{
    if off + 10 <= bytes.len() && be_u32(bytes, off) == CLASS_MAGIC {
        match spec_parse_pool(bytes, off + 10, spec_class_pool_count(bytes, off), Seq::empty()) {
            Err(_) => {},
            Ok((pool, p_end)) => {
                if p_end + 8 <= bytes.len() {
                    match spec_u16s(bytes, p_end + 8, be_u16(bytes, p_end + 6) as int, Seq::empty())
                        {
                        Err(_) => {},
                        Ok((_, i_end)) => {
                            if i_end + 2 <= bytes.len() {
                                lemma_fields_names_resolve(
                                    bytes,
                                    i_end + 2,
                                    be_u16(bytes, i_end) as int,
                                    pool,
                                    opts,
                                    Seq::empty(),
                                );
                                match spec_parse_fields(
                                    bytes,
                                    i_end + 2,
                                    be_u16(bytes, i_end) as int,
                                    pool,
                                    opts,
                                    Seq::empty(),
                                ) {
                                    Err(_) => {},
                                    Ok((_, f_end)) => {
                                        if f_end + 2 <= bytes.len() {
                                            lemma_methods_names_resolve(
                                                bytes,
                                                f_end + 2,
                                                be_u16(bytes, f_end) as int,
                                                pool,
                                                opts,
                                                Seq::empty(),
                                            );
                                            match spec_parse_methods(
                                                bytes,
                                                f_end + 2,
                                                be_u16(bytes, f_end) as int,
                                                pool,
                                                opts,
                                                Seq::empty(),
                                            ) {
                                                Err(_) => {},
                                                Ok((_, m_end)) => {
                                                    if m_end + 2 <= bytes.len() {
                                                        lemma_attributes_names_resolve(
                                                            bytes,
                                                            m_end + 2,
                                                            be_u16(bytes, m_end) as int,
                                                            pool,
                                                            opts,
                                                            opts.max_attribute_depth as int,
                                                            Seq::empty(),
                                                        );
                                                    }
                                                },
                                            }
                                        }
                                    },
                                }
                            }
                        },
                    }
                }
            },
        }
    }
}

/// For every `Code` attribute of a parsed class image — on a method, a
/// field, the class, or nested inside another `Code` attribute — the decoded
/// instructions span exactly `code_length` bytes.
pub proof fn lemma_code_lengths_exact(bytes: Seq<u8>, opts: ParseOptions, off: int)
    requires
        0 <= off,
    ensures
        spec_parse_class(bytes, opts, off) matches Ok(r) ==> attrs_code_sized(r.0.attributes)
            && fields_code_sized(r.0.fields) && methods_code_sized(r.0.methods),
{
    if off + 10 <= bytes.len() && be_u32(bytes, off) == CLASS_MAGIC {
        crate::constant_pool::lemma_pool_advances(
            bytes,
            off + 10,
            spec_class_pool_count(bytes, off),
            Seq::empty(),
        );
        match spec_parse_pool(bytes, off + 10, spec_class_pool_count(bytes, off), Seq::empty()) {
            Err(_) => {},
            Ok((pool, p_end)) => {
                if p_end + 8 <= bytes.len() {
                    crate::wire::lemma_u16s_advances(
                        bytes,
                        p_end + 8,
                        be_u16(bytes, p_end + 6) as int,
                        Seq::empty(),
                    );
                    match spec_u16s(bytes, p_end + 8, be_u16(bytes, p_end + 6) as int, Seq::empty())
                        {
                        Err(_) => {},
                        Ok((_, i_end)) => {
                            if i_end + 2 <= bytes.len() {
                                lemma_fields_code_sized(
                                    bytes,
                                    i_end + 2,
                                    be_u16(bytes, i_end) as int,
                                    pool,
                                    opts,
                                    Seq::empty(),
                                );
                                crate::field::lemma_fields_advances(
                                    bytes,
                                    i_end + 2,
                                    be_u16(bytes, i_end) as int,
                                    pool,
                                    opts,
                                    Seq::empty(),
                                );
                                match spec_parse_fields(
                                    bytes,
                                    i_end + 2,
                                    be_u16(bytes, i_end) as int,
                                    pool,
                                    opts,
                                    Seq::empty(),
                                ) {
                                    Err(_) => {},
                                    Ok((_, f_end)) => {
                                        if f_end + 2 <= bytes.len() {
                                            lemma_methods_code_sized(
                                                bytes,
                                                f_end + 2,
                                                be_u16(bytes, f_end) as int,
                                                pool,
                                                opts,
                                                Seq::empty(),
                                            );
                                            crate::method::lemma_methods_advances(
                                                bytes,
                                                f_end + 2,
                                                be_u16(bytes, f_end) as int,
                                                pool,
                                                opts,
                                                Seq::empty(),
                                            );
                                            match spec_parse_methods(
                                                bytes,
                                                f_end + 2,
                                                be_u16(bytes, f_end) as int,
                                                pool,
                                                opts,
                                                Seq::empty(),
                                            ) {
                                                Err(_) => {},
                                                Ok((_, m_end)) => {
                                                    if m_end + 2 <= bytes.len() {
                                                        lemma_attributes_code_sized(
                                                            bytes,
                                                            m_end + 2,
                                                            be_u16(bytes, m_end) as int,
                                                            pool,
                                                            opts,
                                                            opts.max_attribute_depth as int,
                                                            Seq::empty(),
                                                        );
                                                    }
                                                },
                                            }
                                        }
                                    },
                                }
                            }
                        },
                    }
                }
            },
        }
    }
}

} // verus!
