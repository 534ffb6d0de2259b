//! The class parser: a byte cursor plus one reader per construct.
//!
//! Every reader's contract says that it returns exactly what the spec-level
//! parser of its construct returns on the same bytes and offset — for
//! successes and for failures alike.  The cursor is the only place where
//! bounds are checked; every reader above it inherits `Truncated` from it.

use vstd::prelude::*;

use crate::attribute::{
    attr_name_kind, attrs_view, bootstrap_view, spec_bootstrap_entries, spec_exception_entries,
    spec_inner_class_entries, spec_line_number_entries, spec_parameter_entries,
    spec_parse_attribute, spec_parse_attributes, spec_parse_code, spec_parse_line_number_table,
    spec_resolve_utf8, utf8_ok, AttrKind, Attribute, BootstrapMethodAttribute,
    ExceptionTableEntry, InnerClassAttribute, LineNumberTableEntry, ParameterAttribute,
    SpecAttribute,
};
use crate::access_flags::{
    ClassAccessFlag, FieldAccessFlag, InnerClassAccessFlag, MethodAccessFlag,
    ParameterAccessFlag, CLASS_FLAGS_MASK, FIELD_FLAGS_MASK, INNER_CLASS_FLAGS_MASK,
    METHOD_FLAGS_MASK, PARAMETER_FLAGS_MASK,
};
use crate::constant_pool::{
    pool_view, spec_parse_pool, spec_parse_pool_entry, Constant, ConstantTag, ReferenceKind,
};
use crate::error::{ErrorType, SpecError};
use crate::field::{fields_view, spec_parse_fields, Field, SpecField};
use crate::method::{methods_view, spec_parse_methods, Method, SpecMethod};
use crate::options::{AccessBitsPolicy, AttributePolicy};
use crate::raw_class::{spec_parse_class, RawClass, SpecRawClass, CLASS_MAGIC};
use crate::wire::spec_u16s;
use crate::opcode::{
    instrs_view, lemma_instr_advances, spec_parse_instr, spec_parse_instrs, window_check,
    Instruction, Opcode, OperandShape,
};
use crate::options::ParseOptions;
use crate::wire::{be_i32_val, be_u16, be_u32};

verus! {

/// The big-endian `u32` spelled by the four bytes of `s` at `pos`.
fn be_u32_at(s: &[u8], pos: usize) -> (r: u32)
    requires
        pos + 4 <= s@.len(),
    ensures
        r == be_u32(s@, pos as int),
{
    let b0 = s[pos];
    let b1 = s[pos + 1];
    let b2 = s[pos + 2];
    let b3 = s[pos + 3];
    (b0 as u32) * 0x1000000 + (b1 as u32) * 0x10000 + (b2 as u32) * 0x100 + (b3 as u32)
}

/// The big-endian two's-complement `i32` spelled by the four bytes of `s` at
/// `pos`.
fn be_i32_at(s: &[u8], pos: usize) -> (r: i32)
    requires
        pos + 4 <= s@.len(),
    ensures
        r as int == be_i32_val(s@, pos as int),
{
    let u = be_u32_at(s, pos);
    if u >= 0x8000_0000 {
        let m = (u as i64) - 0x1_0000_0000i64;
        m as i32
    } else {
        u as i32
    }
}

/// The class parser.  Construct it over a borrowed byte buffer, then call
/// [`ClassParser::parse`].
pub struct ClassParser<'c> {
    bytes: &'c [u8],
    offset: usize,
    options: ParseOptions,
}

impl<'c> ClassParser<'c> {
    /// The buffer being parsed.
    pub closed spec fn spec_bytes(&self) -> Seq<u8> {
        self.bytes@
    }

    /// The cursor's current offset.
    pub closed spec fn spec_offset(&self) -> int {
        self.offset as int
    }

    /// The policies the parser was constructed with.
    pub closed spec fn spec_options(&self) -> ParseOptions {
        self.options
    }

    /// The cursor never sits past the end of the buffer.
    pub open spec fn inv(&self) -> bool {
        self.spec_offset() <= self.spec_bytes().len()
    }

    /// True when `other` parses the same buffer under the same options.
    pub open spec fn same_source(&self, other: &ClassParser<'c>) -> bool {
        self.spec_bytes() == other.spec_bytes() && self.spec_options() == other.spec_options()
    }

    /// Creates a parser over `bytes` with the default policies.
    pub fn from_bytes(bytes: &'c [u8]) -> (r: ClassParser<'c>)
        ensures
            r.spec_bytes() == bytes@,
            r.spec_offset() == 0,
            r.spec_options() == ParseOptions::spec_default(),
            r.inv(),
    {
        ClassParser { bytes, offset: 0, options: ParseOptions::default() }
    }

    /// Creates a parser over `bytes` with the given policies.
    pub fn with_options(bytes: &'c [u8], options: ParseOptions) -> (r: ClassParser<'c>)
        ensures
            r.spec_bytes() == bytes@,
            r.spec_offset() == 0,
            r.spec_options() == options,
            r.inv(),
    {
        ClassParser { bytes, offset: 0, options }
    }

    /// Reads one byte and advances; `Truncated` at the end of the buffer.
    fn read_u8(&mut self) -> (r: Result<u8, ErrorType>)
        requires
            old(self).inv(),
        ensures
            final(self).inv(),
            final(self).same_source(old(self)),
            match r {
                Ok(v) => old(self).spec_offset() + 1 <= old(self).spec_bytes().len()
                    && final(self).spec_offset() == old(self).spec_offset() + 1
                    && v == old(self).spec_bytes()[old(self).spec_offset()],
                Err(e) => e@ == SpecError::Truncated
                    && old(self).spec_offset() + 1 > old(self).spec_bytes().len()
                    && final(self).spec_offset() == old(self).spec_offset(),
            },
    {
        if self.bytes.len() - self.offset >= 1 {
            let v = self.bytes[self.offset];
            self.offset = self.offset + 1;
            Ok(v)
        } else {
            Err(ErrorType::Truncated)
        }
    }

    /// Reads a big-endian `u16` and advances by two.
    fn read_u16_be(&mut self) -> (r: Result<u16, ErrorType>)
        requires
            old(self).inv(),
        ensures
            final(self).inv(),
            final(self).same_source(old(self)),
            match r {
                Ok(v) => old(self).spec_offset() + 2 <= old(self).spec_bytes().len()
                    && final(self).spec_offset() == old(self).spec_offset() + 2
                    && v == be_u16(old(self).spec_bytes(), old(self).spec_offset()),
                Err(e) => e@ == SpecError::Truncated
                    && old(self).spec_offset() + 2 > old(self).spec_bytes().len()
                    && final(self).spec_offset() == old(self).spec_offset(),
            },
    {
        if self.bytes.len() - self.offset >= 2 {
            let b0 = self.bytes[self.offset];
            let b1 = self.bytes[self.offset + 1];
            self.offset = self.offset + 2;
            Ok((b0 as u16) * 0x100 + (b1 as u16))
        } else {
            Err(ErrorType::Truncated)
        }
    }

    /// Reads a big-endian `u32` and advances by four.
    fn read_u32_be(&mut self) -> (r: Result<u32, ErrorType>)
        requires
            old(self).inv(),
        ensures
            final(self).inv(),
            final(self).same_source(old(self)),
            match r {
                Ok(v) => old(self).spec_offset() + 4 <= old(self).spec_bytes().len()
                    && final(self).spec_offset() == old(self).spec_offset() + 4
                    && v == be_u32(old(self).spec_bytes(), old(self).spec_offset()),
                Err(e) => e@ == SpecError::Truncated
                    && old(self).spec_offset() + 4 > old(self).spec_bytes().len()
                    && final(self).spec_offset() == old(self).spec_offset(),
            },
    {
        if self.bytes.len() - self.offset >= 4 {
            let b0 = self.bytes[self.offset];
            let b1 = self.bytes[self.offset + 1];
            let b2 = self.bytes[self.offset + 2];
            let b3 = self.bytes[self.offset + 3];
            self.offset = self.offset + 4;
            Ok((b0 as u32) * 0x1000000 + (b1 as u32) * 0x10000 + (b2 as u32) * 0x100 + (b3 as u32))
        } else {
            Err(ErrorType::Truncated)
        }
    }

    /// Reads a big-endian two's-complement `i32` and advances by four.
    fn read_i32_be(&mut self) -> (r: Result<i32, ErrorType>)
        requires
            old(self).inv(),
        ensures
            final(self).inv(),
            final(self).same_source(old(self)),
            match r {
                Ok(v) => old(self).spec_offset() + 4 <= old(self).spec_bytes().len()
                    && final(self).spec_offset() == old(self).spec_offset() + 4
                    && v as int == be_i32_val(old(self).spec_bytes(), old(self).spec_offset()),
                Err(e) => e@ == SpecError::Truncated
                    && old(self).spec_offset() + 4 > old(self).spec_bytes().len()
                    && final(self).spec_offset() == old(self).spec_offset(),
            },
    {
        let u = match self.read_u32_be() {
            Ok(u) => u,
            Err(e) => {
                return Err(e);
            },
        };
        if u >= 0x8000_0000 {
            let m = (u as i64) - 0x1_0000_0000i64;
            Ok(m as i32)
        } else {
            Ok(u as i32)
        }
    }

    /// Borrows the next `n` bytes of the buffer and advances past them.
    fn read_bytes(&mut self, n: usize) -> (r: Result<&'c [u8], ErrorType>)
        requires
            old(self).inv(),
        ensures
            final(self).inv(),
            final(self).same_source(old(self)),
            match r {
                Ok(s) => old(self).spec_offset() + n <= old(self).spec_bytes().len()
                    && final(self).spec_offset() == old(self).spec_offset() + n
                    && s@ == old(self).spec_bytes().subrange(
                    old(self).spec_offset(),
                    old(self).spec_offset() + n,
                ),
                Err(e) => e@ == SpecError::Truncated
                    && old(self).spec_offset() + n > old(self).spec_bytes().len()
                    && final(self).spec_offset() == old(self).spec_offset(),
            },
    {
        if self.bytes.len() - self.offset >= n {
            let s = vstd::slice::slice_subrange(self.bytes, self.offset, self.offset + n);
            self.offset = self.offset + n;
            Ok(s)
        } else {
            Err(ErrorType::Truncated)
        }
    }

    /// Reads one constant pool entry; the flag says whether it occupies two
    /// slots (`Long`/`Double`).
    fn read_pool_entry(&mut self) -> (r: Result<(Constant<'c>, bool), ErrorType>)
        requires
            old(self).inv(),
        ensures
            final(self).inv(),
            final(self).same_source(old(self)),
            match r {
                Ok((c, wide)) => spec_parse_pool_entry(
                    old(self).spec_bytes(),
                    old(self).spec_offset(),
                ) == Ok::<_, SpecError>((c@, wide, final(self).spec_offset())),
                Err(e) => spec_parse_pool_entry(old(self).spec_bytes(), old(self).spec_offset())
                    == Err::<(crate::constant_pool::SpecConstant, bool, int), SpecError>(e@),
            },
    {
        let tag_byte = match self.read_u8() {
            Ok(v) => v,
            Err(e) => {
                return Err(e);
            },
        };
        let tag = match ConstantTag::of(tag_byte) {
            Ok(t) => t,
            Err(e) => {
                return Err(e);
            },
        };
        let entry: Constant<'c>;
        let mut wide: bool = false;
        match tag {
                ConstantTag::Class => {
                    let name_index = match self.read_u16_be() {
                        Ok(v) => v,
                        Err(e) => {
                            return Err(e);
                        },
                    };
                    entry = Constant::Class { tag, name_index };
                },
                ConstantTag::Fieldref => {
                    let class_index = match self.read_u16_be() {
                        Ok(v) => v,
                        Err(e) => {
                            return Err(e);
                        },
                    };
                    let name_and_type_index = match self.read_u16_be() {
                        Ok(v) => v,
                        Err(e) => {
                            return Err(e);
                        },
                    };
                    entry = Constant::Fieldref { tag, class_index, name_and_type_index };
                },
                ConstantTag::Methodref => {
                    let class_index = match self.read_u16_be() {
                        Ok(v) => v,
                        Err(e) => {
                            return Err(e);
                        },
                    };
                    let name_and_type_index = match self.read_u16_be() {
                        Ok(v) => v,
                        Err(e) => {
                            return Err(e);
                        },
                    };
                    entry = Constant::Methodref { tag, class_index, name_and_type_index };
                },
                ConstantTag::InterfaceMethodref => {
                    let class_index = match self.read_u16_be() {
                        Ok(v) => v,
                        Err(e) => {
                            return Err(e);
                        },
                    };
                    let name_and_type_index = match self.read_u16_be() {
                        Ok(v) => v,
                        Err(e) => {
                            return Err(e);
                        },
                    };
                    entry = Constant::InterfaceMethodref { tag, class_index, name_and_type_index };
                },
                ConstantTag::String => {
                    let string_index = match self.read_u16_be() {
                        Ok(v) => v,
                        Err(e) => {
                            return Err(e);
                        },
                    };
                    entry = Constant::String { tag, string_index };
                },
                ConstantTag::Integer => {
                    let value = match self.read_i32_be() {
                        Ok(v) => v,
                        Err(e) => {
                            return Err(e);
                        },
                    };
                    entry = Constant::Integer { tag, value };
                },
                ConstantTag::Float => {
                    let raw = match self.read_bytes(4) {
                        Ok(v) => v,
                        Err(e) => {
                            return Err(e);
                        },
                    };
                    entry = Constant::Float { tag, bytes: raw };
                },
                ConstantTag::Long => {
                    let high_bytes = match self.read_u32_be() {
                        Ok(v) => v,
                        Err(e) => {
                            return Err(e);
                        },
                    };
                    let low_bytes = match self.read_u32_be() {
                        Ok(v) => v,
                        Err(e) => {
                            return Err(e);
                        },
                    };
                    entry = Constant::Long { tag, high_bytes, low_bytes };
                    wide = true;
                },
                ConstantTag::Double => {
                    let high_bytes = match self.read_u32_be() {
                        Ok(v) => v,
                        Err(e) => {
                            return Err(e);
                        },
                    };
                    let low_bytes = match self.read_u32_be() {
                        Ok(v) => v,
                        Err(e) => {
                            return Err(e);
                        },
                    };
                    entry = Constant::Double { tag, high_bytes, low_bytes };
                    wide = true;
                },
                ConstantTag::NameAndType => {
                    let name_index = match self.read_u16_be() {
                        Ok(v) => v,
                        Err(e) => {
                            return Err(e);
                        },
                    };
                    let descriptor_index = match self.read_u16_be() {
                        Ok(v) => v,
                        Err(e) => {
                            return Err(e);
                        },
                    };
                    entry = Constant::NameAndType { tag, name_index, descriptor_index };
                },
                ConstantTag::Utf8 => {
                    let length = match self.read_u16_be() {
                        Ok(v) => v,
                        Err(e) => {
                            return Err(e);
                        },
                    };
                    let raw = match self.read_bytes(length as usize) {
                        Ok(v) => v,
                        Err(e) => {
                            return Err(e);
                        },
                    };
                    entry = Constant::Utf8 { tag, length, bytes: raw };
                },
                ConstantTag::MethodHandle => {
                    let kind_byte = match self.read_u8() {
                        Ok(v) => v,
                        Err(e) => {
                            return Err(e);
                        },
                    };
                    let reference_index = match self.read_u16_be() {
                        Ok(v) => v,
                        Err(e) => {
                            return Err(e);
                        },
                    };
                    let reference_kind = match ReferenceKind::of(kind_byte) {
                        Ok(k) => k,
                        Err(e) => {
                            return Err(e);
                        },
                    };
                    entry = Constant::MethodHandle { tag, reference_kind, reference_index };
                },
                ConstantTag::MethodType => {
                    let descriptor_index = match self.read_u16_be() {
                        Ok(v) => v,
                        Err(e) => {
                            return Err(e);
                        },
                    };
                    entry = Constant::MethodType { tag, descriptor_index };
                },
                ConstantTag::InvokeDynamic => {
                    let bootstrap_method_attr_index = match self.read_u16_be() {
                        Ok(v) => v,
                        Err(e) => {
                            return Err(e);
                        },
                    };
                    let name_and_type_index = match self.read_u16_be() {
                        Ok(v) => v,
                        Err(e) => {
                            return Err(e);
                        },
                    };
                    entry = Constant::InvokeDynamic {
                        tag,
                        bootstrap_method_attr_index,
                        name_and_type_index,
                    };
                },
        }
        Ok((entry, wide))
    }

    /// Reads the constant pool of a file whose `constant_pool_count` field is
    /// `constant_pool_count`: `constant_pool_count - 1` slots, stored densely
    /// with a sentinel after each `Long` or `Double`.
    #[verifier::loop_isolation(false)]
    fn read_constant_pool(&mut self, constant_pool_count: u16) -> (r: Result<
        Vec<Constant<'c>>,
        ErrorType,
    >)
        requires
            old(self).inv(),
        ensures
            final(self).inv(),
            final(self).same_source(old(self)),
            match r {
                Ok(pool) => spec_parse_pool(
                    old(self).spec_bytes(),
                    old(self).spec_offset(),
                    constant_pool_count - 1,
                    Seq::empty(),
                ) == Ok::<_, SpecError>((pool_view(pool@), final(self).spec_offset())),
                Err(e) => spec_parse_pool(
                    old(self).spec_bytes(),
                    old(self).spec_offset(),
                    constant_pool_count - 1,
                    Seq::empty(),
                ) == Err::<(Seq<crate::constant_pool::SpecConstant>, int), SpecError>(e@),
            },
    {
        let ghost bytes = self.spec_bytes();
        let ghost off0 = self.spec_offset();
        let mut pool: Vec<Constant<'c>> = Vec::new();
        let mut i: u16 = 1;
        proof {
            assert(pool_view(pool@) =~= Seq::<crate::constant_pool::SpecConstant>::empty());
        }
        while i < constant_pool_count
            invariant
                self.inv(),
                self.same_source(old(self)),
                self.spec_bytes() == bytes,
                1 <= i,
                i <= constant_pool_count || constant_pool_count == 0,
                spec_parse_pool(bytes, off0, constant_pool_count - 1, Seq::empty())
                    == spec_parse_pool(
                    bytes,
                    self.spec_offset(),
                    constant_pool_count - i,
                    pool_view(pool@),
                ),
            decreases constant_pool_count - i,
        {
            let ghost cur = self.spec_offset();
            let ghost acc = pool_view(pool@);
            let ghost rem = constant_pool_count - i;
            let (entry, wide) = match self.read_pool_entry() {
                Ok(p) => p,
                Err(e) => {
                    proof {
                        assert(spec_parse_pool(bytes, cur, rem, acc) == Err::<
                            (Seq<crate::constant_pool::SpecConstant>, int),
                            SpecError,
                        >(e@));
                    }
                    return Err(e);
                },
            };
            if wide {
                if constant_pool_count - i == 1 {
                    proof {
                        assert(spec_parse_pool(bytes, cur, rem, acc) == Err::<
                            (Seq<crate::constant_pool::SpecConstant>, int),
                            SpecError,
                        >(SpecError::MalformedPool));
                    }
                    return Err(ErrorType::MalformedPool);
                }
                pool.push(entry);
                pool.push(Constant::Unusable);
                proof {
                    assert(pool_view(pool@) =~= acc.push(entry@).push(
                        crate::constant_pool::SpecConstant::Unusable,
                    ));
                    assert(spec_parse_pool(bytes, cur, rem, acc) == spec_parse_pool(
                        bytes,
                        self.spec_offset(),
                        rem - 2,
                        pool_view(pool@),
                    ));
                }
                i = i + 2;
            } else {
                pool.push(entry);
                proof {
                    assert(pool_view(pool@) =~= acc.push(entry@));
                    assert(spec_parse_pool(bytes, cur, rem, acc) == spec_parse_pool(
                        bytes,
                        self.spec_offset(),
                        rem - 1,
                        pool_view(pool@),
                    ));
                }
                i = i + 1;
            }
        }
        Ok(pool)
    }

    /// Checks that the bytes up to `to` can be read inside the instruction
    /// region ending at `ce`: past the buffer is `Truncated`, past the
    /// region's end while inside the buffer is `MalformedCode`.
    fn window_err(&self, ce: u128, to: u128) -> (r: Option<ErrorType>)
        ensures
            match window_check(self.spec_bytes().len() as int, ce as int, to as int) {
                None => r is None,
                Some(e) => r matches Some(e2) && e2@ == e,
            },
    {
        let len = self.bytes.len() as u128;
        if to <= ce && to <= len {
            None
        } else if len <= ce {
            Some(ErrorType::Truncated)
        } else {
            Some(ErrorType::MalformedCode)
        }
    }

    /// Decodes the single instruction whose opcode byte sits at `off` inside
    /// the region `[cs, ce)`.
    fn read_one_instr(&self, cs: usize, ce: u128, off: usize) -> (r: Result<
        (Instruction, usize),
        ErrorType,
    >)
        requires
            self.inv(),
            cs <= off,
            off as int <= self.spec_bytes().len(),
            (off as u128) < ce,
            ce <= cs as u128 + 0xFFFF_FFFFu128,
        ensures
            match r {
                Ok((ins, next)) => spec_parse_instr(
                    self.spec_bytes(),
                    cs as int,
                    ce as int,
                    off as int,
                ) == Ok::<_, SpecError>((ins@, next as int)) && off < next
                    && next <= self.spec_bytes().len() && next as u128 <= ce,
                Err(e) => spec_parse_instr(self.spec_bytes(), cs as int, ce as int, off as int)
                    == Err::<(crate::opcode::SpecInstruction, int), SpecError>(e@),
            },
    {
        proof {
            lemma_instr_advances(self.spec_bytes(), cs as int, ce as int, off as int);
        }
        if off >= self.bytes.len() {
            return Err(ErrorType::Truncated);
        }
        let b = self.bytes[off];
        let op = match Opcode::of(b) {
            Ok(op) => op,
            Err(e) => {
                return Err(e);
            },
        };
        let pc = (off - cs) as u32;
        match op.operand_shape() {
            OperandShape::Fixed(n) => {
                if let Some(e) = self.window_err(ce, off as u128 + 1 + n as u128) {
                    return Err(e);
                }
                let end = off + 1 + n as usize;
                let raw = vstd::slice::slice_subrange(self.bytes, off + 1, end);
                if matches!(op, Opcode::Invokedynamic) {
                    if !(raw[2] == 0 && raw[3] == 0) {
                        return Err(ErrorType::MalformedCode);
                    }
                } else if matches!(op, Opcode::Invokeinterface) {
                    if raw[3] != 0 {
                        return Err(ErrorType::MalformedCode);
                    }
                }
                let operands = vstd::slice::slice_to_vec(raw);
                Ok((Instruction { pc, opcode: op, operands }, end))
            },
            OperandShape::Wide => {
                if let Some(e) = self.window_err(ce, off as u128 + 2) {
                    return Err(e);
                }
                let b2 = self.bytes[off + 1];
                let op2 = match Opcode::of(b2) {
                    Ok(op2) => op2,
                    Err(e) => {
                        return Err(e);
                    },
                };
                if !op2.widenable() {
                    return Err(ErrorType::MalformedCode);
                }
                let n: usize = if matches!(op2, Opcode::Iinc) {
                    5
                } else {
                    3
                };
                if let Some(e) = self.window_err(ce, off as u128 + 1 + n as u128) {
                    return Err(e);
                }
                let end = off + 1 + n;
                let raw = vstd::slice::slice_subrange(self.bytes, off + 1, end);
                let operands = vstd::slice::slice_to_vec(raw);
                Ok((Instruction { pc, opcode: op, operands }, end))
            },
            OperandShape::TableSwitch => {
                let rel = off + 1 - cs;
                let pad = (4 - rel % 4) % 4;
                if let Some(e) = self.window_err(ce, off as u128 + 1 + pad as u128 + 12) {
                    return Err(e);
                }
                let header = off + 1 + pad;
                let low = be_i32_at(self.bytes, header + 4);
                let high = be_i32_at(self.bytes, header + 8);
                if low > high {
                    return Err(ErrorType::MalformedCode);
                }
                let count = (high as i64) - (low as i64) + 1;
                let end128 = header as u128 + 12 + 4 * count as u128;
                if let Some(e) = self.window_err(ce, end128) {
                    return Err(e);
                }
                let end = end128 as usize;
                let raw = vstd::slice::slice_subrange(self.bytes, off + 1, end);
                let operands = vstd::slice::slice_to_vec(raw);
                Ok((Instruction { pc, opcode: op, operands }, end))
            },
            OperandShape::LookupSwitch => {
                let rel = off + 1 - cs;
                let pad = (4 - rel % 4) % 4;
                if let Some(e) = self.window_err(ce, off as u128 + 1 + pad as u128 + 8) {
                    return Err(e);
                }
                let header = off + 1 + pad;
                let npairs = be_i32_at(self.bytes, header + 4);
                if npairs < 0 {
                    return Err(ErrorType::MalformedCode);
                }
                let end128 = header as u128 + 8 + 8 * npairs as u128;
                if let Some(e) = self.window_err(ce, end128) {
                    return Err(e);
                }
                let end = end128 as usize;
                let raw = vstd::slice::slice_subrange(self.bytes, off + 1, end);
                let operands = vstd::slice::slice_to_vec(raw);
                Ok((Instruction { pc, opcode: op, operands }, end))
            },
        }
    }

    /// Decodes the instruction stream of a `Code` attribute: the region of
    /// `code_length` bytes starting at the cursor.  On success the region is
    /// consumed exactly, and the returned offset is its end; the cursor
    /// itself does not move.
    #[verifier::loop_isolation(false)]
    fn read_instructions(&self, code_length: u32) -> (r: Result<
        (usize, Vec<Instruction>),
        ErrorType,
    >)
        requires
            self.inv(),
        ensures
            match r {
                Ok((end, code)) => spec_parse_instrs(
                    self.spec_bytes(),
                    self.spec_offset(),
                    self.spec_offset() + code_length,
                    self.spec_offset(),
                    Seq::empty(),
                ) == Ok::<_, SpecError>((instrs_view(code@), end as int)) && end
                    == self.spec_offset() + code_length && end <= self.spec_bytes().len(),
                Err(e) => spec_parse_instrs(
                    self.spec_bytes(),
                    self.spec_offset(),
                    self.spec_offset() + code_length,
                    self.spec_offset(),
                    Seq::empty(),
                ) == Err::<(Seq<crate::opcode::SpecInstruction>, int), SpecError>(e@),
            },
    {
        let cs = self.offset;
        let ghost bytes = self.spec_bytes();
        let ghost ce_spec = cs + code_length as int;
        let ce: u128 = cs as u128 + code_length as u128;
        let mut off: usize = cs;
        let mut code: Vec<Instruction> = Vec::new();
        proof {
            assert(instrs_view(code@) =~= Seq::<crate::opcode::SpecInstruction>::empty());
        }
        while (off as u128) < ce
            invariant
                cs <= off,
                off as int <= bytes.len(),
                off as u128 <= ce,
                spec_parse_instrs(bytes, cs as int, ce_spec, cs as int, Seq::empty())
                    == spec_parse_instrs(bytes, cs as int, ce_spec, off as int, instrs_view(code@)),
            decreases ce_spec - off,
        {
            let ghost cur = off as int;
            let ghost acc = instrs_view(code@);
            let (ins, next) = match self.read_one_instr(cs, ce, off) {
                Ok(p) => p,
                Err(e) => {
                    proof {
                        assert(spec_parse_instrs(bytes, cs as int, ce_spec, cur, acc) == Err::<
                            (Seq<crate::opcode::SpecInstruction>, int),
                            SpecError,
                        >(e@));
                    }
                    return Err(e);
                },
            };
            code.push(ins);
            proof {
                assert(instrs_view(code@) =~= acc.push(ins@));
                assert(spec_parse_instrs(bytes, cs as int, ce_spec, cur, acc) == spec_parse_instrs(
                    bytes,
                    cs as int,
                    ce_spec,
                    next as int,
                    instrs_view(code@),
                ));
            }
            off = next;
        }
        Ok((off, code))
    }

    /// Reads `n` big-endian `u16`s (interface indices, nest member indices,
    /// bootstrap method arguments).
    #[verifier::loop_isolation(false)]
    fn read_u16s(&mut self, n: u16) -> (r: Result<Vec<u16>, ErrorType>)
        requires
            old(self).inv(),
        ensures
            final(self).inv(),
            final(self).same_source(old(self)),
            match r {
                Ok(vs) => spec_u16s(
                    old(self).spec_bytes(),
                    old(self).spec_offset(),
                    n as int,
                    Seq::empty(),
                ) == Ok::<_, SpecError>((vs@, final(self).spec_offset())),
                Err(e) => spec_u16s(
                    old(self).spec_bytes(),
                    old(self).spec_offset(),
                    n as int,
                    Seq::empty(),
                ) == Err::<(Seq<u16>, int), SpecError>(e@),
            },
    {
        let ghost bytes = self.spec_bytes();
        let ghost off0 = self.spec_offset();
        let mut vs: Vec<u16> = Vec::new();
        let mut i: u16 = 0;
        while i < n
            invariant
                self.inv(),
                self.same_source(old(self)),
                self.spec_bytes() == bytes,
                i <= n,
                spec_u16s(bytes, off0, n as int, Seq::empty()) == spec_u16s(
                    bytes,
                    self.spec_offset(),
                    n - i,
                    vs@,
                ),
            decreases n - i,
        {
            let ghost cur = self.spec_offset();
            let ghost acc = vs@;
            let v = match self.read_u16_be() {
                Ok(v) => v,
                Err(e) => {
                    proof {
                        assert(spec_u16s(bytes, cur, n - i, acc) == Err::<
                            (Seq<u16>, int),
                            SpecError,
                        >(e@));
                    }
                    return Err(e);
                },
            };
            vs.push(v);
            proof {
                assert(spec_u16s(bytes, cur, n - i, acc) == spec_u16s(
                    bytes,
                    self.spec_offset(),
                    n - i - 1,
                    vs@,
                ));
            }
            i = i + 1;
        }
        Ok(vs)
    }

    /// Reads `n` exception table entries of a `Code` attribute.
    #[verifier::loop_isolation(false)]
    fn read_exception_table(&mut self, n: u16) -> (r: Result<Vec<ExceptionTableEntry>, ErrorType>)
        requires
            old(self).inv(),
        ensures
            final(self).inv(),
            final(self).same_source(old(self)),
            match r {
                Ok(es) => spec_exception_entries(
                    old(self).spec_bytes(),
                    old(self).spec_offset(),
                    n as int,
                    Seq::empty(),
                ) == Ok::<_, SpecError>((es@, final(self).spec_offset())),
                Err(e) => spec_exception_entries(
                    old(self).spec_bytes(),
                    old(self).spec_offset(),
                    n as int,
                    Seq::empty(),
                ) == Err::<(Seq<ExceptionTableEntry>, int), SpecError>(e@),
            },
    {
        let ghost bytes = self.spec_bytes();
        let ghost off0 = self.spec_offset();
        let mut es: Vec<ExceptionTableEntry> = Vec::new();
        let mut i: u16 = 0;
        while i < n
            invariant
                self.inv(),
                self.same_source(old(self)),
                self.spec_bytes() == bytes,
                i <= n,
                spec_exception_entries(bytes, off0, n as int, Seq::empty())
                    == spec_exception_entries(bytes, self.spec_offset(), n - i, es@),
            decreases n - i,
        {
            let ghost cur = self.spec_offset();
            let ghost acc = es@;
            let start_pc = match self.read_u16_be() {
                Ok(v) => v,
                Err(e) => {
                    return Err(e);
                },
            };
            let end_pc = match self.read_u16_be() {
                Ok(v) => v,
                Err(e) => {
                    return Err(e);
                },
            };
            let handler_pc = match self.read_u16_be() {
                Ok(v) => v,
                Err(e) => {
                    return Err(e);
                },
            };
            let catch_type = match self.read_u16_be() {
                Ok(v) => v,
                Err(e) => {
                    return Err(e);
                },
            };
            es.push(ExceptionTableEntry { start_pc, end_pc, handler_pc, catch_type });
            proof {
                assert(spec_exception_entries(bytes, cur, n - i, acc) == spec_exception_entries(
                    bytes,
                    self.spec_offset(),
                    n - i - 1,
                    es@,
                ));
            }
            i = i + 1;
        }
        Ok(es)
    }

    /// Reads `n` inner class entries of an `InnerClasses` attribute.
    #[verifier::loop_isolation(false)]
    fn read_inner_class_attributes(&mut self, n: u16) -> (r: Result<
        Vec<InnerClassAttribute>,
        ErrorType,
    >)
        requires
            old(self).inv(),
        ensures
            final(self).inv(),
            final(self).same_source(old(self)),
            match r {
                Ok(cs) => spec_inner_class_entries(
                    old(self).spec_bytes(),
                    old(self).spec_offset(),
                    n as int,
                    old(self).spec_options(),
                    Seq::empty(),
                ) == Ok::<_, SpecError>((cs@, final(self).spec_offset())),
                Err(e) => spec_inner_class_entries(
                    old(self).spec_bytes(),
                    old(self).spec_offset(),
                    n as int,
                    old(self).spec_options(),
                    Seq::empty(),
                ) == Err::<(Seq<InnerClassAttribute>, int), SpecError>(e@),
            },
    {
        let ghost bytes = self.spec_bytes();
        let ghost off0 = self.spec_offset();
        let ghost opts = self.spec_options();
        let mut cs: Vec<InnerClassAttribute> = Vec::new();
        let mut i: u16 = 0;
        while i < n
            invariant
                self.inv(),
                self.same_source(old(self)),
                self.spec_bytes() == bytes,
                self.spec_options() == opts,
                i <= n,
                spec_inner_class_entries(bytes, off0, n as int, opts, Seq::empty())
                    == spec_inner_class_entries(bytes, self.spec_offset(), n - i, opts, cs@),
            decreases n - i,
        {
            let ghost cur = self.spec_offset();
            let ghost acc = cs@;
            let inner_class_info_index = match self.read_u16_be() {
                Ok(v) => v,
                Err(e) => {
                    return Err(e);
                },
            };
            let outer_class_info_index = match self.read_u16_be() {
                Ok(v) => v,
                Err(e) => {
                    return Err(e);
                },
            };
            let inner_name_index = match self.read_u16_be() {
                Ok(v) => v,
                Err(e) => {
                    return Err(e);
                },
            };
            let flags = match self.read_u16_be() {
                Ok(v) => v,
                Err(e) => {
                    return Err(e);
                },
            };
            if matches!(self.options.on_unknown_access_bits, AccessBitsPolicy::Reject) && flags
                & !INNER_CLASS_FLAGS_MASK != 0 {
                return Err(ErrorType::UnknownAccessBits(flags));
            }
            cs.push(
                InnerClassAttribute {
                    inner_class_info_index,
                    outer_class_info_index,
                    inner_name_index,
                    inner_class_access_flags: InnerClassAccessFlag::from_bits(flags),
                },
            );
            proof {
                assert(spec_inner_class_entries(bytes, cur, n - i, opts, acc)
                    == spec_inner_class_entries(bytes, self.spec_offset(), n - i - 1, opts, cs@));
            }
            i = i + 1;
        }
        Ok(cs)
    }

    /// Reads `n` parameter entries of a `MethodParameters` attribute.
    #[verifier::loop_isolation(false)]
    fn read_method_parameter_attributes(&mut self, n: u8) -> (r: Result<
        Vec<ParameterAttribute>,
        ErrorType,
    >)
        requires
            old(self).inv(),
        ensures
            final(self).inv(),
            final(self).same_source(old(self)),
            match r {
                Ok(ps) => spec_parameter_entries(
                    old(self).spec_bytes(),
                    old(self).spec_offset(),
                    n as int,
                    old(self).spec_options(),
                    Seq::empty(),
                ) == Ok::<_, SpecError>((ps@, final(self).spec_offset())),
                Err(e) => spec_parameter_entries(
                    old(self).spec_bytes(),
                    old(self).spec_offset(),
                    n as int,
                    old(self).spec_options(),
                    Seq::empty(),
                ) == Err::<(Seq<ParameterAttribute>, int), SpecError>(e@),
            },
    {
        let ghost bytes = self.spec_bytes();
        let ghost off0 = self.spec_offset();
        let ghost opts = self.spec_options();
        let mut ps: Vec<ParameterAttribute> = Vec::new();
        let mut i: u8 = 0;
        while i < n
            invariant
                self.inv(),
                self.same_source(old(self)),
                self.spec_bytes() == bytes,
                self.spec_options() == opts,
                i <= n,
                spec_parameter_entries(bytes, off0, n as int, opts, Seq::empty())
                    == spec_parameter_entries(bytes, self.spec_offset(), n - i, opts, ps@),
            decreases n - i,
        {
            let ghost cur = self.spec_offset();
            let ghost acc = ps@;
            let name_index = match self.read_u16_be() {
                Ok(v) => v,
                Err(e) => {
                    return Err(e);
                },
            };
            let flags = match self.read_u16_be() {
                Ok(v) => v,
                Err(e) => {
                    return Err(e);
                },
            };
            if matches!(self.options.on_unknown_access_bits, AccessBitsPolicy::Reject) && flags
                & !PARAMETER_FLAGS_MASK != 0 {
                return Err(ErrorType::UnknownAccessBits(flags));
            }
            ps.push(
                ParameterAttribute { name_index, access_flags: ParameterAccessFlag::from_bits(flags) },
            );
            proof {
                assert(spec_parameter_entries(bytes, cur, n - i, opts, acc)
                    == spec_parameter_entries(bytes, self.spec_offset(), n - i - 1, opts, ps@));
            }
            i = i + 1;
        }
        Ok(ps)
    }

    /// Reads `n` bootstrap method entries of a `BootstrapMethods` attribute.
    #[verifier::loop_isolation(false)]
    fn read_bootstrap_method_attributes(&mut self, n: u16) -> (r: Result<
        Vec<BootstrapMethodAttribute>,
        ErrorType,
    >)
        requires
            old(self).inv(),
        ensures
            final(self).inv(),
            final(self).same_source(old(self)),
            match r {
                Ok(ms) => spec_bootstrap_entries(
                    old(self).spec_bytes(),
                    old(self).spec_offset(),
                    n as int,
                    Seq::empty(),
                ) == Ok::<_, SpecError>((bootstrap_view(ms@), final(self).spec_offset())),
                Err(e) => spec_bootstrap_entries(
                    old(self).spec_bytes(),
                    old(self).spec_offset(),
                    n as int,
                    Seq::empty(),
                ) == Err::<(Seq<crate::attribute::SpecBootstrapMethod>, int), SpecError>(e@),
            },
    {
        let ghost bytes = self.spec_bytes();
        let ghost off0 = self.spec_offset();
        let mut ms: Vec<BootstrapMethodAttribute> = Vec::new();
        let mut i: u16 = 0;
        proof {
            assert(bootstrap_view(ms@) =~= Seq::<crate::attribute::SpecBootstrapMethod>::empty());
        }
        while i < n
            invariant
                self.inv(),
                self.same_source(old(self)),
                self.spec_bytes() == bytes,
                i <= n,
                spec_bootstrap_entries(bytes, off0, n as int, Seq::empty())
                    == spec_bootstrap_entries(bytes, self.spec_offset(), n - i, bootstrap_view(ms@)),
            decreases n - i,
        {
            let ghost cur = self.spec_offset();
            let ghost acc = bootstrap_view(ms@);
            let bootstrap_method_ref = match self.read_u16_be() {
                Ok(v) => v,
                Err(e) => {
                    return Err(e);
                },
            };
            let num_bootstrap_arguments = match self.read_u16_be() {
                Ok(v) => v,
                Err(e) => {
                    return Err(e);
                },
            };
            let bootstrap_arguments = match self.read_u16s(num_bootstrap_arguments) {
                Ok(v) => v,
                Err(e) => {
                    return Err(e);
                },
            };
            let entry = BootstrapMethodAttribute {
                bootstrap_method_ref,
                num_bootstrap_arguments,
                bootstrap_arguments,
            };
            ms.push(entry);
            proof {
                assert(bootstrap_view(ms@) =~= acc.push(entry@));
                assert(spec_bootstrap_entries(bytes, cur, n - i, acc) == spec_bootstrap_entries(
                    bytes,
                    self.spec_offset(),
                    n - i - 1,
                    bootstrap_view(ms@),
                ));
            }
            i = i + 1;
        }
        Ok(ms)
    }

    /// Reads the body of a `LineNumberTable` attribute: an entry count and
    /// that many (`start_pc`, `line_number`) pairs.
    #[verifier::loop_isolation(false)]
    fn read_line_number_table_attribute(
        &mut self,
        attribute_name_index: u16,
        attribute_length: u32,
    ) -> (r: Result<Attribute, ErrorType>)
        requires
            old(self).inv(),
        ensures
            final(self).inv(),
            final(self).same_source(old(self)),
            match r {
                Ok(a) => spec_parse_line_number_table(
                    old(self).spec_bytes(),
                    old(self).spec_offset(),
                    attribute_name_index,
                    attribute_length,
                ) == Ok::<_, SpecError>((a@, final(self).spec_offset())),
                Err(e) => spec_parse_line_number_table(
                    old(self).spec_bytes(),
                    old(self).spec_offset(),
                    attribute_name_index,
                    attribute_length,
                ) == Err::<(SpecAttribute, int), SpecError>(e@),
            },
    {
        let ghost bytes = self.spec_bytes();
        let line_number_table_length = match self.read_u16_be() {
            Ok(v) => v,
            Err(e) => {
                return Err(e);
            },
        };
        let ghost off1 = self.spec_offset();
        let mut line_number_table: Vec<LineNumberTableEntry> = Vec::new();
        let mut i: u16 = 0;
        while i < line_number_table_length
            invariant
                self.inv(),
                self.same_source(old(self)),
                self.spec_bytes() == bytes,
                i <= line_number_table_length,
                spec_line_number_entries(bytes, off1, line_number_table_length as int, Seq::empty())
                    == spec_line_number_entries(
                    bytes,
                    self.spec_offset(),
                    line_number_table_length - i,
                    line_number_table@,
                ),
            decreases line_number_table_length - i,
        {
            let ghost cur = self.spec_offset();
            let ghost acc = line_number_table@;
            let start_pc = match self.read_u16_be() {
                Ok(v) => v,
                Err(e) => {
                    return Err(e);
                },
            };
            let line_number = match self.read_u16_be() {
                Ok(v) => v,
                Err(e) => {
                    return Err(e);
                },
            };
            line_number_table.push(LineNumberTableEntry { start_pc, line_number });
            proof {
                assert(spec_line_number_entries(bytes, cur, line_number_table_length - i, acc)
                    == spec_line_number_entries(
                    bytes,
                    self.spec_offset(),
                    line_number_table_length - i - 1,
                    line_number_table@,
                ));
            }
            i = i + 1;
        }
        Ok(
            Attribute::LineNumberTable {
                attribute_name_index,
                attribute_length,
                line_number_table_length,
                line_number_table,
            },
        )
    }

    /// Reads the body of a `Code` attribute: sizes, the instruction stream,
    /// the exception table, and the nested attributes one level deeper.
    fn read_code_attribute(
        &mut self,
        attribute_name_index: u16,
        attribute_length: u32,
        constant_pool: &[Constant<'c>],
        depth: u32,
    ) -> (r: Result<Attribute, ErrorType>)
        requires
            old(self).inv(),
            depth >= 1,
        ensures
            final(self).inv(),
            final(self).same_source(old(self)),
            match r {
                Ok(a) => spec_parse_code(
                    old(self).spec_bytes(),
                    old(self).spec_offset(),
                    pool_view(constant_pool@),
                    old(self).spec_options(),
                    depth as int,
                    attribute_name_index,
                    attribute_length,
                ) == Ok::<_, SpecError>((a@, final(self).spec_offset())),
                Err(e) => spec_parse_code(
                    old(self).spec_bytes(),
                    old(self).spec_offset(),
                    pool_view(constant_pool@),
                    old(self).spec_options(),
                    depth as int,
                    attribute_name_index,
                    attribute_length,
                ) == Err::<(SpecAttribute, int), SpecError>(e@),
            },
        decreases depth, 0int,
    {
        let max_stack = match self.read_u16_be() {
            Ok(v) => v,
            Err(e) => {
                return Err(e);
            },
        };
        let max_locals = match self.read_u16_be() {
            Ok(v) => v,
            Err(e) => {
                return Err(e);
            },
        };
        let code_length = match self.read_u32_be() {
            Ok(v) => v,
            Err(e) => {
                return Err(e);
            },
        };
        let (code_end, code) = match self.read_instructions(code_length) {
            Ok(p) => p,
            Err(e) => {
                return Err(e);
            },
        };
        self.offset = code_end;
        let exception_table_length = match self.read_u16_be() {
            Ok(v) => v,
            Err(e) => {
                return Err(e);
            },
        };
        let exception_table = match self.read_exception_table(exception_table_length) {
            Ok(v) => v,
            Err(e) => {
                return Err(e);
            },
        };
        let attributes_count = match self.read_u16_be() {
            Ok(v) => v,
            Err(e) => {
                return Err(e);
            },
        };
        let attributes = match self.read_attributes(attributes_count, constant_pool, depth - 1) {
            Ok(v) => v,
            Err(e) => {
                return Err(e);
            },
        };
        let a = Attribute::Code {
            attribute_name_index,
            attribute_length,
            max_stack,
            max_locals,
            code_length,
            code,
            exception_table_length,
            exception_table,
            attributes_count,
            attributes,
        };
        proof {
            crate::attribute::lemma_code_attr_view(&a);
        }
        Ok(a)
    }

    /// Reads one attribute: name index, length, the name resolved through
    /// the pool, and the payload dispatched on the name.  Returns `None`
    /// when an unrecognized attribute was skipped.
    fn read_attribute(&mut self, constant_pool: &[Constant<'c>], depth: u32) -> (r: Result<
        Option<Attribute>,
        ErrorType,
    >)
        requires
            old(self).inv(),
            depth >= 1,
        ensures
            final(self).inv(),
            final(self).same_source(old(self)),
            match r {
                Ok(kept) => spec_parse_attribute(
                    old(self).spec_bytes(),
                    old(self).spec_offset(),
                    pool_view(constant_pool@),
                    old(self).spec_options(),
                    depth as int,
                ) == Ok::<_, SpecError>(
                    (
                        match kept {
                            Some(a) => Some(a@),
                            None => None::<SpecAttribute>,
                        },
                        final(self).spec_offset(),
                    ),
                ),
                Err(e) => spec_parse_attribute(
                    old(self).spec_bytes(),
                    old(self).spec_offset(),
                    pool_view(constant_pool@),
                    old(self).spec_options(),
                    depth as int,
                ) == Err::<(Option<SpecAttribute>, int), SpecError>(e@),
            },
        decreases depth, 1int,
    {
        let attribute_name_index = match self.read_u16_be() {
            Ok(v) => v,
            Err(e) => {
                return Err(e);
            },
        };
        let attribute_length = match self.read_u32_be() {
            Ok(v) => v,
            Err(e) => {
                return Err(e);
            },
        };
        let name = match resolve_utf8(constant_pool, attribute_name_index) {
            Some(n) => n,
            None => {
                return Err(ErrorType::InvalidNameIndex);
            },
        };
        if !utf8_ok(name) {
            return Err(ErrorType::InvalidUtf8);
        }
        match attr_name_kind(name) {
            AttrKind::ConstantValue => {
                let constantvalue_index = match self.read_u16_be() {
                    Ok(v) => v,
                    Err(e) => {
                        return Err(e);
                    },
                };
                Ok(
                    Some(
                        Attribute::ConstantValue {
                            attribute_name_index,
                            attribute_length,
                            constantvalue_index,
                        },
                    ),
                )
            },
            AttrKind::Code => match self.read_code_attribute(
                attribute_name_index,
                attribute_length,
                constant_pool,
                depth,
            ) {
                Ok(a) => Ok(Some(a)),
                Err(e) => Err(e),
            },
            AttrKind::InnerClasses => {
                let number_of_classes = match self.read_u16_be() {
                    Ok(v) => v,
                    Err(e) => {
                        return Err(e);
                    },
                };
                let classes = match self.read_inner_class_attributes(number_of_classes) {
                    Ok(v) => v,
                    Err(e) => {
                        return Err(e);
                    },
                };
                Ok(
                    Some(
                        Attribute::InnerClasses {
                            attribute_name_index,
                            attribute_length,
                            number_of_classes,
                            classes,
                        },
                    ),
                )
            },
            AttrKind::SourceFile => {
                let sourcefile_index = match self.read_u16_be() {
                    Ok(v) => v,
                    Err(e) => {
                        return Err(e);
                    },
                };
                Ok(
                    Some(
                        Attribute::SourceFile {
                            attribute_name_index,
                            attribute_length,
                            sourcefile_index,
                        },
                    ),
                )
            },
            AttrKind::LineNumberTable => match self.read_line_number_table_attribute(
                attribute_name_index,
                attribute_length,
            ) {
                Ok(a) => Ok(Some(a)),
                Err(e) => Err(e),
            },
            AttrKind::BootstrapMethods => {
                let num_bootstrap_methods = match self.read_u16_be() {
                    Ok(v) => v,
                    Err(e) => {
                        return Err(e);
                    },
                };
                let bootstrap_methods = match self.read_bootstrap_method_attributes(
                    num_bootstrap_methods,
                ) {
                    Ok(v) => v,
                    Err(e) => {
                        return Err(e);
                    },
                };
                let a = Attribute::BootstrapMethods {
                    attribute_name_index,
                    attribute_length,
                    num_bootstrap_methods,
                    bootstrap_methods,
                };
                proof {
                    crate::attribute::lemma_bootstrap_attr_view(&a);
                }
                Ok(Some(a))
            },
            AttrKind::MethodParameters => {
                let parameters_count = match self.read_u8() {
                    Ok(v) => v,
                    Err(e) => {
                        return Err(e);
                    },
                };
                let parameters = match self.read_method_parameter_attributes(parameters_count) {
                    Ok(v) => v,
                    Err(e) => {
                        return Err(e);
                    },
                };
                Ok(
                    Some(
                        Attribute::MethodParameters {
                            attribute_name_index,
                            attribute_length,
                            parameters_count,
                            parameters,
                        },
                    ),
                )
            },
            AttrKind::NestMembers => {
                let number_of_classes = match self.read_u16_be() {
                    Ok(v) => v,
                    Err(e) => {
                        return Err(e);
                    },
                };
                let classes = match self.read_u16s(number_of_classes) {
                    Ok(v) => v,
                    Err(e) => {
                        return Err(e);
                    },
                };
                Ok(
                    Some(
                        Attribute::NestMembers {
                            attribute_name_index,
                            attribute_length,
                            number_of_classes,
                            classes,
                        },
                    ),
                )
            },
            AttrKind::Unknown => {
                if matches!(self.options.on_unknown_attribute, AttributePolicy::Reject) {
                    Err(ErrorType::UnknownAttribute(vstd::slice::slice_to_vec(name)))
                } else {
                    match self.read_bytes(attribute_length as usize) {
                        Ok(_) => Ok(None),
                        Err(e) => Err(e),
                    }
                }
            },
        }
    }

    /// Reads `attribute_count` attributes, keeping the recognized ones in
    /// order.  `depth` is the remaining nesting allowance; a non-empty list
    /// with none left fails with `AttributeDepthExceeded`.
    #[verifier::loop_isolation(false)]
    fn read_attributes(
        &mut self,
        attribute_count: u16,
        constant_pool: &[Constant<'c>],
        depth: u32,
    ) -> (r: Result<Vec<Attribute>, ErrorType>)
        requires
            old(self).inv(),
        ensures
            final(self).inv(),
            final(self).same_source(old(self)),
            match r {
                Ok(attrs) => spec_parse_attributes(
                    old(self).spec_bytes(),
                    old(self).spec_offset(),
                    attribute_count as int,
                    pool_view(constant_pool@),
                    old(self).spec_options(),
                    depth as int,
                    Seq::empty(),
                ) == Ok::<_, SpecError>((attrs_view(attrs@), final(self).spec_offset())),
                Err(e) => spec_parse_attributes(
                    old(self).spec_bytes(),
                    old(self).spec_offset(),
                    attribute_count as int,
                    pool_view(constant_pool@),
                    old(self).spec_options(),
                    depth as int,
                    Seq::empty(),
                ) == Err::<(Seq<SpecAttribute>, int), SpecError>(e@),
            },
        decreases depth, 2int,
    {
        let ghost bytes = self.spec_bytes();
        let ghost off0 = self.spec_offset();
        let ghost pview = pool_view(constant_pool@);
        let ghost opts = self.spec_options();
        let mut attrs: Vec<Attribute> = Vec::new();
        let mut i: u16 = 0;
        proof {
            assert(attrs_view(attrs@) =~= Seq::<SpecAttribute>::empty());
        }
        while i < attribute_count
            invariant
                self.inv(),
                self.same_source(old(self)),
                self.spec_bytes() == bytes,
                self.spec_options() == opts,
                i <= attribute_count,
                spec_parse_attributes(
                    bytes,
                    off0,
                    attribute_count as int,
                    pview,
                    opts,
                    depth as int,
                    Seq::empty(),
                ) == spec_parse_attributes(
                    bytes,
                    self.spec_offset(),
                    attribute_count - i,
                    pview,
                    opts,
                    depth as int,
                    attrs_view(attrs@),
                ),
            decreases attribute_count - i,
        {
            if depth == 0 {
                return Err(ErrorType::AttributeDepthExceeded);
            }
            let ghost cur = self.spec_offset();
            let ghost acc = attrs_view(attrs@);
            let ghost rem = attribute_count - i;
            let kept = match self.read_attribute(constant_pool, depth) {
                Ok(k) => k,
                Err(e) => {
                    proof {
                        assert(spec_parse_attributes(bytes, cur, rem, pview, opts, depth as int, acc)
                            == Err::<(Seq<SpecAttribute>, int), SpecError>(e@));
                    }
                    return Err(e);
                },
            };
            match kept {
                Some(a) => {
                    let ghost av = a@;
                    attrs.push(a);
                    proof {
                        assert(attrs_view(attrs@) =~= acc.push(av));
                        assert(spec_parse_attributes(bytes, cur, rem, pview, opts, depth as int, acc)
                            == spec_parse_attributes(
                            bytes,
                            self.spec_offset(),
                            rem - 1,
                            pview,
                            opts,
                            depth as int,
                            attrs_view(attrs@),
                        ));
                    }
                },
                None => {
                    proof {
                        assert(spec_parse_attributes(bytes, cur, rem, pview, opts, depth as int, acc)
                            == spec_parse_attributes(
                            bytes,
                            self.spec_offset(),
                            rem - 1,
                            pview,
                            opts,
                            depth as int,
                            attrs_view(attrs@),
                        ));
                    }
                },
            }
            i = i + 1;
        }
        Ok(attrs)
    }
}

impl<'c> ClassParser<'c> {
    /// Reads `field_count` field entries.
    #[verifier::loop_isolation(false)]
    fn read_fields(&mut self, field_count: u16, constant_pool: &[Constant<'c>]) -> (r: Result<
        Vec<Field>,
        ErrorType,
    >)
        requires
            old(self).inv(),
        ensures
            final(self).inv(),
            final(self).same_source(old(self)),
            match r {
                Ok(fs) => spec_parse_fields(
                    old(self).spec_bytes(),
                    old(self).spec_offset(),
                    field_count as int,
                    pool_view(constant_pool@),
                    old(self).spec_options(),
                    Seq::empty(),
                ) == Ok::<_, SpecError>((fields_view(fs@), final(self).spec_offset())),
                Err(e) => spec_parse_fields(
                    old(self).spec_bytes(),
                    old(self).spec_offset(),
                    field_count as int,
                    pool_view(constant_pool@),
                    old(self).spec_options(),
                    Seq::empty(),
                ) == Err::<(Seq<SpecField>, int), SpecError>(e@),
            },
    {
        let ghost bytes = self.spec_bytes();
        let ghost off0 = self.spec_offset();
        let ghost pview = pool_view(constant_pool@);
        let ghost opts = self.spec_options();
        let mut fields: Vec<Field> = Vec::new();
        let mut i: u16 = 0;
        proof {
            assert(fields_view(fields@) =~= Seq::<SpecField>::empty());
        }
        while i < field_count
            invariant
                self.inv(),
                self.same_source(old(self)),
                self.spec_bytes() == bytes,
                self.spec_options() == opts,
                i <= field_count,
                spec_parse_fields(bytes, off0, field_count as int, pview, opts, Seq::empty())
                    == spec_parse_fields(
                    bytes,
                    self.spec_offset(),
                    field_count - i,
                    pview,
                    opts,
                    fields_view(fields@),
                ),
            decreases field_count - i,
        {
            let ghost cur = self.spec_offset();
            let ghost acc = fields_view(fields@);
            let ghost rem = field_count - i;
            let flags = match self.read_u16_be() {
                Ok(v) => v,
                Err(e) => {
                    return Err(e);
                },
            };
            let name_index = match self.read_u16_be() {
                Ok(v) => v,
                Err(e) => {
                    return Err(e);
                },
            };
            let descriptor_index = match self.read_u16_be() {
                Ok(v) => v,
                Err(e) => {
                    return Err(e);
                },
            };
            let attributes_count = match self.read_u16_be() {
                Ok(v) => v,
                Err(e) => {
                    return Err(e);
                },
            };
            if matches!(self.options.on_unknown_access_bits, AccessBitsPolicy::Reject) && flags
                & !FIELD_FLAGS_MASK != 0 {
                return Err(ErrorType::UnknownAccessBits(flags));
            }
            let depth = self.options.max_attribute_depth;
            let attributes = match self.read_attributes(attributes_count, constant_pool, depth) {
                Ok(v) => v,
                Err(e) => {
                    proof {
                        assert(spec_parse_fields(bytes, cur, rem, pview, opts, acc) == Err::<
                            (Seq<SpecField>, int),
                            SpecError,
                        >(e@));
                    }
                    return Err(e);
                },
            };
            let field = Field {
                access_flags: FieldAccessFlag::from_bits(flags),
                name_index,
                descriptor_index,
                attributes_count,
                attributes,
            };
            let ghost fv = field@;
            fields.push(field);
            proof {
                assert(fields_view(fields@) =~= acc.push(fv));
                assert(spec_parse_fields(bytes, cur, rem, pview, opts, acc) == spec_parse_fields(
                    bytes,
                    self.spec_offset(),
                    rem - 1,
                    pview,
                    opts,
                    fields_view(fields@),
                ));
            }
            i = i + 1;
        }
        Ok(fields)
    }

    /// Reads `method_count` method entries.
    #[verifier::loop_isolation(false)]
    fn read_methods(&mut self, method_count: u16, constant_pool: &[Constant<'c>]) -> (r: Result<
        Vec<Method>,
        ErrorType,
    >)
        requires
            old(self).inv(),
        ensures
            final(self).inv(),
            final(self).same_source(old(self)),
            match r {
                Ok(ms) => spec_parse_methods(
                    old(self).spec_bytes(),
                    old(self).spec_offset(),
                    method_count as int,
                    pool_view(constant_pool@),
                    old(self).spec_options(),
                    Seq::empty(),
                ) == Ok::<_, SpecError>((methods_view(ms@), final(self).spec_offset())),
                Err(e) => spec_parse_methods(
                    old(self).spec_bytes(),
                    old(self).spec_offset(),
                    method_count as int,
                    pool_view(constant_pool@),
                    old(self).spec_options(),
                    Seq::empty(),
                ) == Err::<(Seq<SpecMethod>, int), SpecError>(e@),
            },
    {
        let ghost bytes = self.spec_bytes();
        let ghost off0 = self.spec_offset();
        let ghost pview = pool_view(constant_pool@);
        let ghost opts = self.spec_options();
        let mut methods: Vec<Method> = Vec::new();
        let mut i: u16 = 0;
        proof {
            assert(methods_view(methods@) =~= Seq::<SpecMethod>::empty());
        }
        while i < method_count
            invariant
                self.inv(),
                self.same_source(old(self)),
                self.spec_bytes() == bytes,
                self.spec_options() == opts,
                i <= method_count,
                spec_parse_methods(bytes, off0, method_count as int, pview, opts, Seq::empty())
                    == spec_parse_methods(
                    bytes,
                    self.spec_offset(),
                    method_count - i,
                    pview,
                    opts,
                    methods_view(methods@),
                ),
            decreases method_count - i,
        {
            let ghost cur = self.spec_offset();
            let ghost acc = methods_view(methods@);
            let ghost rem = method_count - i;
            let flags = match self.read_u16_be() {
                Ok(v) => v,
                Err(e) => {
                    return Err(e);
                },
            };
            let name_index = match self.read_u16_be() {
                Ok(v) => v,
                Err(e) => {
                    return Err(e);
                },
            };
            let descriptor_index = match self.read_u16_be() {
                Ok(v) => v,
                Err(e) => {
                    return Err(e);
                },
            };
            let attributes_count = match self.read_u16_be() {
                Ok(v) => v,
                Err(e) => {
                    return Err(e);
                },
            };
            if matches!(self.options.on_unknown_access_bits, AccessBitsPolicy::Reject) && flags
                & !METHOD_FLAGS_MASK != 0 {
                return Err(ErrorType::UnknownAccessBits(flags));
            }
            let depth = self.options.max_attribute_depth;
            let attributes = match self.read_attributes(attributes_count, constant_pool, depth) {
                Ok(v) => v,
                Err(e) => {
                    proof {
                        assert(spec_parse_methods(bytes, cur, rem, pview, opts, acc) == Err::<
                            (Seq<SpecMethod>, int),
                            SpecError,
                        >(e@));
                    }
                    return Err(e);
                },
            };
            let method = Method {
                access_flags: MethodAccessFlag::from_bits(flags),
                name_index,
                descriptor_index,
                attributes_count,
                attributes,
            };
            let ghost mv = method@;
            methods.push(method);
            proof {
                assert(methods_view(methods@) =~= acc.push(mv));
                assert(spec_parse_methods(bytes, cur, rem, pview, opts, acc) == spec_parse_methods(
                    bytes,
                    self.spec_offset(),
                    rem - 1,
                    pview,
                    opts,
                    methods_view(methods@),
                ));
            }
            i = i + 1;
        }
        Ok(methods)
    }

    /// Parses the whole class file from the cursor's position: exactly what
    /// the spec-level driver [`spec_parse_class`] decodes, for well-formed
    /// and malformed input alike.  On success the buffer is consumed to its
    /// exact end.
    pub fn parse(&mut self) -> (r: Result<RawClass<'c>, ErrorType>)
        requires
            old(self).inv(),
        ensures
            final(self).inv(),
            final(self).same_source(old(self)),
            match r {
                Ok(c) => spec_parse_class(
                    old(self).spec_bytes(),
                    old(self).spec_options(),
                    old(self).spec_offset(),
                ) == Ok::<_, SpecError>((c@, final(self).spec_offset())) && final(self).spec_offset()
                    == old(self).spec_bytes().len(),
                Err(e) => spec_parse_class(
                    old(self).spec_bytes(),
                    old(self).spec_options(),
                    old(self).spec_offset(),
                ) == Err::<(SpecRawClass, int), SpecError>(e@),
            },
    {
        let magic = match self.read_u32_be() {
            Ok(v) => v,
            Err(e) => {
                return Err(e);
            },
        };
        if magic != CLASS_MAGIC {
            return Err(ErrorType::BadMagic);
        }
        let minor_version = match self.read_u16_be() {
            Ok(v) => v,
            Err(e) => {
                return Err(e);
            },
        };
        let major_version = match self.read_u16_be() {
            Ok(v) => v,
            Err(e) => {
                return Err(e);
            },
        };
        let constant_pool_count = match self.read_u16_be() {
            Ok(v) => v,
            Err(e) => {
                return Err(e);
            },
        };
        let constant_pool = match self.read_constant_pool(constant_pool_count) {
            Ok(v) => v,
            Err(e) => {
                return Err(e);
            },
        };
        let flags = match self.read_u16_be() {
            Ok(v) => v,
            Err(e) => {
                return Err(e);
            },
        };
        if matches!(self.options.on_unknown_access_bits, AccessBitsPolicy::Reject) && flags
            & !CLASS_FLAGS_MASK != 0 {
            return Err(ErrorType::UnknownAccessBits(flags));
        }
        let this_class = match self.read_u16_be() {
            Ok(v) => v,
            Err(e) => {
                return Err(e);
            },
        };
        let super_class = match self.read_u16_be() {
            Ok(v) => v,
            Err(e) => {
                return Err(e);
            },
        };
        let interface_count = match self.read_u16_be() {
            Ok(v) => v,
            Err(e) => {
                return Err(e);
            },
        };
        let interfaces = match self.read_u16s(interface_count) {
            Ok(v) => v,
            Err(e) => {
                return Err(e);
            },
        };
        let field_count = match self.read_u16_be() {
            Ok(v) => v,
            Err(e) => {
                return Err(e);
            },
        };
        let fields = match self.read_fields(field_count, constant_pool.as_slice()) {
            Ok(v) => v,
            Err(e) => {
                return Err(e);
            },
        };
        let methods_count = match self.read_u16_be() {
            Ok(v) => v,
            Err(e) => {
                return Err(e);
            },
        };
        let methods = match self.read_methods(methods_count, constant_pool.as_slice()) {
            Ok(v) => v,
            Err(e) => {
                return Err(e);
            },
        };
        let attributes_count = match self.read_u16_be() {
            Ok(v) => v,
            Err(e) => {
                return Err(e);
            },
        };
        let depth = self.options.max_attribute_depth;
        let attributes = match self.read_attributes(
            attributes_count,
            constant_pool.as_slice(),
            depth,
        ) {
            Ok(v) => v,
            Err(e) => {
                return Err(e);
            },
        };
        if self.offset != self.bytes.len() {
            return Err(ErrorType::TrailingBytes);
        }
        Ok(
            RawClass {
                magic,
                minor_version,
                major_version,
                constant_pool_count,
                constant_pool,
                access_flags: ClassAccessFlag::from_bits(flags),
                this_class,
                super_class,
                interface_count,
                interfaces,
                field_count,
                fields,
                methods_count,
                methods,
                attributes_count,
                attributes,
            },
        )
    }
}

/// Looks up the `Utf8` pool entry at the 1-based index `idx` and hands out
/// its borrowed bytes.
fn resolve_utf8<'c>(pool: &[Constant<'c>], idx: u16) -> (r: Option<&'c [u8]>)
    ensures
        match spec_resolve_utf8(pool_view(pool@), idx) {
            Some(bs) => r matches Some(s) && s@ == bs,
            None => r is None,
        },
{
    if 1 <= idx && (idx as usize) <= pool.len() {
        match vstd::slice::slice_index_get(pool, (idx - 1) as usize) {
            Constant::Utf8 { tag: _, length: _, bytes } => Some(*bytes),
            _ => None,
        }
    } else {
        None
    }
}

} // verus!
