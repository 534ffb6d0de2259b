//! Attributes: the named, length-prefixed records attached to classes,
//! fields, methods and `Code` attributes, and their spec-level decoder.
//!
//! An attribute's name is resolved through the constant pool: the
//! `attribute_name_index` must point at a `Utf8` entry whose bytes are valid
//! UTF-8.  The recognized names are dispatched structurally; an unrecognized
//! name is skipped or rejected according to
//! [`crate::options::ParseOptions::on_unknown_attribute`].

use vstd::prelude::*;

use crate::access_flags::{
    InnerClassAccessFlag, ParameterAccessFlag, INNER_CLASS_FLAGS_MASK, PARAMETER_FLAGS_MASK,
};
use crate::constant_pool::SpecConstant;
use crate::error::SpecError;
use crate::opcode::{spec_parse_instrs, SpecInstruction};
use crate::options::{AccessBitsPolicy, AttributePolicy, ParseOptions};
use crate::wire::{be_u16, be_u32, spec_u16s};

verus! {

broadcast use vstd::std_specs::vec::group_vec_axioms, vstd::seq::group_seq_axioms;

/// One entry of a `Code` attribute's exception table.
#[derive(Debug, Clone, Copy, PartialEq, Eq, Structural)]
pub struct ExceptionTableEntry {
    pub start_pc: u16,
    pub end_pc: u16,
    pub handler_pc: u16,
    pub catch_type: u16,
}

/// One entry of a `LineNumberTable` attribute.
#[derive(Debug, Clone, Copy, PartialEq, Eq, Structural)]
pub struct LineNumberTableEntry {
    pub start_pc: u16,
    pub line_number: u16,
}

/// One entry of an `InnerClasses` attribute.
#[derive(Debug, Clone, Copy, PartialEq, Eq, Structural)]
pub struct InnerClassAttribute {
    pub inner_class_info_index: u16,
    pub outer_class_info_index: u16,
    pub inner_name_index: u16,
    pub inner_class_access_flags: InnerClassAccessFlag,
}

/// One entry of a `MethodParameters` attribute.
#[derive(Debug, Clone, Copy, PartialEq, Eq, Structural)]
pub struct ParameterAttribute {
    pub name_index: u16,
    pub access_flags: ParameterAccessFlag,
}

/// One entry of a `BootstrapMethods` attribute.
#[derive(Debug, Clone, PartialEq, Eq)]
pub struct BootstrapMethodAttribute {
    pub bootstrap_method_ref: u16,
    pub num_bootstrap_arguments: u16,
    pub bootstrap_arguments: Vec<u16>,
}

/// Spec-level mirror of [`BootstrapMethodAttribute`].
pub struct SpecBootstrapMethod {
    pub bootstrap_method_ref: u16,
    pub num_bootstrap_arguments: u16,
    pub bootstrap_arguments: Seq<u16>,
}

impl View for BootstrapMethodAttribute {
    type V = SpecBootstrapMethod;

    open spec fn view(&self) -> SpecBootstrapMethod {
        SpecBootstrapMethod {
            bootstrap_method_ref: self.bootstrap_method_ref,
            num_bootstrap_arguments: self.num_bootstrap_arguments,
            bootstrap_arguments: self.bootstrap_arguments@,
        }
    }
}

/// A decoded attribute (JVM §4.7).  `Code` nests further attributes.
#[derive(Debug)]
pub enum Attribute {
    ConstantValue {
        attribute_name_index: u16,
        attribute_length: u32,
        constantvalue_index: u16,
    },
    Code {
        attribute_name_index: u16,
        attribute_length: u32,
        max_stack: u16,
        max_locals: u16,
        code_length: u32,
        code: Vec<crate::opcode::Instruction>,
        exception_table_length: u16,
        exception_table: Vec<ExceptionTableEntry>,
        attributes_count: u16,
        attributes: Vec<Attribute>,
    },
    InnerClasses {
        attribute_name_index: u16,
        attribute_length: u32,
        number_of_classes: u16,
        classes: Vec<InnerClassAttribute>,
    },
    SourceFile {
        attribute_name_index: u16,
        attribute_length: u32,
        sourcefile_index: u16,
    },
    LineNumberTable {
        attribute_name_index: u16,
        attribute_length: u32,
        line_number_table_length: u16,
        line_number_table: Vec<LineNumberTableEntry>,
    },
    BootstrapMethods {
        attribute_name_index: u16,
        attribute_length: u32,
        num_bootstrap_methods: u16,
        bootstrap_methods: Vec<BootstrapMethodAttribute>,
    },
    MethodParameters {
        attribute_name_index: u16,
        attribute_length: u32,
        parameters_count: u8,
        parameters: Vec<ParameterAttribute>,
    },
    NestMembers {
        attribute_name_index: u16,
        attribute_length: u32,
        number_of_classes: u16,
        classes: Vec<u16>,
    },
}

/// Spec-level mirror of [`Attribute`].
pub enum SpecAttribute {
    ConstantValue {
        attribute_name_index: u16,
        attribute_length: u32,
        constantvalue_index: u16,
    },
    Code {
        attribute_name_index: u16,
        attribute_length: u32,
        max_stack: u16,
        max_locals: u16,
        code_length: u32,
        code: Seq<SpecInstruction>,
        exception_table_length: u16,
        exception_table: Seq<ExceptionTableEntry>,
        attributes_count: u16,
        attributes: Seq<SpecAttribute>,
    },
    InnerClasses {
        attribute_name_index: u16,
        attribute_length: u32,
        number_of_classes: u16,
        classes: Seq<InnerClassAttribute>,
    },
    SourceFile {
        attribute_name_index: u16,
        attribute_length: u32,
        sourcefile_index: u16,
    },
    LineNumberTable {
        attribute_name_index: u16,
        attribute_length: u32,
        line_number_table_length: u16,
        line_number_table: Seq<LineNumberTableEntry>,
    },
    BootstrapMethods {
        attribute_name_index: u16,
        attribute_length: u32,
        num_bootstrap_methods: u16,
        bootstrap_methods: Seq<SpecBootstrapMethod>,
    },
    MethodParameters {
        attribute_name_index: u16,
        attribute_length: u32,
        parameters_count: u8,
        parameters: Seq<ParameterAttribute>,
    },
    NestMembers {
        attribute_name_index: u16,
        attribute_length: u32,
        number_of_classes: u16,
        classes: Seq<u16>,
    },
}

impl View for Attribute {
    type V = SpecAttribute;

    open spec fn view(&self) -> SpecAttribute
        decreases self,
    {
        match self {
            Attribute::ConstantValue { attribute_name_index, attribute_length, constantvalue_index } => {
                SpecAttribute::ConstantValue {
                    attribute_name_index: *attribute_name_index,
                    attribute_length: *attribute_length,
                    constantvalue_index: *constantvalue_index,
                }
            },
            Attribute::Code {
                attribute_name_index,
                attribute_length,
                max_stack,
                max_locals,
                code_length,
                code,
                exception_table_length,
                exception_table,
                attributes_count,
                attributes,
            } => SpecAttribute::Code {
                attribute_name_index: *attribute_name_index,
                attribute_length: *attribute_length,
                max_stack: *max_stack,
                max_locals: *max_locals,
                code_length: *code_length,
                code: crate::opcode::instrs_view(code@),
                exception_table_length: *exception_table_length,
                exception_table: exception_table@,
                attributes_count: *attributes_count,
                attributes: Seq::new(
                    attributes@.len(),
                    |i: int|
                        if 0 <= i < attributes@.len() {
                            attributes@[i]@
                        } else {
                            SpecAttribute::ConstantValue {
                                attribute_name_index: 0,
                                attribute_length: 0,
                                constantvalue_index: 0,
                            }
                        },
                ),
            },
            Attribute::InnerClasses { attribute_name_index, attribute_length, number_of_classes, classes } => {
                SpecAttribute::InnerClasses {
                    attribute_name_index: *attribute_name_index,
                    attribute_length: *attribute_length,
                    number_of_classes: *number_of_classes,
                    classes: classes@,
                }
            },
            Attribute::SourceFile { attribute_name_index, attribute_length, sourcefile_index } => {
                SpecAttribute::SourceFile {
                    attribute_name_index: *attribute_name_index,
                    attribute_length: *attribute_length,
                    sourcefile_index: *sourcefile_index,
                }
            },
            Attribute::LineNumberTable {
                attribute_name_index,
                attribute_length,
                line_number_table_length,
                line_number_table,
            } => SpecAttribute::LineNumberTable {
                attribute_name_index: *attribute_name_index,
                attribute_length: *attribute_length,
                line_number_table_length: *line_number_table_length,
                line_number_table: line_number_table@,
            },
            Attribute::BootstrapMethods {
                attribute_name_index,
                attribute_length,
                num_bootstrap_methods,
                bootstrap_methods,
            } => SpecAttribute::BootstrapMethods {
                attribute_name_index: *attribute_name_index,
                attribute_length: *attribute_length,
                num_bootstrap_methods: *num_bootstrap_methods,
                bootstrap_methods: Seq::new(
                    bootstrap_methods@.len(),
                    |i: int| bootstrap_methods@[i]@,
                ),
            },
            Attribute::MethodParameters {
                attribute_name_index,
                attribute_length,
                parameters_count,
                parameters,
            } => SpecAttribute::MethodParameters {
                attribute_name_index: *attribute_name_index,
                attribute_length: *attribute_length,
                parameters_count: *parameters_count,
                parameters: parameters@,
            },
            Attribute::NestMembers { attribute_name_index, attribute_length, number_of_classes, classes } => {
                SpecAttribute::NestMembers {
                    attribute_name_index: *attribute_name_index,
                    attribute_length: *attribute_length,
                    number_of_classes: *number_of_classes,
                    classes: classes@,
                }
            },
        }
    }
}

/// The element-wise view of a decoded attribute list.
pub open spec fn attrs_view(attrs: Seq<Attribute>) -> Seq<SpecAttribute> {
    Seq::new(attrs.len(), |i: int| attrs[i]@)
}

/// The view of a `Code` attribute, spelled over the views of its parts.
pub proof fn lemma_code_attr_view(a: &Attribute)
    requires
        a matches Attribute::Code { .. },
    ensures
        a@ == (SpecAttribute::Code {
            attribute_name_index: a->Code_attribute_name_index,
            attribute_length: a->Code_attribute_length,
            max_stack: a->Code_max_stack,
            max_locals: a->Code_max_locals,
            code_length: a->Code_code_length,
            code: crate::opcode::instrs_view(a->Code_code@),
            exception_table_length: a->Code_exception_table_length,
            exception_table: a->Code_exception_table@,
            attributes_count: a->Code_attributes_count,
            attributes: attrs_view(a->Code_attributes@),
        }),
{
    reveal_with_fuel(<Attribute as View>::view, 2);
    assert(a@->Code_attributes =~= attrs_view(a->Code_attributes@));
}

/// The view of a `BootstrapMethods` attribute, spelled over the views of its
/// entries.
pub proof fn lemma_bootstrap_attr_view(a: &Attribute)
    requires
        a matches Attribute::BootstrapMethods { .. },
    ensures
        a@ == (SpecAttribute::BootstrapMethods {
            attribute_name_index: a->BootstrapMethods_attribute_name_index,
            attribute_length: a->BootstrapMethods_attribute_length,
            num_bootstrap_methods: a->BootstrapMethods_num_bootstrap_methods,
            bootstrap_methods: bootstrap_view(a->BootstrapMethods_bootstrap_methods@),
        }),
{
    reveal_with_fuel(<Attribute as View>::view, 2);
    assert(a@->BootstrapMethods_bootstrap_methods =~= bootstrap_view(
        a->BootstrapMethods_bootstrap_methods@,
    ));
}

/// The element-wise view of a bootstrap method list.
pub open spec fn bootstrap_view(ms: Seq<BootstrapMethodAttribute>) -> Seq<SpecBootstrapMethod> {
    Seq::new(ms.len(), |i: int| ms[i]@)
}

/// The bytes of the name `"ConstantValue"`.
pub open spec fn name_constant_value() -> Seq<u8> {
    seq![67u8, 111u8, 110u8, 115u8, 116u8, 97u8, 110u8, 116u8, 86u8, 97u8, 108u8, 117u8, 101u8]
}

/// The bytes of the name `"Code"`.
pub open spec fn name_code() -> Seq<u8> {
    seq![67u8, 111u8, 100u8, 101u8]
}

/// The bytes of the name `"InnerClasses"`.
pub open spec fn name_inner_classes() -> Seq<u8> {
    seq![73u8, 110u8, 110u8, 101u8, 114u8, 67u8, 108u8, 97u8, 115u8, 115u8, 101u8, 115u8]
}

/// The bytes of the name `"SourceFile"`.
pub open spec fn name_source_file() -> Seq<u8> {
    seq![83u8, 111u8, 117u8, 114u8, 99u8, 101u8, 70u8, 105u8, 108u8, 101u8]
}

/// The bytes of the name `"LineNumberTable"`.
pub open spec fn name_line_number_table() -> Seq<u8> {
    seq![76u8, 105u8, 110u8, 101u8, 78u8, 117u8, 109u8, 98u8, 101u8, 114u8, 84u8, 97u8, 98u8,
        108u8, 101u8]
}

/// The bytes of the name `"BootstrapMethods"`.
pub open spec fn name_bootstrap_methods() -> Seq<u8> {
    seq![66u8, 111u8, 111u8, 116u8, 115u8, 116u8, 114u8, 97u8, 112u8, 77u8, 101u8, 116u8, 104u8,
        111u8, 100u8, 115u8]
}

/// The bytes of the name `"MethodParameters"`.
pub open spec fn name_method_parameters() -> Seq<u8> {
    seq![77u8, 101u8, 116u8, 104u8, 111u8, 100u8, 80u8, 97u8, 114u8, 97u8, 109u8, 101u8, 116u8,
        101u8, 114u8, 115u8]
}

/// The bytes of the name `"NestMembers"`.
pub open spec fn name_nest_members() -> Seq<u8> {
    seq![78u8, 101u8, 115u8, 116u8, 77u8, 101u8, 109u8, 98u8, 101u8, 114u8, 115u8]
}

/// The recognized attribute names, as a dispatchable kind.
#[derive(Debug, Clone, Copy, PartialEq, Eq, Structural)]
pub enum AttrKind {
    ConstantValue,
    Code,
    InnerClasses,
    SourceFile,
    LineNumberTable,
    BootstrapMethods,
    MethodParameters,
    NestMembers,
    Unknown,
}

/// Classifies an attribute name (exact, case-sensitive byte match).
pub open spec fn spec_attr_name_kind(name: Seq<u8>) -> AttrKind {
    if name == name_constant_value() {
        AttrKind::ConstantValue
    } else if name == name_code() {
        AttrKind::Code
    } else if name == name_inner_classes() {
        AttrKind::InnerClasses
    } else if name == name_source_file() {
        AttrKind::SourceFile
    } else if name == name_line_number_table() {
        AttrKind::LineNumberTable
    } else if name == name_bootstrap_methods() {
        AttrKind::BootstrapMethods
    } else if name == name_method_parameters() {
        AttrKind::MethodParameters
    } else if name == name_nest_members() {
        AttrKind::NestMembers
    } else {
        AttrKind::Unknown
    }
}

/// Byte-wise equality of two slices.
#[verifier::loop_isolation(false)]
pub fn bytes_eq(a: &[u8], b: &[u8]) -> (r: bool)
    ensures
        r == (a@ == b@),
{
    if a.len() != b.len() {
        proof {
            assert(a@.len() != b@.len());
        }
        return false;
    }
    let mut i: usize = 0;
    while i < a.len()
        invariant
            i <= a@.len(),
            forall|j: int| 0 <= j < i ==> a@[j] == b@[j],
        decreases a@.len() - i,
    {
        if a[i] != b[i] {
            return false;
        }
        i = i + 1;
    }
    proof {
        assert(a@ =~= b@);
    }
    true
}

/// Classifies an attribute name.
pub fn attr_name_kind(name: &[u8]) -> (k: AttrKind)
    ensures
        k == spec_attr_name_kind(name@),
{
    let constant_value: [u8; 13] = [67, 111, 110, 115, 116, 97, 110, 116, 86, 97, 108, 117, 101];
    let code: [u8; 4] = [67, 111, 100, 101];
    let inner_classes: [u8; 12] = [73, 110, 110, 101, 114, 67, 108, 97, 115, 115, 101, 115];
    let source_file: [u8; 10] = [83, 111, 117, 114, 99, 101, 70, 105, 108, 101];
    let line_number_table: [u8; 15] = [
        76, 105, 110, 101, 78, 117, 109, 98, 101, 114, 84, 97, 98, 108, 101,
    ];
    let bootstrap_methods: [u8; 16] = [
        66, 111, 111, 116, 115, 116, 114, 97, 112, 77, 101, 116, 104, 111, 100, 115,
    ];
    let method_parameters: [u8; 16] = [
        77, 101, 116, 104, 111, 100, 80, 97, 114, 97, 109, 101, 116, 101, 114, 115,
    ];
    let nest_members: [u8; 11] = [78, 101, 115, 116, 77, 101, 109, 98, 101, 114, 115];
    proof {
        assert(constant_value@ =~= name_constant_value());
        assert(code@ =~= name_code());
        assert(inner_classes@ =~= name_inner_classes());
        assert(source_file@ =~= name_source_file());
        assert(line_number_table@ =~= name_line_number_table());
        assert(bootstrap_methods@ =~= name_bootstrap_methods());
        assert(method_parameters@ =~= name_method_parameters());
        assert(nest_members@ =~= name_nest_members());
    }
    if bytes_eq(name, constant_value.as_slice()) {
        AttrKind::ConstantValue
    } else if bytes_eq(name, code.as_slice()) {
        AttrKind::Code
    } else if bytes_eq(name, inner_classes.as_slice()) {
        AttrKind::InnerClasses
    } else if bytes_eq(name, source_file.as_slice()) {
        AttrKind::SourceFile
    } else if bytes_eq(name, line_number_table.as_slice()) {
        AttrKind::LineNumberTable
    } else if bytes_eq(name, bootstrap_methods.as_slice()) {
        AttrKind::BootstrapMethods
    } else if bytes_eq(name, method_parameters.as_slice()) {
        AttrKind::MethodParameters
    } else if bytes_eq(name, nest_members.as_slice()) {
        AttrKind::NestMembers
    } else {
        AttrKind::Unknown
    }
}

/// Relies on core::str::from_utf8: it returns `Ok` exactly when the byte
/// slice is valid UTF-8, which vstd's `valid_utf8` spells out byte by byte.
#[verifier::external_body]
pub fn utf8_ok(b: &[u8]) -> (r: bool)
    ensures
        r == vstd::utf8::valid_utf8(b@),
{
    core::str::from_utf8(b).is_ok()
}

/// The bytes of the `Utf8` pool entry at the 1-based index `idx`, if the
/// index is in range and the entry is indeed `Utf8`.
pub open spec fn spec_resolve_utf8(pool: Seq<SpecConstant>, idx: u16) -> Option<Seq<u8>> {
    if 1 <= idx && idx <= pool.len() {
        match pool[idx - 1] {
            SpecConstant::Utf8 { bytes, .. } => Some(bytes),
            _ => None,
        }
    } else {
        None
    }
}

/// Reads `rem` exception table entries (four `u16`s each) starting at `off`.
pub open spec fn spec_exception_entries(
    bytes: Seq<u8>,
    off: int,
    rem: int,
    acc: Seq<ExceptionTableEntry>,
) -> Result<(Seq<ExceptionTableEntry>, int), SpecError>
    decreases rem,
{
    if rem <= 0 {
        Ok((acc, off))
    } else if off + 8 > bytes.len() {
        Err(SpecError::Truncated)
    } else {
        spec_exception_entries(
            bytes,
            off + 8,
            rem - 1,
            acc.push(
                ExceptionTableEntry {
                    start_pc: be_u16(bytes, off),
                    end_pc: be_u16(bytes, off + 2),
                    handler_pc: be_u16(bytes, off + 4),
                    catch_type: be_u16(bytes, off + 6),
                },
            ),
        )
    }
}

/// Reads `rem` line number table entries (two `u16`s each) starting at `off`.
pub open spec fn spec_line_number_entries(
    bytes: Seq<u8>,
    off: int,
    rem: int,
    acc: Seq<LineNumberTableEntry>,
) -> Result<(Seq<LineNumberTableEntry>, int), SpecError>
    decreases rem,
{
    if rem <= 0 {
        Ok((acc, off))
    } else if off + 4 > bytes.len() {
        Err(SpecError::Truncated)
    } else {
        spec_line_number_entries(
            bytes,
            off + 4,
            rem - 1,
            acc.push(
                LineNumberTableEntry {
                    start_pc: be_u16(bytes, off),
                    line_number: be_u16(bytes, off + 2),
                },
            ),
        )
    }
}

/// Reads `rem` inner class entries (four `u16`s each) starting at `off`.
/// Under the `reject` policy a flag word with undefined bits fails.
pub open spec fn spec_inner_class_entries(
    bytes: Seq<u8>,
    off: int,
    rem: int,
    opts: ParseOptions,
    acc: Seq<InnerClassAttribute>,
) -> Result<(Seq<InnerClassAttribute>, int), SpecError>
    decreases rem,
{
    if rem <= 0 {
        Ok((acc, off))
    } else if off + 8 > bytes.len() {
        Err(SpecError::Truncated)
    } else {
        let flags = be_u16(bytes, off + 6);
        if opts.on_unknown_access_bits == AccessBitsPolicy::Reject && flags
            & !INNER_CLASS_FLAGS_MASK != 0 {
            Err(SpecError::UnknownAccessBits(flags))
        } else {
            spec_inner_class_entries(
                bytes,
                off + 8,
                rem - 1,
                opts,
                acc.push(
                    InnerClassAttribute {
                        inner_class_info_index: be_u16(bytes, off),
                        outer_class_info_index: be_u16(bytes, off + 2),
                        inner_name_index: be_u16(bytes, off + 4),
                        inner_class_access_flags: InnerClassAccessFlag { bits: flags },
                    },
                ),
            )
        }
    }
}

/// Reads `rem` method parameter entries (two `u16`s each) starting at `off`.
/// Under the `reject` policy a flag word with undefined bits fails.
pub open spec fn spec_parameter_entries(
    bytes: Seq<u8>,
    off: int,
    rem: int,
    opts: ParseOptions,
    acc: Seq<ParameterAttribute>,
) -> Result<(Seq<ParameterAttribute>, int), SpecError>
    decreases rem,
{
    if rem <= 0 {
        Ok((acc, off))
    } else if off + 4 > bytes.len() {
        Err(SpecError::Truncated)
    } else {
        let flags = be_u16(bytes, off + 2);
        if opts.on_unknown_access_bits == AccessBitsPolicy::Reject && flags & !PARAMETER_FLAGS_MASK
            != 0 {
            Err(SpecError::UnknownAccessBits(flags))
        } else {
            spec_parameter_entries(
                bytes,
                off + 4,
                rem - 1,
                opts,
                acc.push(
                    ParameterAttribute {
                        name_index: be_u16(bytes, off),
                        access_flags: ParameterAccessFlag { bits: flags },
                    },
                ),
            )
        }
    }
}

/// Reads `rem` bootstrap method entries starting at `off`: each is a method
/// reference, an argument count, and that many `u16` argument indices.
pub open spec fn spec_bootstrap_entries(
    bytes: Seq<u8>,
    off: int,
    rem: int,
    acc: Seq<SpecBootstrapMethod>,
) -> Result<(Seq<SpecBootstrapMethod>, int), SpecError>
    decreases rem,
{
    if rem <= 0 {
        Ok((acc, off))
    } else if off + 4 > bytes.len() {
        Err(SpecError::Truncated)
    } else {
        let bootstrap_method_ref = be_u16(bytes, off);
        let num_bootstrap_arguments = be_u16(bytes, off + 2);
        match spec_u16s(bytes, off + 4, num_bootstrap_arguments as int, Seq::empty()) {
            Err(e) => Err(e),
            Ok((bootstrap_arguments, next)) => spec_bootstrap_entries(
                bytes,
                next,
                rem - 1,
                acc.push(
                    SpecBootstrapMethod {
                        bootstrap_method_ref,
                        num_bootstrap_arguments,
                        bootstrap_arguments,
                    },
                ),
            ),
        }
    }
}

/// Decodes the body of a `LineNumberTable` attribute, whose entry count
/// sits at `off`.
pub open spec fn spec_parse_line_number_table(
    bytes: Seq<u8>,
    off: int,
    attribute_name_index: u16,
    attribute_length: u32,
) -> Result<(SpecAttribute, int), SpecError> {
    if off + 2 > bytes.len() {
        Err(SpecError::Truncated)
    } else {
        let line_number_table_length = be_u16(bytes, off);
        match spec_line_number_entries(
            bytes,
            off + 2,
            line_number_table_length as int,
            Seq::empty(),
        ) {
            Err(e) => Err(e),
            Ok((line_number_table, end)) => Ok((
                SpecAttribute::LineNumberTable {
                    attribute_name_index,
                    attribute_length,
                    line_number_table_length,
                    line_number_table,
                },
                end,
            )),
        }
    }
}

/// Decodes the body of a `Code` attribute, whose `max_stack` field sits at
/// `off`: the sizes, the instruction stream of exactly `code_length` bytes,
/// the exception table, and the nested attributes one level deeper.
pub open spec fn spec_parse_code(
    bytes: Seq<u8>,
    off: int,
    pool: Seq<SpecConstant>,
    opts: ParseOptions,
    depth: int,
    attribute_name_index: u16,
    attribute_length: u32,
) -> Result<(SpecAttribute, int), SpecError>
    decreases depth, 0int, 0int,
{
    if depth <= 0 {
        Err(SpecError::AttributeDepthExceeded)
    } else if off + 8 > bytes.len() {
        Err(SpecError::Truncated)
    } else {
        let max_stack = be_u16(bytes, off);
        let max_locals = be_u16(bytes, off + 2);
        let code_length = be_u32(bytes, off + 4);
        match spec_parse_instrs(bytes, off + 8, off + 8 + code_length, off + 8, Seq::empty()) {
            Err(e) => Err(e),
            Ok((code, code_end)) => {
                if code_end + 2 > bytes.len() {
                    Err(SpecError::Truncated)
                } else {
                    let exception_table_length = be_u16(bytes, code_end);
                    match spec_exception_entries(
                        bytes,
                        code_end + 2,
                        exception_table_length as int,
                        Seq::empty(),
                    ) {
                        Err(e) => Err(e),
                        Ok((exception_table, et_end)) => {
                            if et_end + 2 > bytes.len() {
                                Err(SpecError::Truncated)
                            } else {
                                let attributes_count = be_u16(bytes, et_end);
                                match spec_parse_attributes(
                                    bytes,
                                    et_end + 2,
                                    attributes_count as int,
                                    pool,
                                    opts,
                                    depth - 1,
                                    Seq::empty(),
                                ) {
                                    Err(e) => Err(e),
                                    Ok((attributes, end)) => Ok((
                                        SpecAttribute::Code {
                                            attribute_name_index,
                                            attribute_length,
                                            max_stack,
                                            max_locals,
                                            code_length,
                                            code,
                                            exception_table_length,
                                            exception_table,
                                            attributes_count,
                                            attributes,
                                        },
                                        end,
                                    )),
                                }
                            }
                        },
                    }
                }
            },
        }
    }
}

/// Decodes the single attribute whose `attribute_name_index` sits at `off`.
/// The result is `None` when the attribute has an unrecognized name and the
/// policy is `skip`: its `attribute_length` bytes are consumed and nothing
/// is kept.
pub open spec fn spec_parse_attribute(
    bytes: Seq<u8>,
    off: int,
    pool: Seq<SpecConstant>,
    opts: ParseOptions,
    depth: int,
) -> Result<(Option<SpecAttribute>, int), SpecError>
    decreases depth, 0int, 1int,
{
    if depth <= 0 {
        Err(SpecError::AttributeDepthExceeded)
    } else if off + 2 > bytes.len() {
        Err(SpecError::Truncated)
    } else {
        let attribute_name_index = be_u16(bytes, off);
        if off + 6 > bytes.len() {
            Err(SpecError::Truncated)
        } else {
            let attribute_length = be_u32(bytes, off + 2);
            match spec_resolve_utf8(pool, attribute_name_index) {
                None => Err(SpecError::InvalidNameIndex),
                Some(name) => {
                    if !vstd::utf8::valid_utf8(name) {
                        Err(SpecError::InvalidUtf8)
                    } else {
                        let body = off + 6;
                        match spec_attr_name_kind(name) {
                            AttrKind::ConstantValue => {
                                if body + 2 > bytes.len() {
                                    Err(SpecError::Truncated)
                                } else {
                                    Ok((
                                        Some(
                                            SpecAttribute::ConstantValue {
                                                attribute_name_index,
                                                attribute_length,
                                                constantvalue_index: be_u16(bytes, body),
                                            },
                                        ),
                                        body + 2,
                                    ))
                                }
                            },
                            AttrKind::Code => match spec_parse_code(
                                bytes,
                                body,
                                pool,
                                opts,
                                depth,
                                attribute_name_index,
                                attribute_length,
                            ) {
                                Err(e) => Err(e),
                                Ok((a, end)) => Ok((Some(a), end)),
                            },
                            AttrKind::InnerClasses => {
                                if body + 2 > bytes.len() {
                                    Err(SpecError::Truncated)
                                } else {
                                    let number_of_classes = be_u16(bytes, body);
                                    match spec_inner_class_entries(
                                        bytes,
                                        body + 2,
                                        number_of_classes as int,
                                        opts,
                                        Seq::empty(),
                                    ) {
                                        Err(e) => Err(e),
                                        Ok((classes, end)) => Ok((
                                            Some(
                                                SpecAttribute::InnerClasses {
                                                    attribute_name_index,
                                                    attribute_length,
                                                    number_of_classes,
                                                    classes,
                                                },
                                            ),
                                            end,
                                        )),
                                    }
                                }
                            },
                            AttrKind::SourceFile => {
                                if body + 2 > bytes.len() {
                                    Err(SpecError::Truncated)
                                } else {
                                    Ok((
                                        Some(
                                            SpecAttribute::SourceFile {
                                                attribute_name_index,
                                                attribute_length,
                                                sourcefile_index: be_u16(bytes, body),
                                            },
                                        ),
                                        body + 2,
                                    ))
                                }
                            },
                            AttrKind::LineNumberTable => match spec_parse_line_number_table(
                                bytes,
                                body,
                                attribute_name_index,
                                attribute_length,
                            ) {
                                Err(e) => Err(e),
                                Ok((a, end)) => Ok((Some(a), end)),
                            },
                            AttrKind::BootstrapMethods => {
                                if body + 2 > bytes.len() {
                                    Err(SpecError::Truncated)
                                } else {
                                    let num_bootstrap_methods = be_u16(bytes, body);
                                    match spec_bootstrap_entries(
                                        bytes,
                                        body + 2,
                                        num_bootstrap_methods as int,
                                        Seq::empty(),
                                    ) {
                                        Err(e) => Err(e),
                                        Ok((bootstrap_methods, end)) => Ok((
                                            Some(
                                                SpecAttribute::BootstrapMethods {
                                                    attribute_name_index,
                                                    attribute_length,
                                                    num_bootstrap_methods,
                                                    bootstrap_methods,
                                                },
                                            ),
                                            end,
                                        )),
                                    }
                                }
                            },
                            AttrKind::MethodParameters => {
                                if body + 1 > bytes.len() {
                                    Err(SpecError::Truncated)
                                } else {
                                    let parameters_count = bytes[body];
                                    match spec_parameter_entries(
                                        bytes,
                                        body + 1,
                                        parameters_count as int,
                                        opts,
                                        Seq::empty(),
                                    ) {
                                        Err(e) => Err(e),
                                        Ok((parameters, end)) => Ok((
                                            Some(
                                                SpecAttribute::MethodParameters {
                                                    attribute_name_index,
                                                    attribute_length,
                                                    parameters_count,
                                                    parameters,
                                                },
                                            ),
                                            end,
                                        )),
                                    }
                                }
                            },
                            AttrKind::NestMembers => {
                                if body + 2 > bytes.len() {
                                    Err(SpecError::Truncated)
                                } else {
                                    let number_of_classes = be_u16(bytes, body);
                                    match spec_u16s(
                                        bytes,
                                        body + 2,
                                        number_of_classes as int,
                                        Seq::empty(),
                                    ) {
                                        Err(e) => Err(e),
                                        Ok((classes, end)) => Ok((
                                            Some(
                                                SpecAttribute::NestMembers {
                                                    attribute_name_index,
                                                    attribute_length,
                                                    number_of_classes,
                                                    classes,
                                                },
                                            ),
                                            end,
                                        )),
                                    }
                                }
                            },
                            AttrKind::Unknown => match opts.on_unknown_attribute {
                                AttributePolicy::Reject => Err(SpecError::UnknownAttribute(name)),
                                AttributePolicy::Skip => {
                                    if body + attribute_length > bytes.len() {
                                        Err(SpecError::Truncated)
                                    } else {
                                        Ok((None, body + attribute_length))
                                    }
                                },
                            },
                        }
                    }
                },
            }
        }
    }
}

/// Decodes `rem` attributes starting at `off`, appending the kept ones to
/// `acc`.  A non-empty list at depth zero fails with
/// `AttributeDepthExceeded`; `Code` decodes its nested attributes one level
/// deeper.
pub open spec fn spec_parse_attributes(
    bytes: Seq<u8>,
    off: int,
    rem: int,
    pool: Seq<SpecConstant>,
    opts: ParseOptions,
    depth: int,
    acc: Seq<SpecAttribute>,
) -> Result<(Seq<SpecAttribute>, int), SpecError>
    decreases depth, rem, 2int,
{
    if rem <= 0 {
        Ok((acc, off))
    } else if depth <= 0 {
        Err(SpecError::AttributeDepthExceeded)
    } else {
        match spec_parse_attribute(bytes, off, pool, opts, depth) {
            Err(e) => Err(e),
            Ok((kept, next)) => spec_parse_attributes(
                bytes,
                next,
                rem - 1,
                pool,
                opts,
                depth,
                match kept {
                    Some(a) => acc.push(a),
                    None => acc,
                },
            ),
        }
    }
}

/// Reading exception table entries never moves the offset backwards.
pub proof fn lemma_exception_entries_advances(
    bytes: Seq<u8>,
    off: int,
    rem: int,
    acc: Seq<ExceptionTableEntry>,
)
    ensures
        spec_exception_entries(bytes, off, rem, acc) matches Ok(r) ==> r.1 >= off,
    decreases rem,
{
    if rem <= 0 {
    } else if off + 8 > bytes.len() {
    } else {
        lemma_exception_entries_advances(
            bytes,
            off + 8,
            rem - 1,
            acc.push(
                ExceptionTableEntry {
                    start_pc: be_u16(bytes, off),
                    end_pc: be_u16(bytes, off + 2),
                    handler_pc: be_u16(bytes, off + 4),
                    catch_type: be_u16(bytes, off + 6),
                },
            ),
        );
    }
}

/// Reading line number entries never moves the offset backwards.
pub proof fn lemma_line_number_entries_advances(
    bytes: Seq<u8>,
    off: int,
    rem: int,
    acc: Seq<LineNumberTableEntry>,
)
    ensures
        spec_line_number_entries(bytes, off, rem, acc) matches Ok(r) ==> r.1 >= off,
    decreases rem,
{
    if rem <= 0 {
    } else if off + 4 > bytes.len() {
    } else {
        lemma_line_number_entries_advances(
            bytes,
            off + 4,
            rem - 1,
            acc.push(
                LineNumberTableEntry {
                    start_pc: be_u16(bytes, off),
                    line_number: be_u16(bytes, off + 2),
                },
            ),
        );
    }
}

/// Reading inner class entries never moves the offset backwards.
pub proof fn lemma_inner_class_entries_advances(
    bytes: Seq<u8>,
    off: int,
    rem: int,
    opts: ParseOptions,
    acc: Seq<InnerClassAttribute>,
)
    ensures
        spec_inner_class_entries(bytes, off, rem, opts, acc) matches Ok(r) ==> r.1 >= off,
    decreases rem,
{
    if rem <= 0 {
    } else if off + 8 > bytes.len() {
    } else {
        let flags = be_u16(bytes, off + 6);
        if opts.on_unknown_access_bits == AccessBitsPolicy::Reject && flags
            & !INNER_CLASS_FLAGS_MASK != 0 {
        } else {
            lemma_inner_class_entries_advances(
                bytes,
                off + 8,
                rem - 1,
                opts,
                acc.push(
                    InnerClassAttribute {
                        inner_class_info_index: be_u16(bytes, off),
                        outer_class_info_index: be_u16(bytes, off + 2),
                        inner_name_index: be_u16(bytes, off + 4),
                        inner_class_access_flags: InnerClassAccessFlag { bits: flags },
                    },
                ),
            );
        }
    }
}

/// Reading parameter entries never moves the offset backwards.
pub proof fn lemma_parameter_entries_advances(
    bytes: Seq<u8>,
    off: int,
    rem: int,
    opts: ParseOptions,
    acc: Seq<ParameterAttribute>,
)
    ensures
        spec_parameter_entries(bytes, off, rem, opts, acc) matches Ok(r) ==> r.1 >= off,
    decreases rem,
{
    if rem <= 0 {
    } else if off + 4 > bytes.len() {
    } else {
        let flags = be_u16(bytes, off + 2);
        if opts.on_unknown_access_bits == AccessBitsPolicy::Reject && flags & !PARAMETER_FLAGS_MASK
            != 0 {
        } else {
            lemma_parameter_entries_advances(
                bytes,
                off + 4,
                rem - 1,
                opts,
                acc.push(
                    ParameterAttribute {
                        name_index: be_u16(bytes, off),
                        access_flags: ParameterAccessFlag { bits: flags },
                    },
                ),
            );
        }
    }
}

/// Reading bootstrap method entries never moves the offset backwards.
pub proof fn lemma_bootstrap_entries_advances(
    bytes: Seq<u8>,
    off: int,
    rem: int,
    acc: Seq<SpecBootstrapMethod>,
)
    ensures
        spec_bootstrap_entries(bytes, off, rem, acc) matches Ok(r) ==> r.1 >= off,
    decreases rem,
{
    if rem <= 0 {
    } else if off + 4 > bytes.len() {
    } else {
        let bootstrap_method_ref = be_u16(bytes, off);
        let num_bootstrap_arguments = be_u16(bytes, off + 2);
        crate::wire::lemma_u16s_advances(
            bytes,
            off + 4,
            num_bootstrap_arguments as int,
            Seq::empty(),
        );
        match spec_u16s(bytes, off + 4, num_bootstrap_arguments as int, Seq::empty()) {
            Err(_) => {},
            Ok((bootstrap_arguments, next)) => {
                lemma_bootstrap_entries_advances(
                    bytes,
                    next,
                    rem - 1,
                    acc.push(
                        SpecBootstrapMethod {
                            bootstrap_method_ref,
                            num_bootstrap_arguments,
                            bootstrap_arguments,
                        },
                    ),
                );
            },
        }
    }
}

/// Decoding one attribute never moves the offset backwards.
pub proof fn lemma_attribute_advances(
    bytes: Seq<u8>,
    off: int,
    pool: Seq<SpecConstant>,
    opts: ParseOptions,
    depth: int,
)
    ensures
        spec_parse_attribute(bytes, off, pool, opts, depth) matches Ok(r) ==> r.1 >= off,
    decreases depth, 0int, 1int,
{
    if depth <= 0 {
    } else if off + 2 > bytes.len() {
    } else if off + 6 > bytes.len() {
    } else {
        match spec_resolve_utf8(pool, be_u16(bytes, off)) {
            None => {},
            Some(name) => {
                if vstd::utf8::valid_utf8(name) {
                    let body = off + 6;
                    match spec_attr_name_kind(name) {
                        AttrKind::Code => {
                            lemma_code_advances(
                                bytes,
                                body,
                                pool,
                                opts,
                                depth,
                                be_u16(bytes, off),
                                be_u32(bytes, off + 2),
                            );
                        },
                        AttrKind::InnerClasses => {
                            if body + 2 <= bytes.len() {
                                lemma_inner_class_entries_advances(
                                    bytes,
                                    body + 2,
                                    be_u16(bytes, body) as int,
                                    opts,
                                    Seq::empty(),
                                );
                            }
                        },
                        AttrKind::LineNumberTable => {
                            if body + 2 <= bytes.len() {
                                lemma_line_number_entries_advances(
                                    bytes,
                                    body + 2,
                                    be_u16(bytes, body) as int,
                                    Seq::empty(),
                                );
                            }
                        },
                        AttrKind::BootstrapMethods => {
                            if body + 2 <= bytes.len() {
                                lemma_bootstrap_entries_advances(
                                    bytes,
                                    body + 2,
                                    be_u16(bytes, body) as int,
                                    Seq::empty(),
                                );
                            }
                        },
                        AttrKind::MethodParameters => {
                            if body + 1 <= bytes.len() {
                                lemma_parameter_entries_advances(
                                    bytes,
                                    body + 1,
                                    bytes[body] as int,
                                    opts,
                                    Seq::empty(),
                                );
                            }
                        },
                        AttrKind::NestMembers => {
                            if body + 2 <= bytes.len() {
                                crate::wire::lemma_u16s_advances(
                                    bytes,
                                    body + 2,
                                    be_u16(bytes, body) as int,
                                    Seq::empty(),
                                );
                            }
                        },
                        _ => {},
                    }
                }
            },
        }
    }
}

/// Decoding a `Code` attribute body never moves the offset backwards.
pub proof fn lemma_code_advances(
    bytes: Seq<u8>,
    off: int,
    pool: Seq<SpecConstant>,
    opts: ParseOptions,
    depth: int,
    attribute_name_index: u16,
    attribute_length: u32,
)
    ensures
        spec_parse_code(bytes, off, pool, opts, depth, attribute_name_index, attribute_length)
            matches Ok(r) ==> r.1 >= off,
    decreases depth, 0int, 0int,
{
    if depth <= 0 {
    } else if off + 8 > bytes.len() {
    } else {
        let code_length = be_u32(bytes, off + 4);
        crate::opcode::lemma_instrs_advances(
            bytes,
            off + 8,
            off + 8 + code_length,
            off + 8,
            Seq::empty(),
        );
        match crate::opcode::spec_parse_instrs(
            bytes,
            off + 8,
            off + 8 + code_length,
            off + 8,
            Seq::empty(),
        ) {
            Err(_) => {},
            Ok((_, code_end)) => {
                if code_end + 2 <= bytes.len() {
                    lemma_exception_entries_advances(
                        bytes,
                        code_end + 2,
                        be_u16(bytes, code_end) as int,
                        Seq::empty(),
                    );
                    match spec_exception_entries(
                        bytes,
                        code_end + 2,
                        be_u16(bytes, code_end) as int,
                        Seq::empty(),
                    ) {
                        Err(_) => {},
                        Ok((_, et_end)) => {
                            if et_end + 2 <= bytes.len() {
                                lemma_attributes_advances(
                                    bytes,
                                    et_end + 2,
                                    be_u16(bytes, et_end) as int,
                                    pool,
                                    opts,
                                    depth - 1,
                                    Seq::empty(),
                                );
                            }
                        },
                    }
                }
            },
        }
    }
}

/// Decoding an attribute list never moves the offset backwards.
pub proof fn lemma_attributes_advances(
    bytes: Seq<u8>,
    off: int,
    rem: int,
    pool: Seq<SpecConstant>,
    opts: ParseOptions,
    depth: int,
    acc: Seq<SpecAttribute>,
)
    ensures
        spec_parse_attributes(bytes, off, rem, pool, opts, depth, acc) matches Ok(r) ==> r.1
            >= off,
    decreases depth, rem, 2int,
{
    if rem <= 0 {
    } else if depth <= 0 {
    } else {
        match spec_parse_attribute(bytes, off, pool, opts, depth) {
            Err(_) => {},
            Ok((kept, next)) => {
                lemma_attribute_advances(bytes, off, pool, opts, depth);
                let acc2 = match kept {
                    Some(a) => acc.push(a),
                    None => acc,
                };
                lemma_attributes_advances(bytes, next, rem - 1, pool, opts, depth, acc2);
            },
        }
    }
}

/// Reading exception table entries from a prefix of the buffer.
pub proof fn lemma_exception_entries_truncated(
    bytes: Seq<u8>,
    m: int,
    off: int,
    rem: int,
    acc: Seq<ExceptionTableEntry>,
)
    requires
        0 <= off <= m <= bytes.len(),
    ensures
        spec_exception_entries(bytes, off, rem, acc) matches Ok(r) ==> spec_exception_entries(
            bytes.take(m),
            off,
            rem,
            acc,
        ) == (if r.1 <= m {
            Ok::<(Seq<ExceptionTableEntry>, int), SpecError>(r)
        } else {
            Err(SpecError::Truncated)
        }),
    decreases rem,
{
    broadcast use vstd::seq::group_seq_axioms;

    if rem <= 0 {
    } else if off + 8 > bytes.len() {
    } else {
        let e = ExceptionTableEntry {
            start_pc: be_u16(bytes, off),
            end_pc: be_u16(bytes, off + 2),
            handler_pc: be_u16(bytes, off + 4),
            catch_type: be_u16(bytes, off + 6),
        };
        lemma_exception_entries_advances(bytes, off + 8, rem - 1, acc.push(e));
        if off + 8 <= m {
            assert(be_u16(bytes.take(m), off) == be_u16(bytes, off));
            assert(be_u16(bytes.take(m), off + 2) == be_u16(bytes, off + 2));
            assert(be_u16(bytes.take(m), off + 4) == be_u16(bytes, off + 4));
            assert(be_u16(bytes.take(m), off + 6) == be_u16(bytes, off + 6));
            lemma_exception_entries_truncated(bytes, m, off + 8, rem - 1, acc.push(e));
        }
    }
}

/// Reading line number entries from a prefix of the buffer.
pub proof fn lemma_line_number_entries_truncated(
    bytes: Seq<u8>,
    m: int,
    off: int,
    rem: int,
    acc: Seq<LineNumberTableEntry>,
)
    requires
        0 <= off <= m <= bytes.len(),
    ensures
        spec_line_number_entries(bytes, off, rem, acc) matches Ok(r) ==> spec_line_number_entries(
            bytes.take(m),
            off,
            rem,
            acc,
        ) == (if r.1 <= m {
            Ok::<(Seq<LineNumberTableEntry>, int), SpecError>(r)
        } else {
            Err(SpecError::Truncated)
        }),
    decreases rem,
{
    broadcast use vstd::seq::group_seq_axioms;

    if rem <= 0 {
    } else if off + 4 > bytes.len() {
    } else {
        let e = LineNumberTableEntry {
            start_pc: be_u16(bytes, off),
            line_number: be_u16(bytes, off + 2),
        };
        lemma_line_number_entries_advances(bytes, off + 4, rem - 1, acc.push(e));
        if off + 4 <= m {
            assert(be_u16(bytes.take(m), off) == be_u16(bytes, off));
            assert(be_u16(bytes.take(m), off + 2) == be_u16(bytes, off + 2));
            lemma_line_number_entries_truncated(bytes, m, off + 4, rem - 1, acc.push(e));
        }
    }
}

/// Reading inner class entries from a prefix of the buffer.
pub proof fn lemma_inner_class_entries_truncated(
    bytes: Seq<u8>,
    m: int,
    off: int,
    rem: int,
    opts: ParseOptions,
    acc: Seq<InnerClassAttribute>,
)
    requires
        0 <= off <= m <= bytes.len(),
    ensures
        spec_inner_class_entries(bytes, off, rem, opts, acc) matches Ok(r)
            ==> spec_inner_class_entries(bytes.take(m), off, rem, opts, acc) == (if r.1 <= m {
            Ok::<(Seq<InnerClassAttribute>, int), SpecError>(r)
        } else {
            Err(SpecError::Truncated)
        }),
    decreases rem,
{
    broadcast use vstd::seq::group_seq_axioms;

    if rem <= 0 {
    } else if off + 8 > bytes.len() {
    } else {
        let flags = be_u16(bytes, off + 6);
        if opts.on_unknown_access_bits == AccessBitsPolicy::Reject && flags
            & !INNER_CLASS_FLAGS_MASK != 0 {
        } else {
            let e = InnerClassAttribute {
                inner_class_info_index: be_u16(bytes, off),
                outer_class_info_index: be_u16(bytes, off + 2),
                inner_name_index: be_u16(bytes, off + 4),
                inner_class_access_flags: InnerClassAccessFlag { bits: flags },
            };
            lemma_inner_class_entries_advances(bytes, off + 8, rem - 1, opts, acc.push(e));
            if off + 8 <= m {
                assert(be_u16(bytes.take(m), off) == be_u16(bytes, off));
                assert(be_u16(bytes.take(m), off + 2) == be_u16(bytes, off + 2));
                assert(be_u16(bytes.take(m), off + 4) == be_u16(bytes, off + 4));
                assert(be_u16(bytes.take(m), off + 6) == be_u16(bytes, off + 6));
                lemma_inner_class_entries_truncated(bytes, m, off + 8, rem - 1, opts, acc.push(e));
            }
        }
    }
}

/// Reading parameter entries from a prefix of the buffer.
pub proof fn lemma_parameter_entries_truncated(
    bytes: Seq<u8>,
    m: int,
    off: int,
    rem: int,
    opts: ParseOptions,
    acc: Seq<ParameterAttribute>,
)
    requires
        0 <= off <= m <= bytes.len(),
    ensures
        spec_parameter_entries(bytes, off, rem, opts, acc) matches Ok(r)
            ==> spec_parameter_entries(bytes.take(m), off, rem, opts, acc) == (if r.1 <= m {
            Ok::<(Seq<ParameterAttribute>, int), SpecError>(r)
        } else {
            Err(SpecError::Truncated)
        }),
    decreases rem,
{
    broadcast use vstd::seq::group_seq_axioms;

    if rem <= 0 {
    } else if off + 4 > bytes.len() {
    } else {
        let flags = be_u16(bytes, off + 2);
        if opts.on_unknown_access_bits == AccessBitsPolicy::Reject && flags & !PARAMETER_FLAGS_MASK
            != 0 {
        } else {
            let e = ParameterAttribute {
                name_index: be_u16(bytes, off),
                access_flags: ParameterAccessFlag { bits: flags },
            };
            lemma_parameter_entries_advances(bytes, off + 4, rem - 1, opts, acc.push(e));
            if off + 4 <= m {
                assert(be_u16(bytes.take(m), off) == be_u16(bytes, off));
                assert(be_u16(bytes.take(m), off + 2) == be_u16(bytes, off + 2));
                lemma_parameter_entries_truncated(bytes, m, off + 4, rem - 1, opts, acc.push(e));
            }
        }
    }
}

/// Reading bootstrap method entries from a prefix of the buffer.
pub proof fn lemma_bootstrap_entries_truncated(
    bytes: Seq<u8>,
    m: int,
    off: int,
    rem: int,
    acc: Seq<SpecBootstrapMethod>,
)
    requires
        0 <= off <= m <= bytes.len(),
    ensures
        spec_bootstrap_entries(bytes, off, rem, acc) matches Ok(r) ==> spec_bootstrap_entries(
            bytes.take(m),
            off,
            rem,
            acc,
        ) == (if r.1 <= m {
            Ok::<(Seq<SpecBootstrapMethod>, int), SpecError>(r)
        } else {
            Err(SpecError::Truncated)
        }),
    decreases rem,
{
    broadcast use vstd::seq::group_seq_axioms;

    if rem <= 0 {
    } else if off + 4 > bytes.len() {
    } else {
        let bootstrap_method_ref = be_u16(bytes, off);
        let num_bootstrap_arguments = be_u16(bytes, off + 2);
        if off + 4 <= m {
            crate::wire::lemma_u16s_truncated(
                bytes,
                m,
                off + 4,
                num_bootstrap_arguments as int,
                Seq::empty(),
            );
        }
        match spec_u16s(bytes, off + 4, num_bootstrap_arguments as int, Seq::empty()) {
            Err(_) => {},
            Ok((bootstrap_arguments, next)) => {
                crate::wire::lemma_u16s_advances(
                    bytes,
                    off + 4,
                    num_bootstrap_arguments as int,
                    Seq::empty(),
                );
                let e = SpecBootstrapMethod {
                    bootstrap_method_ref,
                    num_bootstrap_arguments,
                    bootstrap_arguments,
                };
                lemma_bootstrap_entries_advances(bytes, next, rem - 1, acc.push(e));
                if off + 4 <= m {
                    assert(be_u16(bytes.take(m), off) == be_u16(bytes, off));
                    assert(be_u16(bytes.take(m), off + 2) == be_u16(bytes, off + 2));
                    if next <= m {
                        lemma_bootstrap_entries_truncated(bytes, m, next, rem - 1, acc.push(e));
                    }
                }
            },
        }
    }
}

/// Decoding one attribute from a prefix of the buffer: an attribute that lay
/// inside the prefix is unchanged, and one that needed a byte past the cut
/// fails with `Truncated`.
#[verifier::rlimit(60)]
pub proof fn lemma_attribute_truncated(
    bytes: Seq<u8>,
    m: int,
    off: int,
    pool: Seq<SpecConstant>,
    opts: ParseOptions,
    depth: int,
)
    requires
        0 <= off <= m <= bytes.len(),
    ensures
        spec_parse_attribute(bytes, off, pool, opts, depth) matches Ok(r) ==> spec_parse_attribute(
            bytes.take(m),
            off,
            pool,
            opts,
            depth,
        ) == (if r.1 <= m {
            Ok::<(Option<SpecAttribute>, int), SpecError>(r)
        } else {
            Err(SpecError::Truncated)
        }),
    decreases depth, 0int, 1int,
{
    broadcast use vstd::seq::group_seq_axioms;

    if depth <= 0 {
    } else if off + 2 > bytes.len() {
    } else if off + 6 > bytes.len() {
    } else {
        if off + 6 <= m {
            assert(be_u16(bytes.take(m), off) == be_u16(bytes, off));
            assert(be_u32(bytes.take(m), off + 2) == be_u32(bytes, off + 2));
        }
        let attribute_name_index = be_u16(bytes, off);
        let attribute_length = be_u32(bytes, off + 2);
        let body = off + 6;
        match spec_resolve_utf8(pool, attribute_name_index) {
            None => {},
            Some(name) => {
                if vstd::utf8::valid_utf8(name) {
                    match spec_attr_name_kind(name) {
                        AttrKind::ConstantValue => {
                            if body + 2 <= m {
                                assert(be_u16(bytes.take(m), body) == be_u16(bytes, body));
                            }
                        },
                        AttrKind::Code => {
                            lemma_code_advances(
                                bytes,
                                body,
                                pool,
                                opts,
                                depth,
                                attribute_name_index,
                                attribute_length,
                            );
                            if body <= m {
                                lemma_code_truncated(
                                    bytes,
                                    m,
                                    body,
                                    pool,
                                    opts,
                                    depth,
                                    attribute_name_index,
                                    attribute_length,
                                );
                            }
                        },
                        AttrKind::InnerClasses => {
                            if body + 2 <= bytes.len() {
                                if body + 2 <= m {
                                    assert(be_u16(bytes.take(m), body) == be_u16(bytes, body));
                                }
                                lemma_inner_class_entries_advances(
                                    bytes,
                                    body + 2,
                                    be_u16(bytes, body) as int,
                                    opts,
                                    Seq::empty(),
                                );
                                if body + 2 <= m {
                                    lemma_inner_class_entries_truncated(
                                        bytes,
                                        m,
                                        body + 2,
                                        be_u16(bytes, body) as int,
                                        opts,
                                        Seq::empty(),
                                    );
                                }
                            }
                        },
                        AttrKind::SourceFile => {
                            if body + 2 <= m {
                                assert(be_u16(bytes.take(m), body) == be_u16(bytes, body));
                            }
                        },
                        AttrKind::LineNumberTable => {
                            if body + 2 <= bytes.len() {
                                if body + 2 <= m {
                                    assert(be_u16(bytes.take(m), body) == be_u16(bytes, body));
                                }
                                lemma_line_number_entries_advances(
                                    bytes,
                                    body + 2,
                                    be_u16(bytes, body) as int,
                                    Seq::empty(),
                                );
                                if body + 2 <= m {
                                    lemma_line_number_entries_truncated(
                                        bytes,
                                        m,
                                        body + 2,
                                        be_u16(bytes, body) as int,
                                        Seq::empty(),
                                    );
                                }
                            }
                        },
                        AttrKind::BootstrapMethods => {
                            if body + 2 <= bytes.len() {
                                if body + 2 <= m {
                                    assert(be_u16(bytes.take(m), body) == be_u16(bytes, body));
                                }
                                lemma_bootstrap_entries_advances(
                                    bytes,
                                    body + 2,
                                    be_u16(bytes, body) as int,
                                    Seq::empty(),
                                );
                                if body + 2 <= m {
                                    lemma_bootstrap_entries_truncated(
                                        bytes,
                                        m,
                                        body + 2,
                                        be_u16(bytes, body) as int,
                                        Seq::empty(),
                                    );
                                }
                            }
                        },
                        AttrKind::MethodParameters => {
                            if body + 1 <= bytes.len() {
                                if body + 1 <= m {
                                    assert(bytes.take(m)[body] == bytes[body]);
                                }
                                lemma_parameter_entries_advances(
                                    bytes,
                                    body + 1,
                                    bytes[body] as int,
                                    opts,
                                    Seq::empty(),
                                );
                                if body + 1 <= m {
                                    lemma_parameter_entries_truncated(
                                        bytes,
                                        m,
                                        body + 1,
                                        bytes[body] as int,
                                        opts,
                                        Seq::empty(),
                                    );
                                }
                            }
                        },
                        AttrKind::NestMembers => {
                            if body + 2 <= bytes.len() {
                                if body + 2 <= m {
                                    assert(be_u16(bytes.take(m), body) == be_u16(bytes, body));
                                }
                                crate::wire::lemma_u16s_advances(
                                    bytes,
                                    body + 2,
                                    be_u16(bytes, body) as int,
                                    Seq::empty(),
                                );
                                if body + 2 <= m {
                                    crate::wire::lemma_u16s_truncated(
                                        bytes,
                                        m,
                                        body + 2,
                                        be_u16(bytes, body) as int,
                                        Seq::empty(),
                                    );
                                }
                            }
                        },
                        AttrKind::Unknown => {},
                    }
                }
            },
        }
    }
}

/// Decoding a `Code` attribute body from a prefix of the buffer.
pub proof fn lemma_code_truncated(
    bytes: Seq<u8>,
    m: int,
    off: int,
    pool: Seq<SpecConstant>,
    opts: ParseOptions,
    depth: int,
    attribute_name_index: u16,
    attribute_length: u32,
)
    requires
        0 <= off <= m <= bytes.len(),
    ensures
        spec_parse_code(bytes, off, pool, opts, depth, attribute_name_index, attribute_length)
            matches Ok(r) ==> spec_parse_code(
            bytes.take(m),
            off,
            pool,
            opts,
            depth,
            attribute_name_index,
            attribute_length,
        ) == (if r.1 <= m {
            Ok::<(SpecAttribute, int), SpecError>(r)
        } else {
            Err(SpecError::Truncated)
        }),
    decreases depth, 0int, 0int,
{
    broadcast use vstd::seq::group_seq_axioms;

    if depth <= 0 {
    } else if off + 8 > bytes.len() {
    } else {
        if off + 8 <= m {
            assert(be_u16(bytes.take(m), off) == be_u16(bytes, off));
            assert(be_u16(bytes.take(m), off + 2) == be_u16(bytes, off + 2));
            assert(be_u32(bytes.take(m), off + 4) == be_u32(bytes, off + 4));
        }
        let code_length = be_u32(bytes, off + 4);
        crate::opcode::lemma_instrs_advances(
            bytes,
            off + 8,
            off + 8 + code_length,
            off + 8,
            Seq::empty(),
        );
        if off + 8 <= m {
            crate::opcode::lemma_instrs_truncated(
                bytes,
                m,
                off + 8,
                off + 8 + code_length,
                off + 8,
                Seq::empty(),
            );
        }
        match crate::opcode::spec_parse_instrs(
            bytes,
            off + 8,
            off + 8 + code_length,
            off + 8,
            Seq::empty(),
        ) {
            Err(_) => {},
            Ok((code, code_end)) => {
                if code_end + 2 <= bytes.len() {
                    if code_end + 2 <= m {
                        assert(be_u16(bytes.take(m), code_end) == be_u16(bytes, code_end));
                    }
                    lemma_exception_entries_advances(
                        bytes,
                        code_end + 2,
                        be_u16(bytes, code_end) as int,
                        Seq::empty(),
                    );
                    if code_end + 2 <= m {
                        lemma_exception_entries_truncated(
                            bytes,
                            m,
                            code_end + 2,
                            be_u16(bytes, code_end) as int,
                            Seq::empty(),
                        );
                    }
                    match spec_exception_entries(
                        bytes,
                        code_end + 2,
                        be_u16(bytes, code_end) as int,
                        Seq::empty(),
                    ) {
                        Err(_) => {},
                        Ok((_, et_end)) => {
                            if et_end + 2 <= bytes.len() {
                                if et_end + 2 <= m {
                                    assert(be_u16(bytes.take(m), et_end) == be_u16(bytes, et_end));
                                }
                                lemma_attributes_advances(
                                    bytes,
                                    et_end + 2,
                                    be_u16(bytes, et_end) as int,
                                    pool,
                                    opts,
                                    depth - 1,
                                    Seq::empty(),
                                );
                                if et_end + 2 <= m {
                                    lemma_attributes_truncated(
                                        bytes,
                                        m,
                                        et_end + 2,
                                        be_u16(bytes, et_end) as int,
                                        pool,
                                        opts,
                                        depth - 1,
                                        Seq::empty(),
                                    );
                                }
                            }
                        },
                    }
                }
            },
        }
    }
}

/// Decoding an attribute list from a prefix of the buffer.
pub proof fn lemma_attributes_truncated(
    bytes: Seq<u8>,
    m: int,
    off: int,
    rem: int,
    pool: Seq<SpecConstant>,
    opts: ParseOptions,
    depth: int,
    acc: Seq<SpecAttribute>,
)
    requires
        0 <= off <= m <= bytes.len(),
    ensures
        spec_parse_attributes(bytes, off, rem, pool, opts, depth, acc) matches Ok(r)
            ==> spec_parse_attributes(bytes.take(m), off, rem, pool, opts, depth, acc) == (if r.1
            <= m {
            Ok::<(Seq<SpecAttribute>, int), SpecError>(r)
        } else {
            Err(SpecError::Truncated)
        }),
    decreases depth, rem, 2int,
{
    if rem <= 0 {
    } else if depth <= 0 {
    } else {
        match spec_parse_attribute(bytes, off, pool, opts, depth) {
            Err(_) => {},
            Ok((kept, next)) => {
                lemma_attribute_truncated(bytes, m, off, pool, opts, depth);
                lemma_attribute_advances(bytes, off, pool, opts, depth);
                let acc2 = match kept {
                    Some(a) => acc.push(a),
                    None => acc,
                };
                lemma_attributes_advances(bytes, next, rem - 1, pool, opts, depth, acc2);
                if next <= m {
                    lemma_attributes_truncated(bytes, m, next, rem - 1, pool, opts, depth, acc2);
                }
            },
        }
    }
}

} // verus!
