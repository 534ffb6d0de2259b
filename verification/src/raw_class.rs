//! The decoded class image, and the spec-level driver that decodes a whole
//! class file.

use vstd::prelude::*;

use crate::access_flags::{ClassAccessFlag, CLASS_FLAGS_MASK};
use crate::attribute::{attrs_view, spec_parse_attributes, Attribute, SpecAttribute};
use crate::constant_pool::{pool_view, spec_parse_pool, Constant, SpecConstant};
use crate::error::SpecError;
use crate::field::{fields_view, spec_parse_fields, Field, SpecField};
use crate::method::{methods_view, spec_parse_methods, Method, SpecMethod};
use crate::options::{AccessBitsPolicy, ParseOptions};
use crate::wire::{be_u16, be_u32, spec_u16s};

verus! {

/// The magic word that opens every class file.
pub const CLASS_MAGIC: u32 = 0xCAFE_BABE;

/// A decoded class file (JVM §4.1).  `Utf8` and `Float` pool entries borrow
/// from the input buffer, which must outlive the image.
#[derive(Debug)]
pub struct RawClass<'c> {
    pub magic: u32,
    pub minor_version: u16,
    pub major_version: u16,
    pub constant_pool_count: u16,
    pub constant_pool: Vec<Constant<'c>>,
    pub access_flags: ClassAccessFlag,
    pub this_class: u16,
    pub super_class: u16,
    pub interface_count: u16,
    pub interfaces: Vec<u16>,
    pub field_count: u16,
    pub fields: Vec<Field>,
    pub methods_count: u16,
    pub methods: Vec<Method>,
    pub attributes_count: u16,
    pub attributes: Vec<Attribute>,
}

/// Spec-level mirror of [`RawClass`].
pub struct SpecRawClass {
    pub magic: u32,
    pub minor_version: u16,
    pub major_version: u16,
    pub constant_pool_count: u16,
    pub constant_pool: Seq<SpecConstant>,
    pub access_flags: ClassAccessFlag,
    pub this_class: u16,
    pub super_class: u16,
    pub interface_count: u16,
    pub interfaces: Seq<u16>,
    pub field_count: u16,
    pub fields: Seq<SpecField>,
    pub methods_count: u16,
    pub methods: Seq<SpecMethod>,
    pub attributes_count: u16,
    pub attributes: Seq<SpecAttribute>,
}

impl<'c> View for RawClass<'c> {
    type V = SpecRawClass;

    open spec fn view(&self) -> SpecRawClass {
        SpecRawClass {
            magic: self.magic,
            minor_version: self.minor_version,
            major_version: self.major_version,
            constant_pool_count: self.constant_pool_count,
            constant_pool: pool_view(self.constant_pool@),
            access_flags: self.access_flags,
            this_class: self.this_class,
            super_class: self.super_class,
            interface_count: self.interface_count,
            interfaces: self.interfaces@,
            field_count: self.field_count,
            fields: fields_view(self.fields@),
            methods_count: self.methods_count,
            methods: methods_view(self.methods@),
            attributes_count: self.attributes_count,
            attributes: attrs_view(self.attributes@),
        }
    }
}

/// Decodes one whole class file starting at `off`: magic word, versions,
/// constant pool, class access flags, this and super class, interfaces,
/// fields, methods and class attributes, and demands that the buffer is
/// consumed exactly.
pub open spec fn spec_parse_class(bytes: Seq<u8>, opts: ParseOptions, off: int) -> Result<
    (SpecRawClass, int),
    SpecError,
> {
    if off + 4 > bytes.len() {
        Err(SpecError::Truncated)
    } else if be_u32(bytes, off) != CLASS_MAGIC {
        Err(SpecError::BadMagic)
    } else if off + 10 > bytes.len() {
        Err(SpecError::Truncated)
    } else {
        let magic = be_u32(bytes, off);
        let minor_version = be_u16(bytes, off + 4);
        let major_version = be_u16(bytes, off + 6);
        let constant_pool_count = be_u16(bytes, off + 8);
        match spec_parse_pool(bytes, off + 10, constant_pool_count - 1, Seq::empty()) {
            Err(e) => Err(e),
            Ok((constant_pool, p_end)) => {
                if p_end + 2 > bytes.len() {
                    Err(SpecError::Truncated)
                } else {
                    let flags = be_u16(bytes, p_end);
                    if opts.on_unknown_access_bits == AccessBitsPolicy::Reject && flags
                        & !CLASS_FLAGS_MASK != 0 {
                        Err(SpecError::UnknownAccessBits(flags))
                    } else if p_end + 8 > bytes.len() {
                        Err(SpecError::Truncated)
                    } else {
                        let this_class = be_u16(bytes, p_end + 2);
                        let super_class = be_u16(bytes, p_end + 4);
                        let interface_count = be_u16(bytes, p_end + 6);
                        match spec_u16s(bytes, p_end + 8, interface_count as int, Seq::empty()) {
                            Err(e) => Err(e),
                            Ok((interfaces, i_end)) => {
                                if i_end + 2 > bytes.len() {
                                    Err(SpecError::Truncated)
                                } else {
                                    let field_count = be_u16(bytes, i_end);
                                    match spec_parse_fields(
                                        bytes,
                                        i_end + 2,
                                        field_count as int,
                                        constant_pool,
                                        opts,
                                        Seq::empty(),
                                    ) {
                                        Err(e) => Err(e),
                                        Ok((fields, f_end)) => {
                                            if f_end + 2 > bytes.len() {
                                                Err(SpecError::Truncated)
                                            } else {
                                                let methods_count = be_u16(bytes, f_end);
                                                match spec_parse_methods(
                                                    bytes,
                                                    f_end + 2,
                                                    methods_count as int,
                                                    constant_pool,
                                                    opts,
                                                    Seq::empty(),
                                                ) {
                                                    Err(e) => Err(e),
                                                    Ok((methods, m_end)) => {
                                                        if m_end + 2 > bytes.len() {
                                                            Err(SpecError::Truncated)
                                                        } else {
                                                            let attributes_count = be_u16(
                                                                bytes,
                                                                m_end,
                                                            );
                                                            match spec_parse_attributes(
                                                                bytes,
                                                                m_end + 2,
                                                                attributes_count as int,
                                                                constant_pool,
                                                                opts,
                                                                opts.max_attribute_depth as int,
                                                                Seq::empty(),
                                                            ) {
                                                                Err(e) => Err(e),
                                                                Ok((attributes, a_end)) => {
                                                                    if a_end != bytes.len() {
                                                                        Err(
                                                                            SpecError::TrailingBytes,
                                                                        )
                                                                    } else {
                                                                        Ok((
                                                                            SpecRawClass {
                                                                                magic,
                                                                                minor_version,
                                                                                major_version,
                                                                                constant_pool_count,
                                                                                constant_pool,
                                                                                access_flags: (ClassAccessFlag {
                                                                                    bits: flags,
                                                                                }),
                                                                                this_class,
                                                                                super_class,
                                                                                interface_count,
                                                                                interfaces,
                                                                                field_count,
                                                                                fields,
                                                                                methods_count,
                                                                                methods,
                                                                                attributes_count,
                                                                                attributes,
                                                                            },
                                                                            a_end,
                                                                        ))
                                                                    }
                                                                },
                                                            }
                                                        }
                                                    },
                                                }
                                            }
                                        },
                                    }
                                }
                            },
                        }
                    }
                }
            },
        }
    }
}

} // verus!
