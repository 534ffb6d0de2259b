//! Decoder for the Java class file format (JVM specification, chapter 4).
//!
//! The crate turns a byte buffer holding a compiled class into a structured
//! [`RawClass`] image: magic word, versions, constant pool, access flags,
//! interfaces, fields, methods and attributes, including the `Code`
//! attribute's instruction stream.  Every decoding step is specified by a
//! spec-level parser over the byte sequence, and each executable reader is
//! proved to return exactly what that specification says, for well-formed
//! and for malformed input alike.

pub mod access_flags;
pub mod attribute;
pub mod constant_pool;
pub mod error;
pub mod field;
pub mod laws;
pub mod method;
pub mod opcode;
pub mod options;
pub mod parser;
pub mod raw_class;
pub mod wire;

pub use attribute::Attribute;
pub use constant_pool::{Constant, ConstantTag, ReferenceKind};
pub use error::ErrorType;
pub use field::Field;
pub use method::Method;
pub use opcode::{Instruction, Opcode};
pub use options::ParseOptions;
pub use parser::ClassParser;
pub use raw_class::RawClass;
