//! Opcodes, instructions, and the spec-level instruction decoder.
//!
//! The decoder walks the `code[]` region of a `Code` attribute and emits one
//! [`Instruction`] per opcode: the offset it was decoded at (relative to the
//! start of the region), the opcode, and its operand bytes verbatim —
//! alignment padding of `tableswitch`/`lookupswitch` included.  Operand
//! indices are not resolved against the constant pool.

use vstd::prelude::*;

use crate::error::{ErrorType, SpecError};
use crate::wire::be_i32_val;

verus! {

/// A JVM opcode (JVM §6.5).  Bytes `0xCA..=0xFF` encode no opcode.
#[derive(Debug, Clone, Copy, PartialEq, Eq, Structural)]
pub enum Opcode {
    Nop, AconstNull, IconstM1, Iconst0, Iconst1, Iconst2,
    Iconst3, Iconst4, Iconst5, Lconst0, Lconst1, Fconst0,
    Fconst1, Fconst2, Dconst0, Dconst1, Bipush, Sipush,
    Ldc, LdcW, Ldc2W, Iload, Lload, Fload,
    Dload, Aload, Iload0, Iload1, Iload2, Iload3,
    Lload0, Lload1, Lload2, Lload3, Fload0, Fload1,
    Fload2, Fload3, Dload0, Dload1, Dload2, Dload3,
    Aload0, Aload1, Aload2, Aload3, Iaload, Laload,
    Faload, Daload, Aaload, Baload, Caload, Saload,
    Istore, Lstore, Fstore, Dstore, Astore, Istore0,
    Istore1, Istore2, Istore3, Lstore0, Lstore1, Lstore2,
    Lstore3, Fstore0, Fstore1, Fstore2, Fstore3, Dstore0,
    Dstore1, Dstore2, Dstore3, Astore0, Astore1, Astore2,
    Astore3, Iastore, Lastore, Fastore, Dastore, Aastore,
    Bastore, Castore, Sastore, Pop, Pop2, Dup,
    DupX1, DupX2, Dup2, Dup2X1, Dup2X2, Swap,
    Iadd, Ladd, Fadd, Dadd, Isub, Lsub,
    Fsub, Dsub, Imul, Lmul, Fmul, Dmul,
    Idiv, Ldiv, Fdiv, Ddiv, Irem, Lrem,
    Frem, Drem, Ineg, Lneg, Fneg, Dneg,
    Ishl, Lshl, Ishr, Lshr, Iushr, Lushr,
    Iand, Land, Ior, Lor, Ixor, Lxor,
    Iinc, I2l, I2f, I2d, L2i, L2f,
    L2d, F2i, F2l, F2d, D2i, D2l,
    D2f, I2b, I2c, I2s, Lcmp, Fcmpl,
    Fcmpg, Dcmpl, Dcmpg, Ifeq, Ifne, Iflt,
    Ifge, Ifgt, Ifle, IfIcmpeq, IfIcmpne, IfIcmplt,
    IfIcmpge, IfIcmpgt, IfIcmple, IfAcmpeq, IfAcmpne, Goto,
    Jsr, Ret, Tableswitch, Lookupswitch, Ireturn, Lreturn,
    Freturn, Dreturn, Areturn, Return, Getstatic, Putstatic,
    Getfield, Putfield, Invokevirtual, Invokespecial, Invokestatic, Invokeinterface,
    Invokedynamic, New, Newarray, Anewarray, Arraylength, Athrow,
    Checkcast, Instanceof, Monitorenter, Monitorexit, Wide, Multianewarray,
    Ifnull, Ifnonnull, GotoW, JsrW,
}

/// The opcode encoded by a byte; `None` for the reserved bytes
/// `0xCA..=0xFF`.
pub open spec fn spec_opcode_of(v: u8) -> Option<Opcode> {
    match v {
        0x00u8 => Some(Opcode::Nop),
        0x01u8 => Some(Opcode::AconstNull),
        0x02u8 => Some(Opcode::IconstM1),
        0x03u8 => Some(Opcode::Iconst0),
        0x04u8 => Some(Opcode::Iconst1),
        0x05u8 => Some(Opcode::Iconst2),
        0x06u8 => Some(Opcode::Iconst3),
        0x07u8 => Some(Opcode::Iconst4),
        0x08u8 => Some(Opcode::Iconst5),
        0x09u8 => Some(Opcode::Lconst0),
        0x0au8 => Some(Opcode::Lconst1),
        0x0bu8 => Some(Opcode::Fconst0),
        0x0cu8 => Some(Opcode::Fconst1),
        0x0du8 => Some(Opcode::Fconst2),
        0x0eu8 => Some(Opcode::Dconst0),
        0x0fu8 => Some(Opcode::Dconst1),
        0x10u8 => Some(Opcode::Bipush),
        0x11u8 => Some(Opcode::Sipush),
        0x12u8 => Some(Opcode::Ldc),
        0x13u8 => Some(Opcode::LdcW),
        0x14u8 => Some(Opcode::Ldc2W),
        0x15u8 => Some(Opcode::Iload),
        0x16u8 => Some(Opcode::Lload),
        0x17u8 => Some(Opcode::Fload),
        0x18u8 => Some(Opcode::Dload),
        0x19u8 => Some(Opcode::Aload),
        0x1au8 => Some(Opcode::Iload0),
        0x1bu8 => Some(Opcode::Iload1),
        0x1cu8 => Some(Opcode::Iload2),
        0x1du8 => Some(Opcode::Iload3),
        0x1eu8 => Some(Opcode::Lload0),
        0x1fu8 => Some(Opcode::Lload1),
        0x20u8 => Some(Opcode::Lload2),
        0x21u8 => Some(Opcode::Lload3),
        0x22u8 => Some(Opcode::Fload0),
        0x23u8 => Some(Opcode::Fload1),
        0x24u8 => Some(Opcode::Fload2),
        0x25u8 => Some(Opcode::Fload3),
        0x26u8 => Some(Opcode::Dload0),
        0x27u8 => Some(Opcode::Dload1),
        0x28u8 => Some(Opcode::Dload2),
        0x29u8 => Some(Opcode::Dload3),
        0x2au8 => Some(Opcode::Aload0),
        0x2bu8 => Some(Opcode::Aload1),
        0x2cu8 => Some(Opcode::Aload2),
        0x2du8 => Some(Opcode::Aload3),
        0x2eu8 => Some(Opcode::Iaload),
        0x2fu8 => Some(Opcode::Laload),
        0x30u8 => Some(Opcode::Faload),
        0x31u8 => Some(Opcode::Daload),
        0x32u8 => Some(Opcode::Aaload),
        0x33u8 => Some(Opcode::Baload),
        0x34u8 => Some(Opcode::Caload),
        0x35u8 => Some(Opcode::Saload),
        0x36u8 => Some(Opcode::Istore),
        0x37u8 => Some(Opcode::Lstore),
        0x38u8 => Some(Opcode::Fstore),
        0x39u8 => Some(Opcode::Dstore),
        0x3au8 => Some(Opcode::Astore),
        0x3bu8 => Some(Opcode::Istore0),
        0x3cu8 => Some(Opcode::Istore1),
        0x3du8 => Some(Opcode::Istore2),
        0x3eu8 => Some(Opcode::Istore3),
        0x3fu8 => Some(Opcode::Lstore0),
        0x40u8 => Some(Opcode::Lstore1),
        0x41u8 => Some(Opcode::Lstore2),
        0x42u8 => Some(Opcode::Lstore3),
        0x43u8 => Some(Opcode::Fstore0),
        0x44u8 => Some(Opcode::Fstore1),
        0x45u8 => Some(Opcode::Fstore2),
        0x46u8 => Some(Opcode::Fstore3),
        0x47u8 => Some(Opcode::Dstore0),
        0x48u8 => Some(Opcode::Dstore1),
        0x49u8 => Some(Opcode::Dstore2),
        0x4au8 => Some(Opcode::Dstore3),
        0x4bu8 => Some(Opcode::Astore0),
        0x4cu8 => Some(Opcode::Astore1),
        0x4du8 => Some(Opcode::Astore2),
        0x4eu8 => Some(Opcode::Astore3),
        0x4fu8 => Some(Opcode::Iastore),
        0x50u8 => Some(Opcode::Lastore),
        0x51u8 => Some(Opcode::Fastore),
        0x52u8 => Some(Opcode::Dastore),
        0x53u8 => Some(Opcode::Aastore),
        0x54u8 => Some(Opcode::Bastore),
        0x55u8 => Some(Opcode::Castore),
        0x56u8 => Some(Opcode::Sastore),
        0x57u8 => Some(Opcode::Pop),
        0x58u8 => Some(Opcode::Pop2),
        0x59u8 => Some(Opcode::Dup),
        0x5au8 => Some(Opcode::DupX1),
        0x5bu8 => Some(Opcode::DupX2),
        0x5cu8 => Some(Opcode::Dup2),
        0x5du8 => Some(Opcode::Dup2X1),
        0x5eu8 => Some(Opcode::Dup2X2),
        0x5fu8 => Some(Opcode::Swap),
        0x60u8 => Some(Opcode::Iadd),
        0x61u8 => Some(Opcode::Ladd),
        0x62u8 => Some(Opcode::Fadd),
        0x63u8 => Some(Opcode::Dadd),
        0x64u8 => Some(Opcode::Isub),
        0x65u8 => Some(Opcode::Lsub),
        0x66u8 => Some(Opcode::Fsub),
        0x67u8 => Some(Opcode::Dsub),
        0x68u8 => Some(Opcode::Imul),
        0x69u8 => Some(Opcode::Lmul),
        0x6au8 => Some(Opcode::Fmul),
        0x6bu8 => Some(Opcode::Dmul),
        0x6cu8 => Some(Opcode::Idiv),
        0x6du8 => Some(Opcode::Ldiv),
        0x6eu8 => Some(Opcode::Fdiv),
        0x6fu8 => Some(Opcode::Ddiv),
        0x70u8 => Some(Opcode::Irem),
        0x71u8 => Some(Opcode::Lrem),
        0x72u8 => Some(Opcode::Frem),
        0x73u8 => Some(Opcode::Drem),
        0x74u8 => Some(Opcode::Ineg),
        0x75u8 => Some(Opcode::Lneg),
        0x76u8 => Some(Opcode::Fneg),
        0x77u8 => Some(Opcode::Dneg),
        0x78u8 => Some(Opcode::Ishl),
        0x79u8 => Some(Opcode::Lshl),
        0x7au8 => Some(Opcode::Ishr),
        0x7bu8 => Some(Opcode::Lshr),
        0x7cu8 => Some(Opcode::Iushr),
        0x7du8 => Some(Opcode::Lushr),
        0x7eu8 => Some(Opcode::Iand),
        0x7fu8 => Some(Opcode::Land),
        0x80u8 => Some(Opcode::Ior),
        0x81u8 => Some(Opcode::Lor),
        0x82u8 => Some(Opcode::Ixor),
        0x83u8 => Some(Opcode::Lxor),
        0x84u8 => Some(Opcode::Iinc),
        0x85u8 => Some(Opcode::I2l),
        0x86u8 => Some(Opcode::I2f),
        0x87u8 => Some(Opcode::I2d),
        0x88u8 => Some(Opcode::L2i),
        0x89u8 => Some(Opcode::L2f),
        0x8au8 => Some(Opcode::L2d),
        0x8bu8 => Some(Opcode::F2i),
        0x8cu8 => Some(Opcode::F2l),
        0x8du8 => Some(Opcode::F2d),
        0x8eu8 => Some(Opcode::D2i),
        0x8fu8 => Some(Opcode::D2l),
        0x90u8 => Some(Opcode::D2f),
        0x91u8 => Some(Opcode::I2b),
        0x92u8 => Some(Opcode::I2c),
        0x93u8 => Some(Opcode::I2s),
        0x94u8 => Some(Opcode::Lcmp),
        0x95u8 => Some(Opcode::Fcmpl),
        0x96u8 => Some(Opcode::Fcmpg),
        0x97u8 => Some(Opcode::Dcmpl),
        0x98u8 => Some(Opcode::Dcmpg),
        0x99u8 => Some(Opcode::Ifeq),
        0x9au8 => Some(Opcode::Ifne),
        0x9bu8 => Some(Opcode::Iflt),
        0x9cu8 => Some(Opcode::Ifge),
        0x9du8 => Some(Opcode::Ifgt),
        0x9eu8 => Some(Opcode::Ifle),
        0x9fu8 => Some(Opcode::IfIcmpeq),
        0xa0u8 => Some(Opcode::IfIcmpne),
        0xa1u8 => Some(Opcode::IfIcmplt),
        0xa2u8 => Some(Opcode::IfIcmpge),
        0xa3u8 => Some(Opcode::IfIcmpgt),
        0xa4u8 => Some(Opcode::IfIcmple),
        0xa5u8 => Some(Opcode::IfAcmpeq),
        0xa6u8 => Some(Opcode::IfAcmpne),
        0xa7u8 => Some(Opcode::Goto),
        0xa8u8 => Some(Opcode::Jsr),
        0xa9u8 => Some(Opcode::Ret),
        0xaau8 => Some(Opcode::Tableswitch),
        0xabu8 => Some(Opcode::Lookupswitch),
        0xacu8 => Some(Opcode::Ireturn),
        0xadu8 => Some(Opcode::Lreturn),
        0xaeu8 => Some(Opcode::Freturn),
        0xafu8 => Some(Opcode::Dreturn),
        0xb0u8 => Some(Opcode::Areturn),
        0xb1u8 => Some(Opcode::Return),
        0xb2u8 => Some(Opcode::Getstatic),
        0xb3u8 => Some(Opcode::Putstatic),
        0xb4u8 => Some(Opcode::Getfield),
        0xb5u8 => Some(Opcode::Putfield),
        0xb6u8 => Some(Opcode::Invokevirtual),
        0xb7u8 => Some(Opcode::Invokespecial),
        0xb8u8 => Some(Opcode::Invokestatic),
        0xb9u8 => Some(Opcode::Invokeinterface),
        0xbau8 => Some(Opcode::Invokedynamic),
        0xbbu8 => Some(Opcode::New),
        0xbcu8 => Some(Opcode::Newarray),
        0xbdu8 => Some(Opcode::Anewarray),
        0xbeu8 => Some(Opcode::Arraylength),
        0xbfu8 => Some(Opcode::Athrow),
        0xc0u8 => Some(Opcode::Checkcast),
        0xc1u8 => Some(Opcode::Instanceof),
        0xc2u8 => Some(Opcode::Monitorenter),
        0xc3u8 => Some(Opcode::Monitorexit),
        0xc4u8 => Some(Opcode::Wide),
        0xc5u8 => Some(Opcode::Multianewarray),
        0xc6u8 => Some(Opcode::Ifnull),
        0xc7u8 => Some(Opcode::Ifnonnull),
        0xc8u8 => Some(Opcode::GotoW),
        0xc9u8 => Some(Opcode::JsrW),
        _ => None,
    }
}

/// How the operand bytes of an opcode are laid out.
#[derive(Debug, Clone, Copy, PartialEq, Eq, Structural)]
pub enum OperandShape {
    /// A fixed number of operand bytes.
    Fixed(u8),
    /// `wide`: the embedded opcode decides the width.
    Wide,
    /// `tableswitch`: padding, a header, and a jump table.
    TableSwitch,
    /// `lookupswitch`: padding, a header, and match-offset pairs.
    LookupSwitch,
}

/// The operand shape of each opcode (JVM §6.5).
pub open spec fn spec_operand_shape(op: Opcode) -> OperandShape {
    match op {
        Opcode::Nop | Opcode::AconstNull | Opcode::IconstM1 | Opcode::Iconst0 | Opcode::Iconst1
        | Opcode::Iconst2 | Opcode::Iconst3 | Opcode::Iconst4 | Opcode::Iconst5
        | Opcode::Lconst0 | Opcode::Lconst1 | Opcode::Fconst0 | Opcode::Fconst1
        | Opcode::Fconst2 | Opcode::Dconst0 | Opcode::Dconst1 | Opcode::Iload0 | Opcode::Iload1
        | Opcode::Iload2 | Opcode::Iload3 | Opcode::Lload0 | Opcode::Lload1 | Opcode::Lload2
        | Opcode::Lload3 | Opcode::Fload0 | Opcode::Fload1 | Opcode::Fload2 | Opcode::Fload3
        | Opcode::Dload0 | Opcode::Dload1 | Opcode::Dload2 | Opcode::Dload3 | Opcode::Aload0
        | Opcode::Aload1 | Opcode::Aload2 | Opcode::Aload3 | Opcode::Iaload | Opcode::Laload
        | Opcode::Faload | Opcode::Daload | Opcode::Aaload | Opcode::Baload | Opcode::Caload
        | Opcode::Saload | Opcode::Istore0 | Opcode::Istore1 | Opcode::Istore2 | Opcode::Istore3
        | Opcode::Lstore0 | Opcode::Lstore1 | Opcode::Lstore2 | Opcode::Lstore3
        | Opcode::Fstore0 | Opcode::Fstore1 | Opcode::Fstore2 | Opcode::Fstore3
        | Opcode::Dstore0 | Opcode::Dstore1 | Opcode::Dstore2 | Opcode::Dstore3
        | Opcode::Astore0 | Opcode::Astore1 | Opcode::Astore2 | Opcode::Astore3
        | Opcode::Iastore | Opcode::Lastore | Opcode::Fastore | Opcode::Dastore
        | Opcode::Aastore | Opcode::Bastore | Opcode::Castore | Opcode::Sastore | Opcode::Pop
        | Opcode::Pop2 | Opcode::Dup | Opcode::DupX1 | Opcode::DupX2 | Opcode::Dup2
        | Opcode::Dup2X1 | Opcode::Dup2X2 | Opcode::Swap | Opcode::Iadd | Opcode::Ladd
        | Opcode::Fadd | Opcode::Dadd | Opcode::Isub | Opcode::Lsub | Opcode::Fsub
        | Opcode::Dsub | Opcode::Imul | Opcode::Lmul | Opcode::Fmul | Opcode::Dmul
        | Opcode::Idiv | Opcode::Ldiv | Opcode::Fdiv | Opcode::Ddiv | Opcode::Irem
        | Opcode::Lrem | Opcode::Frem | Opcode::Drem | Opcode::Ineg | Opcode::Lneg
        | Opcode::Fneg | Opcode::Dneg | Opcode::Ishl | Opcode::Lshl | Opcode::Ishr
        | Opcode::Lshr | Opcode::Iushr | Opcode::Lushr | Opcode::Iand | Opcode::Land
        | Opcode::Ior | Opcode::Lor | Opcode::Ixor | Opcode::Lxor | Opcode::I2l | Opcode::I2f
        | Opcode::I2d | Opcode::L2i | Opcode::L2f | Opcode::L2d | Opcode::F2i | Opcode::F2l
        | Opcode::F2d | Opcode::D2i | Opcode::D2l | Opcode::D2f | Opcode::I2b | Opcode::I2c
        | Opcode::I2s | Opcode::Lcmp | Opcode::Fcmpl | Opcode::Fcmpg | Opcode::Dcmpl
        | Opcode::Dcmpg | Opcode::Ireturn | Opcode::Lreturn | Opcode::Freturn | Opcode::Dreturn
        | Opcode::Areturn | Opcode::Return | Opcode::Arraylength | Opcode::Athrow
        | Opcode::Monitorenter | Opcode::Monitorexit => OperandShape::Fixed(0),
        Opcode::Bipush | Opcode::Ldc | Opcode::Iload | Opcode::Lload | Opcode::Fload
        | Opcode::Dload | Opcode::Aload | Opcode::Istore | Opcode::Lstore | Opcode::Fstore
        | Opcode::Dstore | Opcode::Astore | Opcode::Ret | Opcode::Newarray => OperandShape::Fixed(1),
        Opcode::Sipush | Opcode::LdcW | Opcode::Ldc2W | Opcode::Iinc | Opcode::Ifeq
        | Opcode::Ifne | Opcode::Iflt | Opcode::Ifge | Opcode::Ifgt | Opcode::Ifle
        | Opcode::IfIcmpeq | Opcode::IfIcmpne | Opcode::IfIcmplt | Opcode::IfIcmpge
        | Opcode::IfIcmpgt | Opcode::IfIcmple | Opcode::IfAcmpeq | Opcode::IfAcmpne
        | Opcode::Goto | Opcode::Jsr | Opcode::Getstatic | Opcode::Putstatic | Opcode::Getfield
        | Opcode::Putfield | Opcode::Invokevirtual | Opcode::Invokespecial
        | Opcode::Invokestatic | Opcode::New | Opcode::Anewarray | Opcode::Checkcast
        | Opcode::Instanceof | Opcode::Ifnull | Opcode::Ifnonnull => OperandShape::Fixed(2),
        Opcode::Tableswitch => OperandShape::TableSwitch,
        Opcode::Lookupswitch => OperandShape::LookupSwitch,
        Opcode::Invokeinterface | Opcode::Invokedynamic | Opcode::GotoW | Opcode::JsrW => OperandShape::Fixed(4),
        Opcode::Wide => OperandShape::Wide,
        Opcode::Multianewarray => OperandShape::Fixed(3),
    }
}

impl Opcode {
    /// Decodes an instruction byte; a reserved byte yields
    /// `UnknownOpcode`.
    pub fn of(v: u8) -> (r: Result<Opcode, ErrorType>)
        ensures
            match spec_opcode_of(v) {
                Some(op) => r == Ok::<Opcode, ErrorType>(op),
                None => r == Err::<Opcode, ErrorType>(ErrorType::UnknownOpcode(v)),
            },
    {
        match v {
            0x00u8 => Ok(Opcode::Nop),
            0x01u8 => Ok(Opcode::AconstNull),
            0x02u8 => Ok(Opcode::IconstM1),
            0x03u8 => Ok(Opcode::Iconst0),
            0x04u8 => Ok(Opcode::Iconst1),
            0x05u8 => Ok(Opcode::Iconst2),
            0x06u8 => Ok(Opcode::Iconst3),
            0x07u8 => Ok(Opcode::Iconst4),
            0x08u8 => Ok(Opcode::Iconst5),
            0x09u8 => Ok(Opcode::Lconst0),
            0x0au8 => Ok(Opcode::Lconst1),
            0x0bu8 => Ok(Opcode::Fconst0),
            0x0cu8 => Ok(Opcode::Fconst1),
            0x0du8 => Ok(Opcode::Fconst2),
            0x0eu8 => Ok(Opcode::Dconst0),
            0x0fu8 => Ok(Opcode::Dconst1),
            0x10u8 => Ok(Opcode::Bipush),
            0x11u8 => Ok(Opcode::Sipush),
            0x12u8 => Ok(Opcode::Ldc),
            0x13u8 => Ok(Opcode::LdcW),
            0x14u8 => Ok(Opcode::Ldc2W),
            0x15u8 => Ok(Opcode::Iload),
            0x16u8 => Ok(Opcode::Lload),
            0x17u8 => Ok(Opcode::Fload),
            0x18u8 => Ok(Opcode::Dload),
            0x19u8 => Ok(Opcode::Aload),
            0x1au8 => Ok(Opcode::Iload0),
            0x1bu8 => Ok(Opcode::Iload1),
            0x1cu8 => Ok(Opcode::Iload2),
            0x1du8 => Ok(Opcode::Iload3),
            0x1eu8 => Ok(Opcode::Lload0),
            0x1fu8 => Ok(Opcode::Lload1),
            0x20u8 => Ok(Opcode::Lload2),
            0x21u8 => Ok(Opcode::Lload3),
            0x22u8 => Ok(Opcode::Fload0),
            0x23u8 => Ok(Opcode::Fload1),
            0x24u8 => Ok(Opcode::Fload2),
            0x25u8 => Ok(Opcode::Fload3),
            0x26u8 => Ok(Opcode::Dload0),
            0x27u8 => Ok(Opcode::Dload1),
            0x28u8 => Ok(Opcode::Dload2),
            0x29u8 => Ok(Opcode::Dload3),
            0x2au8 => Ok(Opcode::Aload0),
            0x2bu8 => Ok(Opcode::Aload1),
            0x2cu8 => Ok(Opcode::Aload2),
            0x2du8 => Ok(Opcode::Aload3),
            0x2eu8 => Ok(Opcode::Iaload),
            0x2fu8 => Ok(Opcode::Laload),
            0x30u8 => Ok(Opcode::Faload),
            0x31u8 => Ok(Opcode::Daload),
            0x32u8 => Ok(Opcode::Aaload),
            0x33u8 => Ok(Opcode::Baload),
            0x34u8 => Ok(Opcode::Caload),
            0x35u8 => Ok(Opcode::Saload),
            0x36u8 => Ok(Opcode::Istore),
            0x37u8 => Ok(Opcode::Lstore),
            0x38u8 => Ok(Opcode::Fstore),
            0x39u8 => Ok(Opcode::Dstore),
            0x3au8 => Ok(Opcode::Astore),
            0x3bu8 => Ok(Opcode::Istore0),
            0x3cu8 => Ok(Opcode::Istore1),
            0x3du8 => Ok(Opcode::Istore2),
            0x3eu8 => Ok(Opcode::Istore3),
            0x3fu8 => Ok(Opcode::Lstore0),
            0x40u8 => Ok(Opcode::Lstore1),
            0x41u8 => Ok(Opcode::Lstore2),
            0x42u8 => Ok(Opcode::Lstore3),
            0x43u8 => Ok(Opcode::Fstore0),
            0x44u8 => Ok(Opcode::Fstore1),
            0x45u8 => Ok(Opcode::Fstore2),
            0x46u8 => Ok(Opcode::Fstore3),
            0x47u8 => Ok(Opcode::Dstore0),
            0x48u8 => Ok(Opcode::Dstore1),
            0x49u8 => Ok(Opcode::Dstore2),
            0x4au8 => Ok(Opcode::Dstore3),
            0x4bu8 => Ok(Opcode::Astore0),
            0x4cu8 => Ok(Opcode::Astore1),
            0x4du8 => Ok(Opcode::Astore2),
            0x4eu8 => Ok(Opcode::Astore3),
            0x4fu8 => Ok(Opcode::Iastore),
            0x50u8 => Ok(Opcode::Lastore),
            0x51u8 => Ok(Opcode::Fastore),
            0x52u8 => Ok(Opcode::Dastore),
            0x53u8 => Ok(Opcode::Aastore),
            0x54u8 => Ok(Opcode::Bastore),
            0x55u8 => Ok(Opcode::Castore),
            0x56u8 => Ok(Opcode::Sastore),
            0x57u8 => Ok(Opcode::Pop),
            0x58u8 => Ok(Opcode::Pop2),
            0x59u8 => Ok(Opcode::Dup),
            0x5au8 => Ok(Opcode::DupX1),
            0x5bu8 => Ok(Opcode::DupX2),
            0x5cu8 => Ok(Opcode::Dup2),
            0x5du8 => Ok(Opcode::Dup2X1),
            0x5eu8 => Ok(Opcode::Dup2X2),
            0x5fu8 => Ok(Opcode::Swap),
            0x60u8 => Ok(Opcode::Iadd),
            0x61u8 => Ok(Opcode::Ladd),
            0x62u8 => Ok(Opcode::Fadd),
            0x63u8 => Ok(Opcode::Dadd),
            0x64u8 => Ok(Opcode::Isub),
            0x65u8 => Ok(Opcode::Lsub),
            0x66u8 => Ok(Opcode::Fsub),
            0x67u8 => Ok(Opcode::Dsub),
            0x68u8 => Ok(Opcode::Imul),
            0x69u8 => Ok(Opcode::Lmul),
            0x6au8 => Ok(Opcode::Fmul),
            0x6bu8 => Ok(Opcode::Dmul),
            0x6cu8 => Ok(Opcode::Idiv),
            0x6du8 => Ok(Opcode::Ldiv),
            0x6eu8 => Ok(Opcode::Fdiv),
            0x6fu8 => Ok(Opcode::Ddiv),
            0x70u8 => Ok(Opcode::Irem),
            0x71u8 => Ok(Opcode::Lrem),
            0x72u8 => Ok(Opcode::Frem),
            0x73u8 => Ok(Opcode::Drem),
            0x74u8 => Ok(Opcode::Ineg),
            0x75u8 => Ok(Opcode::Lneg),
            0x76u8 => Ok(Opcode::Fneg),
            0x77u8 => Ok(Opcode::Dneg),
            0x78u8 => Ok(Opcode::Ishl),
            0x79u8 => Ok(Opcode::Lshl),
            0x7au8 => Ok(Opcode::Ishr),
            0x7bu8 => Ok(Opcode::Lshr),
            0x7cu8 => Ok(Opcode::Iushr),
            0x7du8 => Ok(Opcode::Lushr),
            0x7eu8 => Ok(Opcode::Iand),
            0x7fu8 => Ok(Opcode::Land),
            0x80u8 => Ok(Opcode::Ior),
            0x81u8 => Ok(Opcode::Lor),
            0x82u8 => Ok(Opcode::Ixor),
            0x83u8 => Ok(Opcode::Lxor),
            0x84u8 => Ok(Opcode::Iinc),
            0x85u8 => Ok(Opcode::I2l),
            0x86u8 => Ok(Opcode::I2f),
            0x87u8 => Ok(Opcode::I2d),
            0x88u8 => Ok(Opcode::L2i),
            0x89u8 => Ok(Opcode::L2f),
            0x8au8 => Ok(Opcode::L2d),
            0x8bu8 => Ok(Opcode::F2i),
            0x8cu8 => Ok(Opcode::F2l),
            0x8du8 => Ok(Opcode::F2d),
            0x8eu8 => Ok(Opcode::D2i),
            0x8fu8 => Ok(Opcode::D2l),
            0x90u8 => Ok(Opcode::D2f),
            0x91u8 => Ok(Opcode::I2b),
            0x92u8 => Ok(Opcode::I2c),
            0x93u8 => Ok(Opcode::I2s),
            0x94u8 => Ok(Opcode::Lcmp),
            0x95u8 => Ok(Opcode::Fcmpl),
            0x96u8 => Ok(Opcode::Fcmpg),
            0x97u8 => Ok(Opcode::Dcmpl),
            0x98u8 => Ok(Opcode::Dcmpg),
            0x99u8 => Ok(Opcode::Ifeq),
            0x9au8 => Ok(Opcode::Ifne),
            0x9bu8 => Ok(Opcode::Iflt),
            0x9cu8 => Ok(Opcode::Ifge),
            0x9du8 => Ok(Opcode::Ifgt),
            0x9eu8 => Ok(Opcode::Ifle),
            0x9fu8 => Ok(Opcode::IfIcmpeq),
            0xa0u8 => Ok(Opcode::IfIcmpne),
            0xa1u8 => Ok(Opcode::IfIcmplt),
            0xa2u8 => Ok(Opcode::IfIcmpge),
            0xa3u8 => Ok(Opcode::IfIcmpgt),
            0xa4u8 => Ok(Opcode::IfIcmple),
            0xa5u8 => Ok(Opcode::IfAcmpeq),
            0xa6u8 => Ok(Opcode::IfAcmpne),
            0xa7u8 => Ok(Opcode::Goto),
            0xa8u8 => Ok(Opcode::Jsr),
            0xa9u8 => Ok(Opcode::Ret),
            0xaau8 => Ok(Opcode::Tableswitch),
            0xabu8 => Ok(Opcode::Lookupswitch),
            0xacu8 => Ok(Opcode::Ireturn),
            0xadu8 => Ok(Opcode::Lreturn),
            0xaeu8 => Ok(Opcode::Freturn),
            0xafu8 => Ok(Opcode::Dreturn),
            0xb0u8 => Ok(Opcode::Areturn),
            0xb1u8 => Ok(Opcode::Return),
            0xb2u8 => Ok(Opcode::Getstatic),
            0xb3u8 => Ok(Opcode::Putstatic),
            0xb4u8 => Ok(Opcode::Getfield),
            0xb5u8 => Ok(Opcode::Putfield),
            0xb6u8 => Ok(Opcode::Invokevirtual),
            0xb7u8 => Ok(Opcode::Invokespecial),
            0xb8u8 => Ok(Opcode::Invokestatic),
            0xb9u8 => Ok(Opcode::Invokeinterface),
            0xbau8 => Ok(Opcode::Invokedynamic),
            0xbbu8 => Ok(Opcode::New),
            0xbcu8 => Ok(Opcode::Newarray),
            0xbdu8 => Ok(Opcode::Anewarray),
            0xbeu8 => Ok(Opcode::Arraylength),
            0xbfu8 => Ok(Opcode::Athrow),
            0xc0u8 => Ok(Opcode::Checkcast),
            0xc1u8 => Ok(Opcode::Instanceof),
            0xc2u8 => Ok(Opcode::Monitorenter),
            0xc3u8 => Ok(Opcode::Monitorexit),
            0xc4u8 => Ok(Opcode::Wide),
            0xc5u8 => Ok(Opcode::Multianewarray),
            0xc6u8 => Ok(Opcode::Ifnull),
            0xc7u8 => Ok(Opcode::Ifnonnull),
            0xc8u8 => Ok(Opcode::GotoW),
            0xc9u8 => Ok(Opcode::JsrW),
            _ => Err(ErrorType::UnknownOpcode(v)),
        }
    }

    /// The layout of this opcode's operand bytes.
    pub fn operand_shape(&self) -> (r: OperandShape)
        ensures
            r == spec_operand_shape(*self),
    {
        match self {
            Opcode::Nop | Opcode::AconstNull | Opcode::IconstM1 | Opcode::Iconst0
            | Opcode::Iconst1 | Opcode::Iconst2 | Opcode::Iconst3 | Opcode::Iconst4
            | Opcode::Iconst5 | Opcode::Lconst0 | Opcode::Lconst1 | Opcode::Fconst0
            | Opcode::Fconst1 | Opcode::Fconst2 | Opcode::Dconst0 | Opcode::Dconst1
            | Opcode::Iload0 | Opcode::Iload1 | Opcode::Iload2 | Opcode::Iload3 | Opcode::Lload0
            | Opcode::Lload1 | Opcode::Lload2 | Opcode::Lload3 | Opcode::Fload0 | Opcode::Fload1
            | Opcode::Fload2 | Opcode::Fload3 | Opcode::Dload0 | Opcode::Dload1 | Opcode::Dload2
            | Opcode::Dload3 | Opcode::Aload0 | Opcode::Aload1 | Opcode::Aload2 | Opcode::Aload3
            | Opcode::Iaload | Opcode::Laload | Opcode::Faload | Opcode::Daload | Opcode::Aaload
            | Opcode::Baload | Opcode::Caload | Opcode::Saload | Opcode::Istore0
            | Opcode::Istore1 | Opcode::Istore2 | Opcode::Istore3 | Opcode::Lstore0
            | Opcode::Lstore1 | Opcode::Lstore2 | Opcode::Lstore3 | Opcode::Fstore0
            | Opcode::Fstore1 | Opcode::Fstore2 | Opcode::Fstore3 | Opcode::Dstore0
            | Opcode::Dstore1 | Opcode::Dstore2 | Opcode::Dstore3 | Opcode::Astore0
            | Opcode::Astore1 | Opcode::Astore2 | Opcode::Astore3 | Opcode::Iastore
            | Opcode::Lastore | Opcode::Fastore | Opcode::Dastore | Opcode::Aastore
            | Opcode::Bastore | Opcode::Castore | Opcode::Sastore | Opcode::Pop | Opcode::Pop2
            | Opcode::Dup | Opcode::DupX1 | Opcode::DupX2 | Opcode::Dup2 | Opcode::Dup2X1
            | Opcode::Dup2X2 | Opcode::Swap | Opcode::Iadd | Opcode::Ladd | Opcode::Fadd
            | Opcode::Dadd | Opcode::Isub | Opcode::Lsub | Opcode::Fsub | Opcode::Dsub
            | Opcode::Imul | Opcode::Lmul | Opcode::Fmul | Opcode::Dmul | Opcode::Idiv
            | Opcode::Ldiv | Opcode::Fdiv | Opcode::Ddiv | Opcode::Irem | Opcode::Lrem
            | Opcode::Frem | Opcode::Drem | Opcode::Ineg | Opcode::Lneg | Opcode::Fneg
            | Opcode::Dneg | Opcode::Ishl | Opcode::Lshl | Opcode::Ishr | Opcode::Lshr
            | Opcode::Iushr | Opcode::Lushr | Opcode::Iand | Opcode::Land | Opcode::Ior
            | Opcode::Lor | Opcode::Ixor | Opcode::Lxor | Opcode::I2l | Opcode::I2f
            | Opcode::I2d | Opcode::L2i | Opcode::L2f | Opcode::L2d | Opcode::F2i | Opcode::F2l
            | Opcode::F2d | Opcode::D2i | Opcode::D2l | Opcode::D2f | Opcode::I2b | Opcode::I2c
            | Opcode::I2s | Opcode::Lcmp | Opcode::Fcmpl | Opcode::Fcmpg | Opcode::Dcmpl
            | Opcode::Dcmpg | Opcode::Ireturn | Opcode::Lreturn | Opcode::Freturn
            | Opcode::Dreturn | Opcode::Areturn | Opcode::Return | Opcode::Arraylength
            | Opcode::Athrow | Opcode::Monitorenter | Opcode::Monitorexit => OperandShape::Fixed(0),
            Opcode::Bipush | Opcode::Ldc | Opcode::Iload | Opcode::Lload | Opcode::Fload
            | Opcode::Dload | Opcode::Aload | Opcode::Istore | Opcode::Lstore | Opcode::Fstore
            | Opcode::Dstore | Opcode::Astore | Opcode::Ret | Opcode::Newarray => OperandShape::Fixed(1),
            Opcode::Sipush | Opcode::LdcW | Opcode::Ldc2W | Opcode::Iinc | Opcode::Ifeq
            | Opcode::Ifne | Opcode::Iflt | Opcode::Ifge | Opcode::Ifgt | Opcode::Ifle
            | Opcode::IfIcmpeq | Opcode::IfIcmpne | Opcode::IfIcmplt | Opcode::IfIcmpge
            | Opcode::IfIcmpgt | Opcode::IfIcmple | Opcode::IfAcmpeq | Opcode::IfAcmpne
            | Opcode::Goto | Opcode::Jsr | Opcode::Getstatic | Opcode::Putstatic
            | Opcode::Getfield | Opcode::Putfield | Opcode::Invokevirtual
            | Opcode::Invokespecial | Opcode::Invokestatic | Opcode::New | Opcode::Anewarray
            | Opcode::Checkcast | Opcode::Instanceof | Opcode::Ifnull | Opcode::Ifnonnull => OperandShape::Fixed(2),
            Opcode::Tableswitch => OperandShape::TableSwitch,
            Opcode::Lookupswitch => OperandShape::LookupSwitch,
            Opcode::Invokeinterface | Opcode::Invokedynamic | Opcode::GotoW | Opcode::JsrW => OperandShape::Fixed(4),
            Opcode::Wide => OperandShape::Wide,
            Opcode::Multianewarray => OperandShape::Fixed(3),
        }
    }
}

/// True for the opcodes that `wide` (JVM §6.5) may embed: the one-byte
/// local-variable loads and stores, `ret`, and `iinc`.
pub open spec fn spec_widenable(op: Opcode) -> bool {
    match op {
        Opcode::Iload | Opcode::Fload | Opcode::Aload | Opcode::Lload | Opcode::Dload
            | Opcode::Istore | Opcode::Fstore | Opcode::Astore | Opcode::Lstore
            | Opcode::Dstore | Opcode::Ret | Opcode::Iinc => true,
        _ => false,
    }
}

impl Opcode {
    /// True when `wide` may embed this opcode.
    pub fn widenable(&self) -> (r: bool)
        ensures
            r == spec_widenable(*self),
    {
        match self {
            Opcode::Iload | Opcode::Fload | Opcode::Aload | Opcode::Lload | Opcode::Dload
                | Opcode::Istore | Opcode::Fstore | Opcode::Astore | Opcode::Lstore
                | Opcode::Dstore | Opcode::Ret | Opcode::Iinc => true,
            _ => false,
        }
    }
}

/// One decoded instruction: the offset of its opcode byte relative to the
/// start of the `code[]` region, the opcode, and the operand bytes verbatim.
#[derive(Debug, Clone, PartialEq, Eq)]
pub struct Instruction {
    /// Offset of the opcode byte, relative to the start of the region.
    pub pc: u32,
    /// The opcode.
    pub opcode: Opcode,
    /// The operand bytes, exactly as they stand in the region: for `wide`
    /// the embedded opcode and its widened operands, for `tableswitch` and
    /// `lookupswitch` the alignment padding, the header and the table.
    pub operands: Vec<u8>,
}

/// Spec-level mirror of [`Instruction`].
pub struct SpecInstruction {
    pub pc: u32,
    pub opcode: Opcode,
    pub operands: Seq<u8>,
}

impl View for Instruction {
    type V = SpecInstruction;

    open spec fn view(&self) -> SpecInstruction {
        SpecInstruction { pc: self.pc, opcode: self.opcode, operands: self.operands@ }
    }
}

/// The element-wise view of a decoded instruction sequence.
pub open spec fn instrs_view(code: Seq<Instruction>) -> Seq<SpecInstruction> {
    Seq::new(code.len(), |i: int| code[i]@)
}

/// Whether the bytes `.. to` can be read inside a region that ends at
/// `code_end` in a buffer of `len` bytes: running past the buffer is
/// `Truncated`, running past the region while inside the buffer means the
/// region's end falls inside an instruction, `MalformedCode`.
pub open spec fn window_check(len: int, code_end: int, to: int) -> Option<SpecError> {
    if to <= code_end && to <= len {
        None
    } else if len <= code_end {
        Some(SpecError::Truncated)
    } else {
        Some(SpecError::MalformedCode)
    }
}

/// The number of alignment padding bytes after a `tableswitch` or
/// `lookupswitch` opcode at relative offset `rel - 1`: the next byte is
/// padded to the next multiple of four relative to the region's start.
pub open spec fn switch_padding(rel: int) -> int
    recommends
        rel >= 0,
{
    (4 - (rel % 4)) % 4
}

/// Decodes the single instruction whose opcode byte sits at `off` inside the
/// region `[code_start, code_end)` of `bytes`.  The result carries the
/// instruction and the offset just after it.
pub open spec fn spec_parse_instr(bytes: Seq<u8>, code_start: int, code_end: int, off: int)
    -> Result<(SpecInstruction, int), SpecError>
    recommends
        code_start <= off < code_end,
{
    let len = bytes.len() as int;
    match window_check(len, code_end, off + 1) {
        Some(e) => Err(e),
        None => match spec_opcode_of(bytes[off]) {
            None => Err(SpecError::UnknownOpcode(bytes[off])),
            Some(op) => {
                let pc = (off - code_start) as u32;
                match spec_operand_shape(op) {
                    OperandShape::Fixed(n) => match window_check(len, code_end, off + 1 + n) {
                        Some(e) => Err(e),
                        None => {
                            let operands = bytes.subrange(off + 1, off + 1 + n);
                            if op == Opcode::Invokedynamic && !(operands[2] == 0 && operands[3]
                                == 0) {
                                Err(SpecError::MalformedCode)
                            } else if op == Opcode::Invokeinterface && operands[3] != 0 {
                                Err(SpecError::MalformedCode)
                            } else {
                                Ok((SpecInstruction { pc, opcode: op, operands }, off + 1 + n))
                            }
                        },
                    },
                    OperandShape::Wide => match window_check(len, code_end, off + 2) {
                        Some(e) => Err(e),
                        None => match spec_opcode_of(bytes[off + 1]) {
                            None => Err(SpecError::UnknownOpcode(bytes[off + 1])),
                            Some(op2) => {
                                if !spec_widenable(op2) {
                                    Err(SpecError::MalformedCode)
                                } else {
                                    let n: int = if op2 == Opcode::Iinc {
                                        5
                                    } else {
                                        3
                                    };
                                    match window_check(len, code_end, off + 1 + n) {
                                        Some(e) => Err(e),
                                        None => Ok((
                                            SpecInstruction {
                                                pc,
                                                opcode: op,
                                                operands: bytes.subrange(off + 1, off + 1 + n),
                                            },
                                            off + 1 + n,
                                        )),
                                    }
                                }
                            },
                        },
                    },
                    OperandShape::TableSwitch => {
                        let pad = switch_padding(off + 1 - code_start);
                        let header = off + 1 + pad;
                        match window_check(len, code_end, header + 12) {
                            Some(e) => Err(e),
                            None => {
                                let low = be_i32_val(bytes, header + 4);
                                let high = be_i32_val(bytes, header + 8);
                                if low > high {
                                    Err(SpecError::MalformedCode)
                                } else {
                                    let end = header + 12 + 4 * (high - low + 1);
                                    match window_check(len, code_end, end) {
                                        Some(e) => Err(e),
                                        None => Ok((
                                            SpecInstruction {
                                                pc,
                                                opcode: op,
                                                operands: bytes.subrange(off + 1, end),
                                            },
                                            end,
                                        )),
                                    }
                                }
                            },
                        }
                    },
                    OperandShape::LookupSwitch => {
                        let pad = switch_padding(off + 1 - code_start);
                        let header = off + 1 + pad;
                        match window_check(len, code_end, header + 8) {
                            Some(e) => Err(e),
                            None => {
                                let npairs = be_i32_val(bytes, header + 4);
                                if npairs < 0 {
                                    Err(SpecError::MalformedCode)
                                } else {
                                    let end = header + 8 + 8 * npairs;
                                    match window_check(len, code_end, end) {
                                        Some(e) => Err(e),
                                        None => Ok((
                                            SpecInstruction {
                                                pc,
                                                opcode: op,
                                                operands: bytes.subrange(off + 1, end),
                                            },
                                            end,
                                        )),
                                    }
                                }
                            },
                        }
                    },
                }
            },
        },
    }
}

/// A decoded instruction reaches past its opcode byte and never past the
/// region's end.
pub proof fn lemma_instr_advances(bytes: Seq<u8>, code_start: int, code_end: int, off: int)
    ensures
        spec_parse_instr(bytes, code_start, code_end, off) matches Ok(r) ==> off < r.1 <= code_end
            && r.1 <= bytes.len(),
{
}

/// Decodes instructions from `off` to the region's exact end, appending them
/// to `acc`; the decoder stops only when `off` lands exactly on `code_end`.
pub open spec fn spec_parse_instrs(
    bytes: Seq<u8>,
    code_start: int,
    code_end: int,
    off: int,
    acc: Seq<SpecInstruction>,
) -> Result<(Seq<SpecInstruction>, int), SpecError>
    decreases code_end - off,
{
    if off >= code_end {
        Ok((acc, off))
    } else {
        match spec_parse_instr(bytes, code_start, code_end, off) {
            Err(e) => Err(e),
            Ok((ins, next)) => {
                if off < next <= code_end {
                    spec_parse_instrs(bytes, code_start, code_end, next, acc.push(ins))
                } else {
                    Err(SpecError::MalformedCode)
                }
            },
        }
    }
}

/// Decoding instructions never moves the offset backwards.
pub proof fn lemma_instrs_advances(
    bytes: Seq<u8>,
    code_start: int,
    code_end: int,
    off: int,
    acc: Seq<SpecInstruction>,
)
    ensures
        spec_parse_instrs(bytes, code_start, code_end, off, acc) matches Ok(r) ==> r.1 >= off,
    decreases code_end - off,
{
    if off >= code_end {
    } else {
        match spec_parse_instr(bytes, code_start, code_end, off) {
            Err(_) => {},
            Ok((ins, next)) => {
                if off < next <= code_end {
                    lemma_instrs_advances(bytes, code_start, code_end, next, acc.push(ins));
                }
            },
        }
    }
}

/// Decoding one instruction from a prefix of the buffer: an instruction that
/// lay inside the prefix is unchanged, and one that needed a byte past the
/// cut fails with `Truncated`.
pub proof fn lemma_instr_truncated(bytes: Seq<u8>, m: int, code_start: int, code_end: int, off: int)
    requires
        0 <= off <= m <= bytes.len(),
    ensures
        spec_parse_instr(bytes, code_start, code_end, off) matches Ok(r) ==> spec_parse_instr(
            bytes.take(m),
            code_start,
            code_end,
            off,
        ) == (if r.1 <= m {
            Ok::<(SpecInstruction, int), SpecError>(r)
        } else {
            Err(SpecError::Truncated)
        }),
{
    broadcast use vstd::seq::group_seq_axioms;

    if spec_parse_instr(bytes, code_start, code_end, off) is Ok {
        if off + 1 <= m {
            assert(bytes.take(m)[off] == bytes[off]);
            match spec_opcode_of(bytes[off]) {
                None => {},
                Some(op) => {
                    match spec_operand_shape(op) {
                        OperandShape::Fixed(n) => {
                            if off + 1 + n <= m {
                                assert(bytes.take(m).subrange(off + 1, off + 1 + n)
                                    =~= bytes.subrange(off + 1, off + 1 + n));
                            }
                        },
                        OperandShape::Wide => {
                            if off + 2 <= m {
                                assert(bytes.take(m)[off + 1] == bytes[off + 1]);
                                match spec_opcode_of(bytes[off + 1]) {
                                    None => {},
                                    Some(op2) => {
                                        let n: int = if op2 == Opcode::Iinc {
                                            5
                                        } else {
                                            3
                                        };
                                        if off + 1 + n <= m {
                                            assert(bytes.take(m).subrange(off + 1, off + 1 + n)
                                                =~= bytes.subrange(off + 1, off + 1 + n));
                                        }
                                    },
                                }
                            }
                        },
                        OperandShape::TableSwitch => {
                            let pad = switch_padding(off + 1 - code_start);
                            let header = off + 1 + pad;
                            if header + 12 <= m {
                                assert(be_i32_val(bytes.take(m), header + 4) == be_i32_val(
                                    bytes,
                                    header + 4,
                                ));
                                assert(be_i32_val(bytes.take(m), header + 8) == be_i32_val(
                                    bytes,
                                    header + 8,
                                ));
                                let low = be_i32_val(bytes, header + 4);
                                let high = be_i32_val(bytes, header + 8);
                                if low <= high {
                                    let end = header + 12 + 4 * (high - low + 1);
                                    if end <= m {
                                        assert(bytes.take(m).subrange(off + 1, end)
                                            =~= bytes.subrange(off + 1, end));
                                    }
                                }
                            }
                        },
                        OperandShape::LookupSwitch => {
                            let pad = switch_padding(off + 1 - code_start);
                            let header = off + 1 + pad;
                            if header + 8 <= m {
                                assert(be_i32_val(bytes.take(m), header + 4) == be_i32_val(
                                    bytes,
                                    header + 4,
                                ));
                                let npairs = be_i32_val(bytes, header + 4);
                                if npairs >= 0 {
                                    let end = header + 8 + 8 * npairs;
                                    if end <= m {
                                        assert(bytes.take(m).subrange(off + 1, end)
                                            =~= bytes.subrange(off + 1, end));
                                    }
                                }
                            }
                        },
                    }
                },
            }
        }
    }
}

/// Decoding an instruction stream from a prefix of the buffer: a stream that
/// lay inside the prefix is unchanged, and one that needed a byte past the
/// cut fails with `Truncated`.
pub proof fn lemma_instrs_truncated(
    bytes: Seq<u8>,
    m: int,
    code_start: int,
    code_end: int,
    off: int,
    acc: Seq<SpecInstruction>,
)
    requires
        0 <= off <= m <= bytes.len(),
    ensures
        spec_parse_instrs(bytes, code_start, code_end, off, acc) matches Ok(r)
            ==> spec_parse_instrs(bytes.take(m), code_start, code_end, off, acc) == (if r.1 <= m {
            Ok::<(Seq<SpecInstruction>, int), SpecError>(r)
        } else {
            Err(SpecError::Truncated)
        }),
    decreases code_end - off,
{
    if off >= code_end {
    } else {
        match spec_parse_instr(bytes, code_start, code_end, off) {
            Err(_) => {},
            Ok((ins, next)) => {
                lemma_instr_truncated(bytes, m, code_start, code_end, off);
                if off < next <= code_end {
                    lemma_instrs_advances(bytes, code_start, code_end, next, acc.push(ins));
                    if next <= m {
                        lemma_instrs_truncated(bytes, m, code_start, code_end, next, acc.push(ins));
                    }
                }
            },
        }
    }
}

} // verus!
