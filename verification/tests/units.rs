use classfmt::access_flags::{ClassAccessFlag, CLASS_ACC_PUBLIC, CLASS_ACC_SUPER};
use classfmt::constant_pool::{ConstantTag, ReferenceKind};
use classfmt::error::ErrorType;
use classfmt::opcode::{Opcode, OperandShape};
use classfmt::options::{AccessBitsPolicy, AttributePolicy, ParseOptions};

#[test]
fn constant_tags_decode() {
    assert_eq!(ConstantTag::of(1), Ok(ConstantTag::Utf8));
    assert_eq!(ConstantTag::of(3), Ok(ConstantTag::Integer));
    assert_eq!(ConstantTag::of(4), Ok(ConstantTag::Float));
    assert_eq!(ConstantTag::of(5), Ok(ConstantTag::Long));
    assert_eq!(ConstantTag::of(6), Ok(ConstantTag::Double));
    assert_eq!(ConstantTag::of(7), Ok(ConstantTag::Class));
    assert_eq!(ConstantTag::of(8), Ok(ConstantTag::String));
    assert_eq!(ConstantTag::of(9), Ok(ConstantTag::Fieldref));
    assert_eq!(ConstantTag::of(10), Ok(ConstantTag::Methodref));
    assert_eq!(ConstantTag::of(11), Ok(ConstantTag::InterfaceMethodref));
    assert_eq!(ConstantTag::of(12), Ok(ConstantTag::NameAndType));
    assert_eq!(ConstantTag::of(15), Ok(ConstantTag::MethodHandle));
    assert_eq!(ConstantTag::of(16), Ok(ConstantTag::MethodType));
    assert_eq!(ConstantTag::of(18), Ok(ConstantTag::InvokeDynamic));
    assert_eq!(ConstantTag::of(2), Err(ErrorType::UnknownConstantTag(2)));
    assert_eq!(ConstantTag::of(13), Err(ErrorType::UnknownConstantTag(13)));
    assert_eq!(ConstantTag::of(17), Err(ErrorType::UnknownConstantTag(17)));
    assert_eq!(ConstantTag::of(19), Err(ErrorType::UnknownConstantTag(19)));
}

#[test]
fn reference_kinds_decode() {
    assert_eq!(ReferenceKind::of(1), Ok(ReferenceKind::GetField));
    assert_eq!(ReferenceKind::of(2), Ok(ReferenceKind::GetStatic));
    assert_eq!(ReferenceKind::of(3), Ok(ReferenceKind::PutField));
    assert_eq!(ReferenceKind::of(4), Ok(ReferenceKind::PutStatic));
    assert_eq!(ReferenceKind::of(5), Ok(ReferenceKind::InvokeVirtual));
    assert_eq!(ReferenceKind::of(6), Ok(ReferenceKind::InvokeStatic));
    assert_eq!(ReferenceKind::of(7), Ok(ReferenceKind::InvokeSpecial));
    assert_eq!(ReferenceKind::of(8), Ok(ReferenceKind::NewInvokeSpecial));
    assert_eq!(ReferenceKind::of(9), Ok(ReferenceKind::InvokeInterface));
    assert_eq!(ReferenceKind::of(0), Err(ErrorType::UnknownReferenceKind(0)));
    assert_eq!(ReferenceKind::of(10), Err(ErrorType::UnknownReferenceKind(10)));
}

#[test]
fn opcodes_decode() {
    assert_eq!(Opcode::of(0x00), Ok(Opcode::Nop));
    assert_eq!(Opcode::of(0x01), Ok(Opcode::AconstNull));
    assert_eq!(Opcode::of(0x02), Ok(Opcode::IconstM1));
    assert_eq!(Opcode::of(0x10), Ok(Opcode::Bipush));
    assert_eq!(Opcode::of(0x2a), Ok(Opcode::Aload0));
    assert_eq!(Opcode::of(0xaa), Ok(Opcode::Tableswitch));
    assert_eq!(Opcode::of(0xab), Ok(Opcode::Lookupswitch));
    assert_eq!(Opcode::of(0xb1), Ok(Opcode::Return));
    assert_eq!(Opcode::of(0xb6), Ok(Opcode::Invokevirtual));
    assert_eq!(Opcode::of(0xba), Ok(Opcode::Invokedynamic));
    assert_eq!(Opcode::of(0xc4), Ok(Opcode::Wide));
    assert_eq!(Opcode::of(0xc5), Ok(Opcode::Multianewarray));
    assert_eq!(Opcode::of(0xc9), Ok(Opcode::JsrW));
    for b in 0xca..=0xffu16 {
        assert_eq!(Opcode::of(b as u8), Err(ErrorType::UnknownOpcode(b as u8)));
    }
    for b in 0x00..=0xc9u16 {
        assert!(Opcode::of(b as u8).is_ok());
    }
}

#[test]
fn operand_shapes_match_the_table() {
    assert_eq!(Opcode::Nop.operand_shape(), OperandShape::Fixed(0));
    assert_eq!(Opcode::Bipush.operand_shape(), OperandShape::Fixed(1));
    assert_eq!(Opcode::Ldc.operand_shape(), OperandShape::Fixed(1));
    assert_eq!(Opcode::Newarray.operand_shape(), OperandShape::Fixed(1));
    assert_eq!(Opcode::Sipush.operand_shape(), OperandShape::Fixed(2));
    assert_eq!(Opcode::Iinc.operand_shape(), OperandShape::Fixed(2));
    assert_eq!(Opcode::Goto.operand_shape(), OperandShape::Fixed(2));
    assert_eq!(Opcode::Multianewarray.operand_shape(), OperandShape::Fixed(3));
    assert_eq!(Opcode::Invokeinterface.operand_shape(), OperandShape::Fixed(4));
    assert_eq!(Opcode::Invokedynamic.operand_shape(), OperandShape::Fixed(4));
    assert_eq!(Opcode::GotoW.operand_shape(), OperandShape::Fixed(4));
    assert_eq!(Opcode::Wide.operand_shape(), OperandShape::Wide);
    assert_eq!(Opcode::Tableswitch.operand_shape(), OperandShape::TableSwitch);
    assert_eq!(Opcode::Lookupswitch.operand_shape(), OperandShape::LookupSwitch);
}

#[test]
fn widenable_opcodes() {
    assert!(Opcode::Iload.widenable());
    assert!(Opcode::Astore.widenable());
    assert!(Opcode::Ret.widenable());
    assert!(Opcode::Iinc.widenable());
    assert!(!Opcode::Nop.widenable());
    assert!(!Opcode::Goto.widenable());
}

#[test]
fn flag_words_are_kept_verbatim() {
    let f = ClassAccessFlag::from_bits(0x4121);
    assert_eq!(f.bits, 0x4121);
    assert!(f.contains(CLASS_ACC_PUBLIC));
    assert!(f.contains(CLASS_ACC_SUPER));
    assert!(f.contains(CLASS_ACC_PUBLIC | CLASS_ACC_SUPER));
    assert!(!f.contains(0x0010));
}

#[test]
fn default_options() {
    let opts = ParseOptions::default();
    assert_eq!(opts.on_unknown_attribute, AttributePolicy::Skip);
    assert_eq!(opts.on_unknown_access_bits, AccessBitsPolicy::Ignore);
    assert_eq!(opts.max_attribute_depth, 16);
}
