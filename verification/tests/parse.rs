use classfmt::attribute::{Attribute, BootstrapMethodAttribute, InnerClassAttribute};
use classfmt::constant_pool::Constant;
use classfmt::error::ErrorType;
use classfmt::opcode::Opcode;
use classfmt::options::{AccessBitsPolicy, AttributePolicy, ParseOptions};
use classfmt::parser::ClassParser;
use classfmt::raw_class::RawClass;

fn push_u16(out: &mut Vec<u8>, v: u16) {
    out.extend_from_slice(&v.to_be_bytes());
}

fn push_u32(out: &mut Vec<u8>, v: u32) {
    out.extend_from_slice(&v.to_be_bytes());
}

fn push_utf8(out: &mut Vec<u8>, s: &str) {
    out.push(1);
    push_u16(out, s.len() as u16);
    out.extend_from_slice(s.as_bytes());
}

fn push_class(out: &mut Vec<u8>, name_index: u16) {
    out.push(7);
    push_u16(out, name_index);
}

fn push_methodref(out: &mut Vec<u8>, class_index: u16, nat_index: u16) {
    out.push(10);
    push_u16(out, class_index);
    push_u16(out, nat_index);
}

fn push_fieldref(out: &mut Vec<u8>, class_index: u16, nat_index: u16) {
    out.push(9);
    push_u16(out, class_index);
    push_u16(out, nat_index);
}

fn push_nat(out: &mut Vec<u8>, name_index: u16, descriptor_index: u16) {
    out.push(12);
    push_u16(out, name_index);
    push_u16(out, descriptor_index);
}

fn push_string(out: &mut Vec<u8>, string_index: u16) {
    out.push(8);
    push_u16(out, string_index);
}

fn push_integer(out: &mut Vec<u8>, v: i32) {
    out.push(3);
    out.extend_from_slice(&v.to_be_bytes());
}

/// A `Code` attribute with no exception table and no nested attributes.
fn push_code_attribute(out: &mut Vec<u8>, name_index: u16, max_stack: u16, max_locals: u16, code: &[u8]) {
    push_u16(out, name_index);
    push_u32(out, (2 + 2 + 4 + code.len() + 2 + 2) as u32);
    push_u16(out, max_stack);
    push_u16(out, max_locals);
    push_u32(out, code.len() as u32);
    out.extend_from_slice(code);
    push_u16(out, 0); // exception table length
    push_u16(out, 0); // nested attribute count
}

/// A class equivalent to `class Hello` with a constructor and a `main`
/// printing one string: two methods, no fields.
fn hello_class_bytes() -> Vec<u8> {
    let mut b: Vec<u8> = Vec::new();
    push_u32(&mut b, 0xCAFEBABE);
    push_u16(&mut b, 0); // minor
    push_u16(&mut b, 52); // major
    push_u16(&mut b, 26); // constant pool count: 25 entries
    push_methodref(&mut b, 2, 3); // 1: Object.<init>
    push_class(&mut b, 4); // 2: java/lang/Object
    push_nat(&mut b, 5, 6); // 3
    push_utf8(&mut b, "java/lang/Object"); // 4
    push_utf8(&mut b, "<init>"); // 5
    push_utf8(&mut b, "()V"); // 6
    push_fieldref(&mut b, 8, 9); // 7: System.out
    push_class(&mut b, 10); // 8
    push_nat(&mut b, 11, 12); // 9
    push_utf8(&mut b, "java/lang/System"); // 10
    push_utf8(&mut b, "out"); // 11
    push_utf8(&mut b, "Ljava/io/PrintStream;"); // 12
    push_string(&mut b, 14); // 13: "Hello, World"
    push_utf8(&mut b, "Hello, World"); // 14
    push_methodref(&mut b, 16, 17); // 15: PrintStream.println
    push_class(&mut b, 18); // 16
    push_nat(&mut b, 19, 20); // 17
    push_utf8(&mut b, "java/io/PrintStream"); // 18
    push_utf8(&mut b, "println"); // 19
    push_utf8(&mut b, "(Ljava/lang/String;)V"); // 20
    push_class(&mut b, 22); // 21: Hello
    push_utf8(&mut b, "Hello"); // 22
    push_utf8(&mut b, "Code"); // 23
    push_utf8(&mut b, "main"); // 24
    push_utf8(&mut b, "([Ljava/lang/String;)V"); // 25
    push_u16(&mut b, 0x0021); // access flags: public super
    push_u16(&mut b, 21); // this
    push_u16(&mut b, 2); // super
    push_u16(&mut b, 0); // interfaces
    push_u16(&mut b, 0); // fields
    push_u16(&mut b, 2); // methods
    // <init>
    push_u16(&mut b, 0x0000);
    push_u16(&mut b, 5);
    push_u16(&mut b, 6);
    push_u16(&mut b, 1);
    push_code_attribute(&mut b, 23, 1, 1, &[0x2a, 0xb7, 0x00, 0x01, 0xb1]);
    // main
    push_u16(&mut b, 0x0009);
    push_u16(&mut b, 24);
    push_u16(&mut b, 25);
    push_u16(&mut b, 1);
    push_code_attribute(&mut b, 23, 2, 1, &[0xb2, 0x00, 0x07, 0x12, 0x0d, 0xb6, 0x00, 0x0f, 0xb1]);
    push_u16(&mut b, 0); // class attributes
    b
}

fn utf8_at<'c>(class: &RawClass<'c>, index: u16) -> &'c [u8] {
    match &class.constant_pool[(index - 1) as usize] {
        Constant::Utf8 { bytes, .. } => bytes,
        other => panic!("expected Utf8 at {}, found {:?}", index, other),
    }
}

fn class_name_index(class: &RawClass<'_>, index: u16) -> u16 {
    match &class.constant_pool[(index - 1) as usize] {
        Constant::Class { name_index, .. } => *name_index,
        other => panic!("expected Class at {}, found {:?}", index, other),
    }
}

#[test]
fn parse_simple() {
    let buf = hello_class_bytes();
    let class = ClassParser::from_bytes(&buf).parse().unwrap();

    assert_eq!(class.magic, 0xCAFEBABE);
    assert_eq!(class.methods_count, 2);
    assert_eq!(class.field_count, 0);

    let this_name = class_name_index(&class, class.this_class);
    assert_eq!(utf8_at(&class, this_name), b"Hello");

    let super_name = class_name_index(&class, class.super_class);
    assert_eq!(utf8_at(&class, super_name), b"java/lang/Object");
}

/// A class with three `int` fields, the first named `test` carrying a
/// `ConstantValue` attribute.
fn fields_class_bytes() -> Vec<u8> {
    let mut b: Vec<u8> = Vec::new();
    push_u32(&mut b, 0xCAFEBABE);
    push_u16(&mut b, 0);
    push_u16(&mut b, 52);
    push_u16(&mut b, 11); // 10 entries
    push_utf8(&mut b, "test"); // 1
    push_utf8(&mut b, "I"); // 2
    push_utf8(&mut b, "ConstantValue"); // 3
    push_integer(&mut b, 2147483647); // 4
    push_class(&mut b, 6); // 5
    push_utf8(&mut b, "Fields"); // 6
    push_class(&mut b, 8); // 7
    push_utf8(&mut b, "java/lang/Object"); // 8
    push_utf8(&mut b, "a"); // 9
    push_utf8(&mut b, "b"); // 10
    push_u16(&mut b, 0x0021);
    push_u16(&mut b, 5); // this
    push_u16(&mut b, 7); // super
    push_u16(&mut b, 0); // interfaces
    push_u16(&mut b, 3); // fields
    // field 0: test, with ConstantValue
    push_u16(&mut b, 0x0019);
    push_u16(&mut b, 1);
    push_u16(&mut b, 2);
    push_u16(&mut b, 1);
    push_u16(&mut b, 3); // attribute name: ConstantValue
    push_u32(&mut b, 2);
    push_u16(&mut b, 4); // constantvalue index
    // field 1: a
    push_u16(&mut b, 0x0001);
    push_u16(&mut b, 9);
    push_u16(&mut b, 2);
    push_u16(&mut b, 0);
    // field 2: b
    push_u16(&mut b, 0x0001);
    push_u16(&mut b, 10);
    push_u16(&mut b, 2);
    push_u16(&mut b, 0);
    push_u16(&mut b, 0); // methods
    push_u16(&mut b, 0); // class attributes
    b
}

#[test]
fn parse_fields() {
    let buf = fields_class_bytes();
    let class = ClassParser::from_bytes(&buf).parse().unwrap();

    assert_eq!(class.field_count, 3);
    let f0 = &class.fields[0];
    assert_eq!(utf8_at(&class, f0.name_index), b"test");
    assert_eq!(f0.attributes_count, 1);
    match &f0.attributes[0] {
        Attribute::ConstantValue { constantvalue_index, .. } => {
            match &class.constant_pool[(constantvalue_index - 1) as usize] {
                Constant::Integer { value, .. } => assert_eq!(*value, 2147483647),
                other => panic!("expected Integer, found {:?}", other),
            }
        },
        other => panic!("expected ConstantValue, found {:?}", other),
    }
}

#[test]
fn whole_buffer_consumed_and_versions() {
    let buf = hello_class_bytes();
    let class = ClassParser::from_bytes(&buf).parse().unwrap();
    assert_eq!(class.minor_version, 0);
    assert_eq!(class.major_version, 52);
    assert_eq!(class.constant_pool_count, 26);
    assert_eq!(class.constant_pool.len(), 25);
    assert_eq!(class.interface_count, 0);
    assert_eq!(class.attributes_count, 0);
}

#[test]
fn magic_mutation_fails_with_bad_magic() {
    let buf = hello_class_bytes();
    for j in 0..4 {
        let mut mutated = buf.clone();
        mutated[j] ^= 0x01;
        let err = ClassParser::from_bytes(&mutated).parse().unwrap_err();
        assert_eq!(err, ErrorType::BadMagic);
    }
}

#[test]
fn truncated_by_five_fails_with_truncated() {
    let buf = hello_class_bytes();
    let cut = &buf[..buf.len() - 5];
    let err = ClassParser::from_bytes(cut).parse().unwrap_err();
    assert_eq!(err, ErrorType::Truncated);
}

#[test]
fn truncated_by_one_fails_with_truncated() {
    let buf = hello_class_bytes();
    let cut = &buf[..buf.len() - 1];
    let err = ClassParser::from_bytes(cut).parse().unwrap_err();
    assert_eq!(err, ErrorType::Truncated);
}

#[test]
fn empty_buffer_fails_with_truncated() {
    let err = ClassParser::from_bytes(&[]).parse().unwrap_err();
    assert_eq!(err, ErrorType::Truncated);
}

#[test]
fn trailing_byte_fails() {
    let mut buf = hello_class_bytes();
    buf.push(0);
    let err = ClassParser::from_bytes(&buf).parse().unwrap_err();
    assert_eq!(err, ErrorType::TrailingBytes);
}

/// A minimal class skeleton: pool entries are supplied by the caller, no
/// interfaces, fields or methods, and `attrs` class attributes.
fn skeleton(pool_count: u16, pool: &[u8], this: u16, sup: u16, attr_count: u16, attrs: &[u8]) -> Vec<u8> {
    let mut b: Vec<u8> = Vec::new();
    push_u32(&mut b, 0xCAFEBABE);
    push_u16(&mut b, 0);
    push_u16(&mut b, 52);
    push_u16(&mut b, pool_count);
    b.extend_from_slice(pool);
    push_u16(&mut b, 0x0021);
    push_u16(&mut b, this);
    push_u16(&mut b, sup);
    push_u16(&mut b, 0);
    push_u16(&mut b, 0);
    push_u16(&mut b, 0);
    push_u16(&mut b, attr_count);
    b.extend_from_slice(attrs);
    b
}

#[test]
fn unknown_constant_tag_is_reported() {
    let pool = vec![2u8, 0, 0]; // tag 2 is undefined
    let buf = skeleton(2, &pool, 0, 0, 0, &[]);
    let err = ClassParser::from_bytes(&buf).parse().unwrap_err();
    assert_eq!(err, ErrorType::UnknownConstantTag(2));
}

#[test]
fn unknown_reference_kind_is_reported() {
    let mut pool: Vec<u8> = Vec::new();
    pool.push(15); // MethodHandle
    pool.push(10); // kind out of 1..=9
    push_u16(&mut pool, 1);
    let buf = skeleton(2, &pool, 0, 0, 0, &[]);
    let err = ClassParser::from_bytes(&buf).parse().unwrap_err();
    assert_eq!(err, ErrorType::UnknownReferenceKind(10));
}

#[test]
fn long_at_final_slot_is_malformed_pool() {
    let mut pool: Vec<u8> = Vec::new();
    pool.push(5); // Long
    push_u32(&mut pool, 0);
    push_u32(&mut pool, 1);
    let buf = skeleton(2, &pool, 0, 0, 0, &[]); // one slot, Long needs two
    let err = ClassParser::from_bytes(&buf).parse().unwrap_err();
    assert_eq!(err, ErrorType::MalformedPool);
}

#[test]
fn long_occupies_two_slots_with_sentinel() {
    let mut pool: Vec<u8> = Vec::new();
    pool.push(5); // 1: Long (slot 2 becomes unusable)
    push_u32(&mut pool, 0x12345678);
    push_u32(&mut pool, 0x9abcdef0);
    pool.push(6); // 3: Double (slot 4 becomes unusable)
    push_u32(&mut pool, 1);
    push_u32(&mut pool, 2);
    pool.push(1); // 5: Utf8 "x"
    push_u16(&mut pool, 1);
    pool.push(b'x');
    let buf = skeleton(6, &pool, 0, 0, 0, &[]);
    let class = ClassParser::from_bytes(&buf).parse().unwrap();
    assert_eq!(class.constant_pool.len(), 5);
    assert!(matches!(
        class.constant_pool[0],
        Constant::Long { high_bytes: 0x12345678, low_bytes: 0x9abcdef0, .. }
    ));
    assert!(matches!(class.constant_pool[1], Constant::Unusable));
    assert!(matches!(class.constant_pool[2], Constant::Double { .. }));
    assert!(matches!(class.constant_pool[3], Constant::Unusable));
    assert!(matches!(class.constant_pool[4], Constant::Utf8 { .. }));
}

#[test]
fn interface_methodref_method_type_and_string_decode() {
    let mut pool: Vec<u8> = Vec::new();
    pool.push(11); // 1: InterfaceMethodref
    push_u16(&mut pool, 2);
    push_u16(&mut pool, 3);
    push_class(&mut pool, 4); // 2
    push_nat(&mut pool, 4, 5); // 3
    push_utf8(&mut pool, "Runnable"); // 4
    push_utf8(&mut pool, "()V"); // 5
    pool.push(16); // 6: MethodType
    push_u16(&mut pool, 5);
    push_string(&mut pool, 4); // 7
    let buf = skeleton(8, &pool, 2, 2, 0, &[]);
    let class = ClassParser::from_bytes(&buf).parse().unwrap();
    assert!(matches!(
        class.constant_pool[0],
        Constant::InterfaceMethodref { class_index: 2, name_and_type_index: 3, .. }
    ));
    assert!(matches!(class.constant_pool[5], Constant::MethodType { descriptor_index: 5, .. }));
    assert!(matches!(class.constant_pool[6], Constant::String { string_index: 4, .. }));
}

#[test]
fn negative_integer_constant_is_exact() {
    let mut pool: Vec<u8> = Vec::new();
    push_integer(&mut pool, -1);
    push_integer(&mut pool, i32::MIN);
    let buf = skeleton(3, &pool, 0, 0, 0, &[]);
    let class = ClassParser::from_bytes(&buf).parse().unwrap();
    assert!(matches!(class.constant_pool[0], Constant::Integer { value: -1, .. }));
    assert!(matches!(class.constant_pool[1], Constant::Integer { value: i32::MIN, .. }));
}

#[test]
fn float_constant_keeps_raw_bytes() {
    let mut pool: Vec<u8> = Vec::new();
    pool.push(4); // Float
    pool.extend_from_slice(&[0x3f, 0x80, 0x00, 0x01]);
    let buf = skeleton(2, &pool, 0, 0, 0, &[]);
    let class = ClassParser::from_bytes(&buf).parse().unwrap();
    match &class.constant_pool[0] {
        Constant::Float { bytes, .. } => assert_eq!(*bytes, &[0x3f, 0x80, 0x00, 0x01]),
        other => panic!("expected Float, found {:?}", other),
    }
}

#[test]
fn invalid_attribute_name_index_is_reported() {
    // The attribute's name index points at a Class entry, not Utf8.
    let mut pool: Vec<u8> = Vec::new();
    push_class(&mut pool, 1);
    let mut attr: Vec<u8> = Vec::new();
    push_u16(&mut attr, 1);
    push_u32(&mut attr, 0);
    let buf = skeleton(2, &pool, 1, 1, 1, &attr);
    let err = ClassParser::from_bytes(&buf).parse().unwrap_err();
    assert_eq!(err, ErrorType::InvalidNameIndex);
}

#[test]
fn attribute_name_index_zero_is_reported() {
    let mut pool: Vec<u8> = Vec::new();
    push_utf8(&mut pool, "SourceFile");
    let mut attr: Vec<u8> = Vec::new();
    push_u16(&mut attr, 0);
    push_u32(&mut attr, 2);
    push_u16(&mut attr, 1);
    let buf = skeleton(2, &pool, 0, 0, 1, &attr);
    let err = ClassParser::from_bytes(&buf).parse().unwrap_err();
    assert_eq!(err, ErrorType::InvalidNameIndex);
}

#[test]
fn invalid_utf8_attribute_name_is_reported() {
    let mut pool: Vec<u8> = Vec::new();
    pool.push(1); // Utf8 of one byte 0xFF: not valid UTF-8
    push_u16(&mut pool, 1);
    pool.push(0xFF);
    let mut attr: Vec<u8> = Vec::new();
    push_u16(&mut attr, 1);
    push_u32(&mut attr, 0);
    let buf = skeleton(2, &pool, 0, 0, 1, &attr);
    let err = ClassParser::from_bytes(&buf).parse().unwrap_err();
    assert_eq!(err, ErrorType::InvalidUtf8);
}

#[test]
fn unknown_attribute_is_skipped_by_default() {
    let mut pool: Vec<u8> = Vec::new();
    push_utf8(&mut pool, "Deprecated"); // not a recognized name here
    let mut attr: Vec<u8> = Vec::new();
    push_u16(&mut attr, 1);
    push_u32(&mut attr, 3);
    attr.extend_from_slice(&[9, 9, 9]);
    let buf = skeleton(2, &pool, 0, 0, 1, &attr);
    let class = ClassParser::from_bytes(&buf).parse().unwrap();
    assert_eq!(class.attributes_count, 1);
    assert_eq!(class.attributes.len(), 0); // skipped and dropped
}

#[test]
fn unknown_attribute_rejected_under_policy() {
    let mut pool: Vec<u8> = Vec::new();
    push_utf8(&mut pool, "Deprecated");
    let mut attr: Vec<u8> = Vec::new();
    push_u16(&mut attr, 1);
    push_u32(&mut attr, 0);
    let buf = skeleton(2, &pool, 0, 0, 1, &attr);
    let opts = ParseOptions {
        on_unknown_attribute: AttributePolicy::Reject,
        ..ParseOptions::default()
    };
    let err = ClassParser::with_options(&buf, opts).parse().unwrap_err();
    assert_eq!(err, ErrorType::UnknownAttribute(b"Deprecated".to_vec()));
}

#[test]
fn unknown_access_bits_rejected_under_policy() {
    let buf = hello_class_bytes();
    let mut loud = buf.clone();
    // The class access flag word 0x0021 follows the pool's last entry, the
    // Utf8 of main's descriptor; set the undefined bit 0x0100 in it.
    let needle = b"([Ljava/lang/String;)V";
    let pos = buf.windows(needle.len()).position(|w| w == needle).unwrap() + needle.len();
    assert_eq!(&buf[pos..pos + 2], &[0x00, 0x21]);
    loud[pos] = 0x01;
    // Under the default policy the undefined bit is kept verbatim.
    let class = ClassParser::from_bytes(&loud).parse().unwrap();
    assert_eq!(class.access_flags.bits, 0x0121);
    let opts = ParseOptions {
        on_unknown_access_bits: AccessBitsPolicy::Reject,
        ..ParseOptions::default()
    };
    let err = ClassParser::with_options(&loud, opts).parse().unwrap_err();
    assert_eq!(err, ErrorType::UnknownAccessBits(0x0121));
}

#[test]
fn attribute_depth_ceiling_is_enforced() {
    let mut pool: Vec<u8> = Vec::new();
    push_utf8(&mut pool, "SourceFile");
    let mut attr: Vec<u8> = Vec::new();
    push_u16(&mut attr, 1);
    push_u32(&mut attr, 2);
    push_u16(&mut attr, 1);
    let buf = skeleton(2, &pool, 0, 0, 1, &attr);
    let opts = ParseOptions { max_attribute_depth: 0, ..ParseOptions::default() };
    let err = ClassParser::with_options(&buf, opts).parse().unwrap_err();
    assert_eq!(err, ErrorType::AttributeDepthExceeded);
    // With any allowance at all, the same file parses.
    let opts = ParseOptions { max_attribute_depth: 1, ..ParseOptions::default() };
    let class = ClassParser::with_options(&buf, opts).parse().unwrap();
    assert!(matches!(class.attributes[0], Attribute::SourceFile { sourcefile_index: 1, .. }));
}

#[test]
fn inner_classes_attribute_decodes() {
    let mut pool: Vec<u8> = Vec::new();
    push_utf8(&mut pool, "InnerClasses"); // 1
    push_class(&mut pool, 3); // 2: Outer
    push_utf8(&mut pool, "Outer"); // 3
    push_class(&mut pool, 5); // 4: Outer$Inner
    push_utf8(&mut pool, "Outer$Inner"); // 5
    push_utf8(&mut pool, "Inner"); // 6
    let mut attr: Vec<u8> = Vec::new();
    push_u16(&mut attr, 1);
    push_u32(&mut attr, 10);
    push_u16(&mut attr, 1); // one inner class
    push_u16(&mut attr, 4);
    push_u16(&mut attr, 2);
    push_u16(&mut attr, 6);
    push_u16(&mut attr, 0x0001);
    let buf = skeleton(7, &pool, 2, 2, 1, &attr);
    let class = ClassParser::from_bytes(&buf).parse().unwrap();
    match &class.attributes[0] {
        Attribute::InnerClasses { number_of_classes, classes, .. } => {
            assert_eq!(*number_of_classes, 1);
            assert_eq!(classes.len(), 1);
            let InnerClassAttribute {
                inner_class_info_index,
                outer_class_info_index,
                inner_name_index,
                inner_class_access_flags,
            } = classes[0];
            assert!(matches!(
                class.constant_pool[(inner_class_info_index - 1) as usize],
                Constant::Class { .. }
            ));
            assert!(matches!(
                class.constant_pool[(outer_class_info_index - 1) as usize],
                Constant::Class { .. }
            ));
            assert_eq!(inner_name_index, 6);
            assert_eq!(inner_class_access_flags.bits, 0x0001);
        },
        other => panic!("expected InnerClasses, found {:?}", other),
    }
}

#[test]
fn source_file_and_nest_members_decode() {
    let mut pool: Vec<u8> = Vec::new();
    push_utf8(&mut pool, "SourceFile"); // 1
    push_utf8(&mut pool, "NestMembers"); // 2
    push_utf8(&mut pool, "A.java"); // 3
    push_class(&mut pool, 3); // 4
    let mut attrs: Vec<u8> = Vec::new();
    push_u16(&mut attrs, 1);
    push_u32(&mut attrs, 2);
    push_u16(&mut attrs, 3);
    push_u16(&mut attrs, 2);
    push_u32(&mut attrs, 4);
    push_u16(&mut attrs, 1); // one nest member
    push_u16(&mut attrs, 4);
    let buf = skeleton(5, &pool, 4, 4, 2, &attrs);
    let class = ClassParser::from_bytes(&buf).parse().unwrap();
    assert!(matches!(class.attributes[0], Attribute::SourceFile { sourcefile_index: 3, .. }));
    match &class.attributes[1] {
        Attribute::NestMembers { number_of_classes, classes, .. } => {
            assert_eq!(*number_of_classes, 1);
            assert_eq!(classes, &vec![4u16]);
        },
        other => panic!("expected NestMembers, found {:?}", other),
    }
}

/// A method whose `Code` attribute holds the given bytecode, plus the pool
/// entries the caller supplies.  Pool entry 1 must be the Utf8 `"Code"`.
fn class_with_code(pool_count: u16, pool: &[u8], code: &[u8]) -> Vec<u8> {
    let mut b: Vec<u8> = Vec::new();
    push_u32(&mut b, 0xCAFEBABE);
    push_u16(&mut b, 0);
    push_u16(&mut b, 52);
    push_u16(&mut b, pool_count);
    b.extend_from_slice(pool);
    push_u16(&mut b, 0x0021);
    push_u16(&mut b, 0);
    push_u16(&mut b, 0);
    push_u16(&mut b, 0); // interfaces
    push_u16(&mut b, 0); // fields
    push_u16(&mut b, 1); // methods
    push_u16(&mut b, 0x0008);
    push_u16(&mut b, 1);
    push_u16(&mut b, 1);
    push_u16(&mut b, 1);
    push_code_attribute(&mut b, 1, 4, 4, code);
    push_u16(&mut b, 0); // class attributes
    b
}

fn method_code<'a>(class: &'a RawClass<'a>) -> &'a Vec<classfmt::opcode::Instruction> {
    match &class.methods[0].attributes[0] {
        Attribute::Code { code, .. } => code,
        other => panic!("expected Code, found {:?}", other),
    }
}

#[test]
fn tableswitch_padding_and_table_are_decoded() {
    let mut pool: Vec<u8> = Vec::new();
    push_utf8(&mut pool, "Code"); // 1
    // pc 0: iload_0; pc 1: tableswitch (operands start at pc 2, two bytes of
    // padding align the default to pc 4); pc 24: return.
    let mut code: Vec<u8> = vec![0x1a, 0xaa];
    code.extend_from_slice(&[0, 0]); // padding
    push_u32(&mut code, 20); // default
    push_u32(&mut code, 0); // low
    push_u32(&mut code, 1); // high
    push_u32(&mut code, 12); // offset for 0
    push_u32(&mut code, 16); // offset for 1
    code.push(0xb1);
    let buf = class_with_code(2, &pool, &code);
    let class = ClassParser::from_bytes(&buf).parse().unwrap();
    let instrs = method_code(&class);
    assert_eq!(instrs.len(), 3);
    assert_eq!(instrs[0].opcode, Opcode::Iload0);
    assert_eq!(instrs[1].pc, 1);
    assert_eq!(instrs[1].opcode, Opcode::Tableswitch);
    assert_eq!(instrs[1].operands.len(), 2 + 12 + 8); // padding + header + 2 offsets
    assert_eq!(instrs[2].opcode, Opcode::Return);
    // The decoder consumed the region exactly.
    let total: usize = instrs.iter().map(|i| 1 + i.operands.len()).sum();
    assert_eq!(total, code.len());
}

#[test]
fn lookupswitch_is_decoded() {
    let mut pool: Vec<u8> = Vec::new();
    push_utf8(&mut pool, "Code"); // 1
    // pc 0: iload_0; pc 1: lookupswitch; padding 2 bytes; default; npairs=1;
    // one (match, offset) pair; then return.
    let mut code: Vec<u8> = vec![0x1a, 0xab];
    code.extend_from_slice(&[0, 0]);
    push_u32(&mut code, 16); // default
    push_u32(&mut code, 1); // npairs
    push_u32(&mut code, 42); // match
    push_u32(&mut code, 12); // offset
    code.push(0xb1);
    let buf = class_with_code(2, &pool, &code);
    let class = ClassParser::from_bytes(&buf).parse().unwrap();
    let instrs = method_code(&class);
    assert_eq!(instrs.len(), 3);
    assert_eq!(instrs[1].opcode, Opcode::Lookupswitch);
    assert_eq!(instrs[1].operands.len(), 2 + 8 + 8);
}

#[test]
fn wide_iinc_is_decoded() {
    let mut pool: Vec<u8> = Vec::new();
    push_utf8(&mut pool, "Code"); // 1
    // wide iinc index=0x0102 const=0x0304, then wide iload index=5, return.
    let code: Vec<u8> = vec![
        0xc4, 0x84, 0x01, 0x02, 0x03, 0x04, 0xc4, 0x15, 0x00, 0x05, 0xb1,
    ];
    let buf = class_with_code(2, &pool, &code);
    let class = ClassParser::from_bytes(&buf).parse().unwrap();
    let instrs = method_code(&class);
    assert_eq!(instrs.len(), 3);
    assert_eq!(instrs[0].opcode, Opcode::Wide);
    assert_eq!(instrs[0].operands, vec![0x84, 0x01, 0x02, 0x03, 0x04]);
    assert_eq!(instrs[1].opcode, Opcode::Wide);
    assert_eq!(instrs[1].operands, vec![0x15, 0x00, 0x05]);
}

#[test]
fn wide_of_non_widenable_opcode_is_malformed() {
    let mut pool: Vec<u8> = Vec::new();
    push_utf8(&mut pool, "Code"); // 1
    let code: Vec<u8> = vec![0xc4, 0x00, 0xb1]; // wide nop is not defined
    let buf = class_with_code(2, &pool, &code);
    let err = ClassParser::from_bytes(&buf).parse().unwrap_err();
    assert_eq!(err, ErrorType::MalformedCode);
}

#[test]
fn unknown_opcode_is_reported() {
    let mut pool: Vec<u8> = Vec::new();
    push_utf8(&mut pool, "Code"); // 1
    let code: Vec<u8> = vec![0xca]; // reserved byte
    let buf = class_with_code(2, &pool, &code);
    let err = ClassParser::from_bytes(&buf).parse().unwrap_err();
    assert_eq!(err, ErrorType::UnknownOpcode(0xca));
}

#[test]
fn code_region_ending_inside_instruction_is_malformed() {
    let mut pool: Vec<u8> = Vec::new();
    push_utf8(&mut pool, "Code"); // 1
    // getstatic wants two operand bytes; the region ends after one.
    let code: Vec<u8> = vec![0xb2, 0x00];
    let buf = class_with_code(2, &pool, &code);
    let err = ClassParser::from_bytes(&buf).parse().unwrap_err();
    assert_eq!(err, ErrorType::MalformedCode);
}

#[test]
fn invokedynamic_with_bootstrap_methods() {
    let mut pool: Vec<u8> = Vec::new();
    push_utf8(&mut pool, "Code"); // 1
    push_utf8(&mut pool, "BootstrapMethods"); // 2
    pool.push(18); // 3: InvokeDynamic, bootstrap 0, name-and-type 4
    push_u16(&mut pool, 0);
    push_u16(&mut pool, 4);
    push_nat(&mut pool, 5, 6); // 4
    push_utf8(&mut pool, "run"); // 5
    push_utf8(&mut pool, "()V"); // 6
    pool.push(15); // 7: MethodHandle, kind 6 (invokestatic), ref 8
    pool.push(6);
    push_u16(&mut pool, 8);
    push_methodref(&mut pool, 9, 4); // 8
    push_class(&mut pool, 10); // 9
    push_utf8(&mut pool, "X"); // 10

    let mut b: Vec<u8> = Vec::new();
    push_u32(&mut b, 0xCAFEBABE);
    push_u16(&mut b, 0);
    push_u16(&mut b, 52);
    push_u16(&mut b, 11);
    b.extend_from_slice(&pool);
    push_u16(&mut b, 0x0021);
    push_u16(&mut b, 9);
    push_u16(&mut b, 9);
    push_u16(&mut b, 0);
    push_u16(&mut b, 0);
    push_u16(&mut b, 1);
    push_u16(&mut b, 0x0008);
    push_u16(&mut b, 5);
    push_u16(&mut b, 6);
    push_u16(&mut b, 1);
    push_code_attribute(&mut b, 1, 1, 1, &[0xba, 0x00, 0x03, 0x00, 0x00, 0xb1]);
    push_u16(&mut b, 1); // class attributes: BootstrapMethods
    push_u16(&mut b, 2);
    push_u32(&mut b, 6);
    push_u16(&mut b, 1); // one bootstrap method
    push_u16(&mut b, 7); // method handle
    push_u16(&mut b, 0); // no arguments
    let class = ClassParser::from_bytes(&b).parse().unwrap();

    let instrs = method_code(&class);
    assert_eq!(instrs[0].opcode, Opcode::Invokedynamic);
    // The two reserved operand bytes are zero.
    assert_eq!(instrs[0].operands[2], 0);
    assert_eq!(instrs[0].operands[3], 0);

    let (bootstrap_index, methods) = match (&class.constant_pool[2], &class.attributes[0]) {
        (
            Constant::InvokeDynamic { bootstrap_method_attr_index, .. },
            Attribute::BootstrapMethods { bootstrap_methods, .. },
        ) => (*bootstrap_method_attr_index, bootstrap_methods),
        other => panic!("unexpected shapes: {:?}", other),
    };
    // The constant's bootstrap index points into the parsed entries.
    assert!((bootstrap_index as usize) < methods.len());
    let BootstrapMethodAttribute { bootstrap_method_ref, num_bootstrap_arguments, .. } =
        &methods[0];
    assert_eq!(*bootstrap_method_ref, 7);
    assert_eq!(*num_bootstrap_arguments, 0);
}

#[test]
fn invokedynamic_with_nonzero_reserved_bytes_is_malformed() {
    let mut pool: Vec<u8> = Vec::new();
    push_utf8(&mut pool, "Code"); // 1
    let code: Vec<u8> = vec![0xba, 0x00, 0x03, 0x01, 0x00, 0xb1];
    let buf = class_with_code(2, &pool, &code);
    let err = ClassParser::from_bytes(&buf).parse().unwrap_err();
    assert_eq!(err, ErrorType::MalformedCode);
}

#[test]
fn line_number_table_and_method_parameters_decode() {
    let mut pool: Vec<u8> = Vec::new();
    push_utf8(&mut pool, "Code"); // 1
    push_utf8(&mut pool, "LineNumberTable"); // 2
    push_utf8(&mut pool, "MethodParameters"); // 3
    push_utf8(&mut pool, "x"); // 4

    let mut b: Vec<u8> = Vec::new();
    push_u32(&mut b, 0xCAFEBABE);
    push_u16(&mut b, 0);
    push_u16(&mut b, 52);
    push_u16(&mut b, 5);
    b.extend_from_slice(&pool);
    push_u16(&mut b, 0x0021);
    push_u16(&mut b, 0);
    push_u16(&mut b, 0);
    push_u16(&mut b, 0);
    push_u16(&mut b, 0);
    push_u16(&mut b, 1); // one method
    push_u16(&mut b, 0x0008);
    push_u16(&mut b, 4);
    push_u16(&mut b, 4);
    push_u16(&mut b, 2); // two method attributes
    // A Code attribute whose body carries a nested LineNumberTable.
    push_u16(&mut b, 1); // "Code"
    push_u32(&mut b, 2 + 2 + 4 + 1 + 2 + 2 + 6 + 10);
    push_u16(&mut b, 1); // max_stack
    push_u16(&mut b, 1); // max_locals
    push_u32(&mut b, 1); // code_length
    b.push(0xb1);
    push_u16(&mut b, 0); // exception table
    push_u16(&mut b, 1); // one nested attribute
    push_u16(&mut b, 2); // "LineNumberTable"
    push_u32(&mut b, 6);
    push_u16(&mut b, 1); // one entry
    push_u16(&mut b, 0); // start_pc
    push_u16(&mut b, 17); // line_number
    // A MethodParameters attribute.
    push_u16(&mut b, 3);
    push_u32(&mut b, 5);
    b.push(1); // one parameter
    push_u16(&mut b, 4); // name "x"
    push_u16(&mut b, 0x0010); // final
    push_u16(&mut b, 0); // class attributes
    let class = ClassParser::from_bytes(&b).parse().unwrap();

    match &class.methods[0].attributes[0] {
        Attribute::Code { attributes, .. } => match &attributes[0] {
            Attribute::LineNumberTable { line_number_table_length, line_number_table, .. } => {
                assert_eq!(*line_number_table_length, 1);
                assert_eq!(line_number_table[0].start_pc, 0);
                assert_eq!(line_number_table[0].line_number, 17);
            },
            other => panic!("expected LineNumberTable, found {:?}", other),
        },
        other => panic!("expected Code, found {:?}", other),
    }
    match &class.methods[0].attributes[1] {
        Attribute::MethodParameters { parameters_count, parameters, .. } => {
            assert_eq!(*parameters_count, 1);
            assert_eq!(parameters[0].name_index, 4);
            assert_eq!(parameters[0].access_flags.bits, 0x0010);
        },
        other => panic!("expected MethodParameters, found {:?}", other),
    }
}

#[test]
fn this_and_super_indices_are_stored_unresolved() {
    // The driver records `this_class` and `super_class` verbatim; indices
    // that resolve to nothing are a consumer concern, not a parse error.
    let mut pool: Vec<u8> = Vec::new();
    push_utf8(&mut pool, "x");
    let buf = skeleton(2, &pool, 7, 9, 0, &[]);
    let class = ClassParser::from_bytes(&buf).parse().unwrap();
    assert_eq!(class.this_class, 7);
    assert_eq!(class.super_class, 9);
}

#[test]
fn interfaces_are_read() {
    let mut pool: Vec<u8> = Vec::new();
    push_class(&mut pool, 2); // 1
    push_utf8(&mut pool, "I"); // 2
    let mut b: Vec<u8> = Vec::new();
    push_u32(&mut b, 0xCAFEBABE);
    push_u16(&mut b, 0);
    push_u16(&mut b, 52);
    push_u16(&mut b, 3);
    b.extend_from_slice(&pool);
    push_u16(&mut b, 0x0021);
    push_u16(&mut b, 1);
    push_u16(&mut b, 1);
    push_u16(&mut b, 1); // one interface
    push_u16(&mut b, 1);
    push_u16(&mut b, 0);
    push_u16(&mut b, 0);
    push_u16(&mut b, 0);
    let class = ClassParser::from_bytes(&b).parse().unwrap();
    assert_eq!(class.interface_count, 1);
    assert_eq!(class.interfaces, vec![1u16]);
}
