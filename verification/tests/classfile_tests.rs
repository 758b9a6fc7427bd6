use classfile::attribute::Attribute;
use classfile::attribute::ConstantValueAttribute;
use classfile::attribute::ExceptionHandlerDescriptor;
use classfile::attribute::LineNumberTableEntry;
use classfile::descriptor::BasicFieldType;
use classfile::descriptor::FieldDescriptor;
use classfile::descriptor::ReturnDescriptor;
use classfile::error::ParseError;
use classfile::op::Op;
use classfile::Access;
use classfile::AccessFlags;
use classfile::ClassFile;

fn push_u16(v: &mut Vec<u8>, x: u16) {
    v.extend_from_slice(&x.to_be_bytes());
}

fn push_u32(v: &mut Vec<u8>, x: u32) {
    v.extend_from_slice(&x.to_be_bytes());
}

fn push_utf8_const(v: &mut Vec<u8>, s: &str) {
    v.push(1);
    push_u16(v, s.len() as u16);
    v.extend_from_slice(s.as_bytes());
}

fn push_class_const(v: &mut Vec<u8>, name_index: u16) {
    v.push(7);
    push_u16(v, name_index);
}

/// A class `Foo` extending `java/lang/Object`, implementing `Runnable`,
/// with one int field `x` carrying `ConstantValue 42`, one method `<init>`
/// with a `Code` attribute (nested `LineNumberTable`), and a top-level
/// `SourceFile` attribute. `code_attr_len` lets a caller mis-declare the
/// `Code` attribute's length; the consistent value is 40.
fn sample_class_bytes(code_attr_len: u32) -> Vec<u8> {
    let mut v = Vec::new();
    push_u32(&mut v, 0xCAFEBABE);
    push_u16(&mut v, 3); // minor
    push_u16(&mut v, 45); // major
    push_u16(&mut v, 16); // constant_pool_count: 15 entries
    push_utf8_const(&mut v, "Foo"); // 1
    push_class_const(&mut v, 1); // 2
    push_utf8_const(&mut v, "java/lang/Object"); // 3
    push_class_const(&mut v, 3); // 4
    push_utf8_const(&mut v, "Code"); // 5
    push_utf8_const(&mut v, "LineNumberTable"); // 6
    push_utf8_const(&mut v, "SourceFile"); // 7
    push_utf8_const(&mut v, "ConstantValue"); // 8
    push_utf8_const(&mut v, "x"); // 9
    push_utf8_const(&mut v, "I"); // 10
    v.push(3); // 11: Integer constant
    push_u32(&mut v, 42);
    push_utf8_const(&mut v, "<init>"); // 12
    push_utf8_const(&mut v, "()V"); // 13
    push_utf8_const(&mut v, "Foo.java"); // 14
    push_utf8_const(&mut v, "Runnable"); // 15
    push_u16(&mut v, 0x0021); // access flags: Public | Super
    push_u16(&mut v, 2); // this_class
    push_u16(&mut v, 4); // super_class
    push_u16(&mut v, 1); // interfaces_count
    push_u16(&mut v, 15); // -> Utf8 "Runnable"
    push_u16(&mut v, 1); // fields_count
    push_u16(&mut v, 0x0002); // field access flags
    push_u16(&mut v, 9); // name "x"
    push_u16(&mut v, 10); // descriptor "I"
    push_u16(&mut v, 1); // field attributes_count
    push_u16(&mut v, 8); // "ConstantValue"
    push_u32(&mut v, 2);
    push_u16(&mut v, 11); // -> Integer 42
    push_u16(&mut v, 1); // methods_count
    push_u16(&mut v, 0x0001); // method access flags
    push_u16(&mut v, 12); // name "<init>"
    push_u16(&mut v, 13); // descriptor "()V"
    push_u16(&mut v, 1); // method attributes_count
    push_u16(&mut v, 5); // "Code"
    push_u32(&mut v, code_attr_len);
    push_u16(&mut v, 1); // max_stack
    push_u16(&mut v, 1); // max_locals
    push_u32(&mut v, 4); // code_length
    v.extend_from_slice(&[0x2a, 0x10, 0x2a, 0xb1]); // aload_0; bipush 42; return
    push_u16(&mut v, 1); // exception_table_length
    push_u16(&mut v, 0);
    push_u16(&mut v, 4);
    push_u16(&mut v, 4);
    push_u16(&mut v, 0);
    push_u16(&mut v, 1); // nested attributes_count
    push_u16(&mut v, 6); // "LineNumberTable"
    push_u32(&mut v, 10);
    push_u16(&mut v, 2); // entry count
    push_u16(&mut v, 0);
    push_u16(&mut v, 1);
    push_u16(&mut v, 3);
    push_u16(&mut v, 2);
    push_u16(&mut v, 1); // top-level attributes_count
    push_u16(&mut v, 7); // "SourceFile"
    push_u32(&mut v, 2);
    push_u16(&mut v, 14); // -> "Foo.java"
    v
}

#[test]
fn parses_a_whole_class_file() {
    let bytes = sample_class_bytes(40);
    let cf = ClassFile::parse_from_bytes(&bytes).unwrap();
    assert_eq!((45, 3), cf.version());
    assert_eq!("Foo", cf.this_class());
    assert_eq!("java/lang/Object", cf.super_class());
    assert_eq!(vec!["Runnable".to_string()], cf.interfaces());
    assert!(cf.access_flags().has(Access::Public));
    assert!(cf.access_flags().has(Access::Super));
    assert!(!cf.access_flags().has(Access::Interface));

    let fields = cf.fields();
    assert_eq!(1, fields.len());
    assert_eq!("x", fields[0].name);
    assert_eq!(
        FieldDescriptor::Basic(BasicFieldType::Int),
        fields[0].descriptor
    );
    assert_eq!(
        vec![Attribute::ConstantValue(ConstantValueAttribute::Integer(42))],
        fields[0].attributes
    );

    let methods = cf.methods();
    assert_eq!(1, methods.len());
    assert_eq!("<init>", methods[0].name);
    assert!(methods[0].descriptor.parameters.is_empty());
    assert_eq!(
        ReturnDescriptor::Void,
        methods[0].descriptor.return_descriptor
    );
    match &methods[0].attributes[0] {
        Attribute::Code(code) => {
            assert_eq!(1, code.max_stack);
            assert_eq!(1, code.max_locals);
            assert_eq!(vec![Op::Aload0, Op::Bipush(42), Op::Return], code.code);
            assert_eq!(
                vec![ExceptionHandlerDescriptor {
                    start_pc: 0,
                    end_pc: 4,
                    handler_pc: 4,
                    catch_type: 0
                }],
                code.exception_table
            );
            assert_eq!(
                vec![Attribute::LineNumberTable(vec![
                    LineNumberTableEntry {
                        start_pc: 0,
                        line_number: 1
                    },
                    LineNumberTableEntry {
                        start_pc: 3,
                        line_number: 2
                    },
                ])],
                code.attributes
            );
        }
        other => panic!("expected a Code attribute, got {:?}", other),
    }

    assert_eq!(
        vec![Attribute::SourceFile("Foo.java".to_string())],
        cf.attributes()
    );
}

#[test]
fn code_attribute_length_mismatch_is_fatal() {
    // The Code attribute's body consumes 40 bytes; declaring 39 must fail.
    let bytes = sample_class_bytes(39);
    let err = ClassFile::parse_from_bytes(&bytes).unwrap_err();
    assert_eq!(ParseError::AttributeLengthMismatch, err.kind);
}

#[test]
fn overclaimed_pool_count_is_truncation() {
    // A count claiming 999 entries with an empty remainder: the parse must
    // fail with TruncatedInput and return, not panic or read past the end.
    let mut v = Vec::new();
    push_u32(&mut v, 0xCAFEBABE);
    push_u16(&mut v, 0); // minor
    push_u16(&mut v, 45); // major
    push_u16(&mut v, 1000); // constant_pool_count
    let err = ClassFile::parse_from_bytes(&v).unwrap_err();
    assert_eq!(ParseError::TruncatedInput, err.kind);
    assert!(err.offset <= v.len());

    // the same with one truncated entry started
    v.push(7);
    v.push(0);
    let err = ClassFile::parse_from_bytes(&v).unwrap_err();
    assert_eq!(ParseError::TruncatedInput, err.kind);
}

#[test]
fn header_errors() {
    assert_eq!(
        ParseError::MalformedHeader,
        ClassFile::parse_from_bytes(&[]).unwrap_err().kind
    );
    assert_eq!(
        ParseError::MalformedHeader,
        ClassFile::parse_from_bytes(&[0, 0, 0, 0, 0, 0]).unwrap_err().kind
    );
    // good magic, but the header is cut short
    let mut v = Vec::new();
    push_u32(&mut v, 0xCAFEBABE);
    push_u16(&mut v, 0);
    assert_eq!(
        ParseError::TruncatedInput,
        ClassFile::parse_from_bytes(&v).unwrap_err().kind
    );
    // a constant_pool_count of 0 cannot describe a pool
    let mut v = Vec::new();
    push_u32(&mut v, 0xCAFEBABE);
    push_u16(&mut v, 0);
    push_u16(&mut v, 45);
    push_u16(&mut v, 0);
    assert_eq!(
        ParseError::MalformedHeader,
        ClassFile::parse_from_bytes(&v).unwrap_err().kind
    );
}

fn header_and_count(n_entries: u16) -> Vec<u8> {
    let mut v = Vec::new();
    push_u32(&mut v, 0xCAFEBABE);
    push_u16(&mut v, 0);
    push_u16(&mut v, 45);
    push_u16(&mut v, n_entries + 1);
    v
}

#[test]
fn unknown_constant_tag_is_fatal() {
    let mut v = header_and_count(1);
    v.push(2); // tag 2 does not exist
    assert_eq!(
        ParseError::UnknownConstantTag,
        ClassFile::parse_from_bytes(&v).unwrap_err().kind
    );
}

#[test]
fn invalid_utf8_text_is_fatal() {
    let mut v = header_and_count(1);
    v.push(1); // Utf8 tag
    push_u16(&mut v, 1);
    v.push(0xFF); // not valid UTF-8
    assert_eq!(
        ParseError::MalformedText,
        ClassFile::parse_from_bytes(&v).unwrap_err().kind
    );
}

#[test]
fn multi_byte_utf8_is_decoded() {
    // A class named "Fé": the name's UTF-8 encoding is 3 bytes, 2 chars.
    let mut v = Vec::new();
    push_u32(&mut v, 0xCAFEBABE);
    push_u16(&mut v, 0);
    push_u16(&mut v, 45);
    push_u16(&mut v, 3); // two entries
    v.push(1);
    push_u16(&mut v, 3);
    v.extend_from_slice(&[0x46, 0xC3, 0xA9]); // "Fé"
    push_class_const(&mut v, 1);
    push_u16(&mut v, 0); // access flags
    push_u16(&mut v, 2); // this_class
    push_u16(&mut v, 2); // super_class
    push_u16(&mut v, 0); // interfaces
    push_u16(&mut v, 0); // fields
    push_u16(&mut v, 0); // methods
    push_u16(&mut v, 0); // attributes
    let cf = ClassFile::parse_from_bytes(&v).unwrap();
    assert_eq!("Fé", cf.this_class());
    assert_eq!(2, cf.this_class().chars().count());
}

#[test]
fn wrong_kind_and_missing_this_class() {
    // this_class -> Utf8 instead of Class
    let mut v = header_and_count(1);
    push_utf8_const(&mut v, "Foo");
    push_u16(&mut v, 0);
    push_u16(&mut v, 1); // this_class -> Utf8
    assert_eq!(
        ParseError::ConstantKindMismatch,
        ClassFile::parse_from_bytes(&v).unwrap_err().kind
    );

    // this_class -> absent index
    let mut v = header_and_count(1);
    push_utf8_const(&mut v, "Foo");
    push_u16(&mut v, 0);
    push_u16(&mut v, 9); // out of range
    assert_eq!(
        ParseError::InvalidConstantPoolIndex,
        ClassFile::parse_from_bytes(&v).unwrap_err().kind
    );
}

#[test]
fn unknown_attribute_name_is_fatal() {
    let mut v = Vec::new();
    push_u32(&mut v, 0xCAFEBABE);
    push_u16(&mut v, 0);
    push_u16(&mut v, 45);
    push_u16(&mut v, 4); // three entries
    push_utf8_const(&mut v, "Foo"); // 1
    push_class_const(&mut v, 1); // 2
    push_utf8_const(&mut v, "Bogus"); // 3
    push_u16(&mut v, 0);
    push_u16(&mut v, 2); // this
    push_u16(&mut v, 2); // super
    push_u16(&mut v, 0); // interfaces
    push_u16(&mut v, 0); // fields
    push_u16(&mut v, 0); // methods
    push_u16(&mut v, 1); // attributes
    push_u16(&mut v, 3); // "Bogus"
    push_u32(&mut v, 0);
    assert_eq!(
        ParseError::UnknownAttributeName,
        ClassFile::parse_from_bytes(&v).unwrap_err().kind
    );
}

#[test]
fn interface_methodref_constant_is_read() {
    // tag 11 is read with the same shape as Methodref and drives the
    // is_interface flag through invokespecial
    let mut v = Vec::new();
    push_u32(&mut v, 0xCAFEBABE);
    push_u16(&mut v, 0);
    push_u16(&mut v, 45);
    push_u16(&mut v, 7); // six entries
    push_utf8_const(&mut v, "Foo"); // 1
    push_class_const(&mut v, 1); // 2
    push_utf8_const(&mut v, "run"); // 3
    push_utf8_const(&mut v, "()V"); // 4
    v.push(12); // 5: NameAndType
    push_u16(&mut v, 3);
    push_u16(&mut v, 4);
    v.push(11); // 6: InterfaceMethodref
    push_u16(&mut v, 2);
    push_u16(&mut v, 5);
    push_u16(&mut v, 0);
    push_u16(&mut v, 2); // this
    push_u16(&mut v, 2); // super
    push_u16(&mut v, 0); // interfaces
    push_u16(&mut v, 0); // fields
    push_u16(&mut v, 0); // methods
    push_u16(&mut v, 0); // attributes
    let cf = ClassFile::parse_from_bytes(&v).unwrap();
    assert_eq!("Foo", cf.this_class());
}

#[test]
fn constant_value_kinds_round_through_the_pool() {
    let mut v = Vec::new();
    push_u32(&mut v, 0xCAFEBABE);
    push_u16(&mut v, 0);
    push_u16(&mut v, 45);
    push_u16(&mut v, 19); // eighteen entries
    push_utf8_const(&mut v, "Foo"); // 1
    push_class_const(&mut v, 1); // 2
    push_utf8_const(&mut v, "ConstantValue"); // 3
    push_utf8_const(&mut v, "x"); // 4
    push_utf8_const(&mut v, "F"); // 5
    v.push(4); // 6: Float 1.5
    push_u32(&mut v, 1.5f32.to_bits());
    v.push(5); // 7: Long -123
    v.extend_from_slice(&(-123i64).to_be_bytes());
    v.push(6); // 8: Double 2.5
    v.extend_from_slice(&2.5f64.to_be_bytes());
    push_utf8_const(&mut v, "hello"); // 9
    v.push(8); // 10: StringRef -> 9
    push_u16(&mut v, 9);
    push_utf8_const(&mut v, "J"); // 11
    push_utf8_const(&mut v, "D"); // 12
    push_utf8_const(&mut v, "Ljava/lang/String;"); // 13
    push_utf8_const(&mut v, "y"); // 14
    push_utf8_const(&mut v, "z"); // 15
    push_utf8_const(&mut v, "s"); // 16
    push_utf8_const(&mut v, "i"); // 17
    v.push(3); // 18: Integer -7
    v.extend_from_slice(&(-7i32).to_be_bytes());
    push_u16(&mut v, 0); // access flags
    push_u16(&mut v, 2); // this
    push_u16(&mut v, 2); // super
    push_u16(&mut v, 0); // interfaces
    push_u16(&mut v, 5); // fields_count
    for (name_idx, desc_idx, const_idx) in
        [(4u16, 5u16, 6u16), (14, 11, 7), (15, 12, 8), (16, 13, 10), (17, 5, 18)]
    {
        push_u16(&mut v, 0); // field access flags
        push_u16(&mut v, name_idx);
        push_u16(&mut v, desc_idx);
        push_u16(&mut v, 1); // one attribute
        push_u16(&mut v, 3); // "ConstantValue"
        push_u32(&mut v, 2);
        push_u16(&mut v, const_idx);
    }
    push_u16(&mut v, 0); // methods
    push_u16(&mut v, 0); // attributes
    let cf = ClassFile::parse_from_bytes(&v).unwrap();
    let fields = cf.fields();
    assert_eq!(5, fields.len());
    match &fields[0].attributes[0] {
        Attribute::ConstantValue(ConstantValueAttribute::Float(bits)) => {
            assert_eq!(1.5f32, f32::from_bits(*bits));
        }
        other => panic!("expected a Float constant, got {:?}", other),
    }
    assert_eq!(
        vec![Attribute::ConstantValue(ConstantValueAttribute::Long(-123))],
        fields[1].attributes
    );
    match &fields[2].attributes[0] {
        Attribute::ConstantValue(ConstantValueAttribute::Double(bits)) => {
            assert_eq!(2.5f64, f64::from_bits(*bits));
        }
        other => panic!("expected a Double constant, got {:?}", other),
    }
    assert_eq!(
        vec![Attribute::ConstantValue(ConstantValueAttribute::StringValue(
            "hello".to_string()
        ))],
        fields[3].attributes
    );
    assert_eq!(
        vec![Attribute::ConstantValue(ConstantValueAttribute::Integer(-7))],
        fields[4].attributes
    );
}

#[test]
fn access_flags_description() {
    assert_eq!("{ Public Super }", AccessFlags::new(0x0021).describe());
    assert_eq!("{ }", AccessFlags::new(0).describe());
    assert_eq!(
        "{ Interface Abstract }",
        AccessFlags::new(0x0600).describe()
    );
}
