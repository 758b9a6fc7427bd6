use classfile::constant_pool::ClassConstant;
use classfile::constant_pool::Constant;
use classfile::constant_pool::ConstantPool;
use classfile::constant_pool::MethodrefConstant;
use classfile::constant_pool::NameAndTypeConstant;
use classfile::error::ParseError;
use classfile::op::parse_ops_from_code_bytes;
use classfile::op::Op;

fn empty_pool() -> ConstantPool {
    ConstantPool::new(Vec::new())
}

/// Pool: 1 = Utf8 "Foo", 2 = Class -> 1, and a resolvable method `bar()V`.
fn pool_with_class() -> ConstantPool {
    ConstantPool::new(vec![
        Constant::Utf8("Foo".to_string()),
        Constant::Class(ClassConstant { name_index: 1 }),
        Constant::Utf8("bar".to_string()),
        Constant::Utf8("()V".to_string()),
        Constant::NameAndType(NameAndTypeConstant {
            name_index: 3,
            descriptor_index: 4,
        }),
        Constant::Methodref(MethodrefConstant {
            class_index: 2,
            name_and_type_index: 5,
        }),
        Constant::InterfaceMethodref(MethodrefConstant {
            class_index: 2,
            name_and_type_index: 5,
        }),
    ])
}

#[test]
fn single_return_instruction() {
    let ops = parse_ops_from_code_bytes(&[0xb1], &empty_pool()).unwrap();
    assert_eq!(vec![Op::Return], ops);
}

#[test]
fn new_resolves_class_name() {
    // pool index (hi << 8 | lo) == 2, a Class entry naming Utf8 "Foo"
    let ops = parse_ops_from_code_bytes(&[0xbb, 0x00, 0x02], &pool_with_class()).unwrap();
    assert_eq!(vec![Op::New("Foo".to_string())], ops);
}

#[test]
fn stack_and_local_instructions() {
    let ops = parse_ops_from_code_bytes(
        &[0x2a, 0x1b, 0x03, 0x60, 0x3c, 0x59, 0x4b, 0xac],
        &empty_pool(),
    )
    .unwrap();
    assert_eq!(
        vec![
            Op::Aload0,
            Op::Iload1,
            Op::Iconst0,
            Op::Iadd,
            Op::Istore1,
            Op::Dup,
            Op::Astore0,
            Op::Ireturn
        ],
        ops
    );
}

#[test]
fn bipush_carries_signed_literal() {
    let ops = parse_ops_from_code_bytes(&[0x10, 0x05, 0x10, 0xff], &empty_pool()).unwrap();
    assert_eq!(vec![Op::Bipush(5), Op::Bipush(-1)], ops);
}

#[test]
fn invokespecial_accepts_both_method_kinds() {
    let pool = pool_with_class();
    let ops = parse_ops_from_code_bytes(&[0xb7, 0x00, 0x06], &pool).unwrap();
    match &ops[0] {
        Op::Invokespecial(m) => {
            assert!(!m.is_interface);
            assert_eq!("Foo", m.class);
            assert_eq!("bar", m.name);
        }
        other => panic!("expected Invokespecial, got {:?}", other),
    }
    let ops = parse_ops_from_code_bytes(&[0xb7, 0x00, 0x07], &pool).unwrap();
    match &ops[0] {
        Op::Invokespecial(m) => assert!(m.is_interface),
        other => panic!("expected Invokespecial, got {:?}", other),
    }
}

#[test]
fn invokevirtual_rejects_interface_methodref() {
    let pool = pool_with_class();
    let ops = parse_ops_from_code_bytes(&[0xb6, 0x00, 0x06], &pool).unwrap();
    match &ops[0] {
        Op::Invokevirtual(m) => assert!(!m.is_interface),
        other => panic!("expected Invokevirtual, got {:?}", other),
    }
    assert_eq!(
        Err(ParseError::ConstantKindMismatch),
        parse_ops_from_code_bytes(&[0xb6, 0x00, 0x07], &pool)
    );
}

#[test]
fn unknown_opcode_fails() {
    assert_eq!(
        Err(ParseError::UnknownOpcode),
        parse_ops_from_code_bytes(&[0xff], &empty_pool())
    );
}

#[test]
fn truncated_operand_fails() {
    assert_eq!(
        Err(ParseError::TruncatedInput),
        parse_ops_from_code_bytes(&[0x10], &empty_pool())
    );
    assert_eq!(
        Err(ParseError::TruncatedInput),
        parse_ops_from_code_bytes(&[0xbb, 0x00], &pool_with_class())
    );
}

#[test]
fn bad_pool_index_in_operand_fails() {
    assert_eq!(
        Err(ParseError::InvalidConstantPoolIndex),
        parse_ops_from_code_bytes(&[0xbb, 0x00, 0x63], &pool_with_class())
    );
    // index 1 is a Utf8 entry, not a Class
    assert_eq!(
        Err(ParseError::ConstantKindMismatch),
        parse_ops_from_code_bytes(&[0xbb, 0x00, 0x01], &pool_with_class())
    );
}
