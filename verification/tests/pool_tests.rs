use classfile::constant_pool::ClassConstant;
use classfile::constant_pool::Constant;
use classfile::constant_pool::ConstantPool;
use classfile::constant_pool::ConstantValueKind;
use classfile::constant_pool::FieldrefConstant;
use classfile::constant_pool::MethodrefConstant;
use classfile::constant_pool::NameAndTypeConstant;
use classfile::descriptor::BasicFieldType;
use classfile::descriptor::FieldDescriptor;
use classfile::descriptor::ReturnDescriptor;
use classfile::error::ParseError;

/// A pool with the entries needed to resolve a field and a method of class
/// `Foo`: member `bar` with descriptor `I` or `()V`.
fn sample_pool() -> ConstantPool {
    ConstantPool::new(vec![
        // 1
        Constant::Utf8("Foo".to_string()),
        // 2
        Constant::Class(ClassConstant { name_index: 1 }),
        // 3
        Constant::Utf8("bar".to_string()),
        // 4
        Constant::Utf8("I".to_string()),
        // 5
        Constant::NameAndType(NameAndTypeConstant {
            name_index: 3,
            descriptor_index: 4,
        }),
        // 6
        Constant::Fieldref(FieldrefConstant {
            class_index: 2,
            name_and_type_index: 5,
        }),
        // 7
        Constant::Utf8("()V".to_string()),
        // 8
        Constant::NameAndType(NameAndTypeConstant {
            name_index: 3,
            descriptor_index: 7,
        }),
        // 9
        Constant::Methodref(MethodrefConstant {
            class_index: 2,
            name_and_type_index: 8,
        }),
        // 10
        Constant::ConstantValue(ConstantValueKind::Integer(42)),
    ])
}

#[test]
fn one_based_lookup() {
    let pool = sample_pool();
    // index 0 is always absent
    assert!(pool.get(0).is_none());
    // indices beyond the table are absent
    assert!(pool.get(11).is_none());
    assert!(pool.get(u16::MAX).is_none());
    // every index in 1..=N returns exactly the entry stored at that position
    assert_eq!(Some(&Constant::Utf8("Foo".to_string())), pool.get(1));
    assert_eq!(
        Some(&Constant::Class(ClassConstant { name_index: 1 })),
        pool.get(2)
    );
    assert_eq!(
        Some(&Constant::ConstantValue(ConstantValueKind::Integer(42))),
        pool.get(10)
    );
}

#[test]
fn utf8_and_class_resolution() {
    let pool = sample_pool();
    assert_eq!("Foo", pool.get_utf8(1).unwrap());
    assert_eq!("Foo", pool.get_class(2).unwrap());
    assert_eq!(Err(ParseError::InvalidConstantPoolIndex), pool.get_utf8(0));
    assert_eq!(Err(ParseError::InvalidConstantPoolIndex), pool.get_utf8(99));
    assert_eq!(Err(ParseError::ConstantKindMismatch), pool.get_utf8(2));
    assert_eq!(Err(ParseError::ConstantKindMismatch), pool.get_class(1));
}

#[test]
fn fieldref_resolution() {
    let pool = sample_pool();
    let f = pool.get_fieldref(6).unwrap();
    assert_eq!("Foo", f.class);
    assert_eq!("bar", f.name);
    assert_eq!(FieldDescriptor::Basic(BasicFieldType::Int), f.descriptor);
    // a non-Fieldref entry is a kind mismatch
    assert_eq!(Err(ParseError::ConstantKindMismatch), pool.get_fieldref(1));
    assert_eq!(
        Err(ParseError::InvalidConstantPoolIndex),
        pool.get_fieldref(0)
    );
}

#[test]
fn methodref_resolution() {
    let pool = sample_pool();
    let payload = MethodrefConstant {
        class_index: 2,
        name_and_type_index: 8,
    };
    let m = pool.get_methodref(payload, false).unwrap();
    assert!(!m.is_interface);
    assert_eq!("Foo", m.class);
    assert_eq!("bar", m.name);
    assert!(m.descriptor.parameters.is_empty());
    assert_eq!(ReturnDescriptor::Void, m.descriptor.return_descriptor);

    let mi = pool.get_methodref(payload, true).unwrap();
    assert!(mi.is_interface);
}

#[test]
fn resolution_is_repeatable() {
    let pool = sample_pool();
    assert_eq!(pool.get_fieldref(6), pool.get_fieldref(6));
    assert_eq!(pool.get_utf8(1), pool.get_utf8(1));
}

#[test]
fn bad_descriptor_text_in_pool() {
    let pool = ConstantPool::new(vec![
        Constant::Utf8("Foo".to_string()),
        Constant::Class(ClassConstant { name_index: 1 }),
        Constant::Utf8("bar".to_string()),
        Constant::Utf8("??".to_string()),
        Constant::NameAndType(NameAndTypeConstant {
            name_index: 3,
            descriptor_index: 4,
        }),
        Constant::Fieldref(FieldrefConstant {
            class_index: 2,
            name_and_type_index: 5,
        }),
    ]);
    assert_eq!(
        Err(ParseError::InvalidDescriptorSyntax),
        pool.get_fieldref(6)
    );
}
