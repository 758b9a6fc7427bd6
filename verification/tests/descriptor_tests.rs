use classfile::descriptor::encode_field_descriptor;
use classfile::descriptor::encode_method_descriptor;
use classfile::descriptor::parse_field_descriptor;
use classfile::descriptor::parse_field_descriptor_rest;
use classfile::descriptor::parse_method_descriptor;
use classfile::descriptor::BasicFieldType::Boolean;
use classfile::descriptor::BasicFieldType::Byte;
use classfile::descriptor::BasicFieldType::Char;
use classfile::descriptor::BasicFieldType::ClassInstance;
use classfile::descriptor::BasicFieldType::Double;
use classfile::descriptor::BasicFieldType::Float;
use classfile::descriptor::BasicFieldType::Int;
use classfile::descriptor::BasicFieldType::Long;
use classfile::descriptor::BasicFieldType::Short;
use classfile::descriptor::FieldDescriptor::Arr;
use classfile::descriptor::FieldDescriptor::Basic;
use classfile::descriptor::MethodDescriptor;
use classfile::descriptor::ReturnDescriptor;
use classfile::error::ParseError;

#[test]
fn test_method_descriptor_parsing() {
    assert_eq!(
        MethodDescriptor {
            parameters: vec![
                Basic(Int),
                Basic(Double),
                Basic(ClassInstance("java/lang/Thread".to_string()))
            ],
            return_descriptor: ReturnDescriptor::NonVoid(Basic(ClassInstance(
                "java/lang/Object".to_string()
            )))
        },
        parse_method_descriptor("(IDLjava/lang/Thread;)Ljava/lang/Object;").unwrap()
    );

    assert_eq!(
        MethodDescriptor {
            parameters: Vec::new(),
            return_descriptor: ReturnDescriptor::Void
        },
        parse_method_descriptor("()V").unwrap()
    );

    assert_eq!(
        MethodDescriptor {
            parameters: vec![Basic(Float)],
            return_descriptor: ReturnDescriptor::Void
        },
        parse_method_descriptor("(F)V").unwrap()
    );
}

#[test]
fn test_field_descriptor_parsing() {
    assert_eq!(
        (Basic(Byte), ""),
        parse_field_descriptor_rest("B").unwrap()
    );

    assert_eq!(
        (Basic(ClassInstance("thing/other/FooBar".to_string())), ""),
        parse_field_descriptor_rest("Lthing/other/FooBar;").unwrap()
    );

    assert_eq!(
        (Arr(1, Short), "Z"),
        parse_field_descriptor_rest("[SZ").unwrap()
    );

    assert_eq!(
        (Arr(3, ClassInstance("Something".to_string())), "[BSZLHello;"),
        parse_field_descriptor_rest("[[[LSomething;[BSZLHello;").unwrap()
    );
}

#[test]
fn field_descriptor_single_base_type() {
    assert_eq!(Basic(Byte), parse_field_descriptor("B").unwrap());
}

#[test]
fn field_descriptor_all_base_types() {
    assert_eq!(Basic(Char), parse_field_descriptor("C").unwrap());
    assert_eq!(Basic(Double), parse_field_descriptor("D").unwrap());
    assert_eq!(Basic(Float), parse_field_descriptor("F").unwrap());
    assert_eq!(Basic(Int), parse_field_descriptor("I").unwrap());
    assert_eq!(Basic(Long), parse_field_descriptor("J").unwrap());
    assert_eq!(Basic(Short), parse_field_descriptor("S").unwrap());
    assert_eq!(Basic(Boolean), parse_field_descriptor("Z").unwrap());
}

#[test]
fn field_descriptor_syntax_errors() {
    assert_eq!(
        Err(ParseError::InvalidDescriptorSyntax),
        parse_field_descriptor("X")
    );
    assert_eq!(
        Err(ParseError::InvalidDescriptorSyntax),
        parse_field_descriptor("")
    );
    assert_eq!(
        Err(ParseError::InvalidDescriptorSyntax),
        parse_field_descriptor("LNoSemicolon")
    );
    assert_eq!(
        Err(ParseError::InvalidDescriptorSyntax),
        parse_field_descriptor("[[")
    );
    // 256 leading brackets exceed the 255 dimension cap.
    let mut deep = "[".repeat(256);
    deep.push('I');
    assert_eq!(
        Err(ParseError::InvalidDescriptorSyntax),
        parse_field_descriptor(&deep)
    );
    // exactly 255 brackets are fine
    let mut ok = "[".repeat(255);
    ok.push('I');
    assert_eq!(Arr(255, Int), parse_field_descriptor(&ok).unwrap());
}

#[test]
fn method_descriptor_syntax_errors() {
    assert_eq!(
        Err(ParseError::InvalidDescriptorSyntax),
        parse_method_descriptor("I")
    );
    assert_eq!(
        Err(ParseError::InvalidDescriptorSyntax),
        parse_method_descriptor("(I")
    );
    assert_eq!(
        Err(ParseError::InvalidDescriptorSyntax),
        parse_method_descriptor("()")
    );
    assert_eq!(
        Err(ParseError::InvalidDescriptorSyntax),
        parse_method_descriptor("()X")
    );
}

#[test]
fn field_descriptor_round_trip() {
    for text in ["B", "Lthing/other/FooBar;", "[SZ", "[[[LSomething;[BSZLHello;", "I"] {
        let parsed = parse_field_descriptor(text).unwrap();
        let encoded = encode_field_descriptor(&parsed);
        assert!(text.starts_with(encoded.as_str()));
        assert_eq!(parsed, parse_field_descriptor(encoded.as_str()).unwrap());
    }
}

#[test]
fn method_descriptor_round_trip() {
    for text in ["(IDLjava/lang/Thread;)Ljava/lang/Object;", "()V", "(F)V", "([[I[Ljava/lang/String;)[B"] {
        let parsed = parse_method_descriptor(text).unwrap();
        let encoded = encode_method_descriptor(&parsed);
        assert_eq!(text, encoded.as_str());
        assert_eq!(parsed, parse_method_descriptor(encoded.as_str()).unwrap());
    }
}
