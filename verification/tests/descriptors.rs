use jvm::descriptors::FieldType;
use jvm::descriptors::MethodDescriptor;
use jvm::descriptors::ReturnDescriptor;
use jvm::error::Error;
use jvm::error::ErrorKind;

#[test]
fn docs_example() {
    let descriptor = "(IDLjava/lang/Thread;)Ljava/lang/Object;";

    let md = MethodDescriptor::from_str(descriptor).unwrap();
    let expected = MethodDescriptor {
        params: vec![
            FieldType::Int,
            FieldType::Double,
            FieldType::ObjReference("java/lang/Thread".into()),
        ],
        return_value: ReturnDescriptor::FieldType(FieldType::ObjReference(
            "java/lang/Object".into(),
        )),
    };

    assert_eq!(md, expected);
    assert_eq!(md.to_string(), descriptor);
}

#[test]
fn test2() {
    let descriptor = "([[B)V";

    let md = MethodDescriptor::from_str(descriptor).unwrap();
    let expected = MethodDescriptor {
        params: vec![FieldType::ArrReference(Box::new(FieldType::ArrReference(
            Box::new(FieldType::Byte),
        )))],
        return_value: ReturnDescriptor::Void,
    };

    assert_eq!(md, expected);
    assert_eq!(md.to_string(), descriptor);
}

#[test]
fn every_primitive_tag_parses_and_writes_back() {
    let descriptor = "(BCDFIJSZ)I";
    let md = MethodDescriptor::from_str(descriptor).unwrap();
    assert_eq!(
        md.params,
        vec![
            FieldType::Byte,
            FieldType::Char,
            FieldType::Double,
            FieldType::Float,
            FieldType::Int,
            FieldType::Long,
            FieldType::Short,
            FieldType::Boolean,
        ]
    );
    assert_eq!(md.return_value, ReturnDescriptor::FieldType(FieldType::Int));
    assert_eq!(md.to_string(), descriptor);
}

#[test]
fn no_parameters() {
    let md = MethodDescriptor::from_str("()V").unwrap();
    assert_eq!(md.params, vec![]);
    assert_eq!(md.return_value, ReturnDescriptor::Void);
    assert_eq!(md.to_string(), "()V");
}

#[test]
fn round_trip_of_what_was_parsed() {
    for text in ["()V", "([Ljava/lang/String;)V", "(I[J)[[Ljava/util/List;", "(ZZ)Z"] {
        let parsed = MethodDescriptor::from_str(text).unwrap();
        let written = parsed.to_string();
        assert_eq!(written, text);
        assert_eq!(MethodDescriptor::from_str(&written).unwrap(), parsed);
    }
}

#[test]
fn characters_after_the_return_descriptor_are_not_looked_at() {
    let md = MethodDescriptor::from_str("(I)Vtrailing").unwrap();
    assert_eq!(md.params, vec![FieldType::Int]);
    assert_eq!(md.return_value, ReturnDescriptor::Void);
    assert_eq!(md.to_string(), "(I)V");
}

#[test]
fn unknown_tag_is_rejected() {
    assert_eq!(MethodDescriptor::from_str("(Q)V"), Err(Error::InvalidDescriptor));
    assert_eq!(MethodDescriptor::from_str("()Q"), Err(Error::InvalidDescriptor));
    assert_eq!(FieldType::from_str("V"), Err(Error::InvalidDescriptor));
}

#[test]
fn class_name_without_semicolon_is_rejected() {
    assert_eq!(MethodDescriptor::from_str("(Ljava/lang/Thread)V"), Err(Error::InvalidDescriptor));
    assert_eq!(FieldType::from_str("Ljava/lang/Thread"), Err(Error::InvalidDescriptor));
}

#[test]
fn missing_parentheses_are_rejected() {
    assert_eq!(MethodDescriptor::from_str("I)V"), Err(Error::InvalidDescriptor));
    assert_eq!(MethodDescriptor::from_str("(I"), Err(Error::InvalidDescriptor));
    assert_eq!(MethodDescriptor::from_str("(IV"), Err(Error::InvalidDescriptor));
    assert_eq!(MethodDescriptor::from_str("(I)"), Err(Error::InvalidDescriptor));
    assert_eq!(MethodDescriptor::from_str(""), Err(Error::InvalidDescriptor));
    assert_eq!(MethodDescriptor::from_str("("), Err(Error::InvalidDescriptor));
}

#[test]
fn array_without_element_type_is_rejected() {
    assert_eq!(FieldType::from_str("["), Err(Error::InvalidDescriptor));
    assert_eq!(FieldType::from_str(""), Err(Error::InvalidDescriptor));
}

#[test]
fn from_chars_consumes_exactly_one_type() {
    let mut chars = "java/lang/Object;[IZ".chars();
    let first = FieldType::from_chars('L', &mut chars).unwrap();
    assert_eq!(first, FieldType::ObjReference("java/lang/Object".into()));
    assert_eq!(chars.as_str(), "[IZ");
    let id = chars.next().unwrap();
    let second = FieldType::from_chars(id, &mut chars).unwrap();
    assert_eq!(second, FieldType::ArrReference(Box::new(FieldType::Int)));
    assert_eq!(chars.as_str(), "Z");
    let void = ReturnDescriptor::from_chars('V', &mut chars).unwrap();
    assert_eq!(void, ReturnDescriptor::Void);
    assert_eq!(chars.as_str(), "Z");
}

#[test]
fn field_types_write_their_text() {
    assert_eq!(FieldType::Byte.to_string(), "B");
    assert_eq!(FieldType::ObjReference("a/B".into()).to_string(), "La/B;");
    assert_eq!(
        FieldType::ArrReference(Box::new(FieldType::ObjReference("a/B".into()))).to_string(),
        "[La/B;"
    );
    assert_eq!(ReturnDescriptor::Void.to_string(), "V");
    assert_eq!(ReturnDescriptor::FieldType(FieldType::Long).to_string(), "J");
}

#[test]
fn clone_keeps_the_type() {
    let t = FieldType::ArrReference(Box::new(FieldType::ObjReference("x/Y".into())));
    assert_eq!(t.clone(), t);
}

#[test]
fn descriptor_errors_are_type_errors() {
    assert_eq!(Error::InvalidDescriptor.kind(), ErrorKind::Type);
}
