use rvm::descriptor::{parse_signature, parse_type};
use rvm::error::VmError;
use rvm::value::Type;

#[test]
fn signature_of_two_ints_to_int() {
    let s = parse_signature(&"(II)I".to_string()).unwrap();
    assert_eq!(s.return_type, Type::Int);
    assert_eq!(s.arguments, vec![Type::Int, Type::Int]);
}

#[test]
fn signature_of_string_to_void() {
    let s = parse_signature(&"(Ljava/lang/String;)V".to_string()).unwrap();
    assert_eq!(s.return_type, Type::Void);
    assert_eq!(s.arguments, vec![Type::Reference]);
}

#[test]
fn signature_of_int_array_to_void() {
    let s = parse_signature(&"([I)V".to_string()).unwrap();
    assert_eq!(s.return_type, Type::Void);
    assert_eq!(s.arguments, vec![Type::Reference]);
}

#[test]
fn signature_of_mixed_arguments() {
    let s = parse_signature(&"(J[[Ljava/lang/Object;ZB)Ljava/lang/String;".to_string()).unwrap();
    assert_eq!(s.return_type, Type::Reference);
    assert_eq!(s.arguments, vec![Type::Long, Type::Reference, Type::Boolean, Type::Byte]);
}

#[test]
fn signature_without_arguments() {
    let s = parse_signature(&"()V".to_string()).unwrap();
    assert_eq!(s.return_type, Type::Void);
    assert!(s.arguments.is_empty());
}

#[test]
fn signature_with_unknown_letter_is_refused() {
    assert_eq!(parse_signature(&"(Q)V".to_string()), Err(VmError::DescriptorParse));
}

#[test]
fn signature_with_unterminated_class_is_refused() {
    assert_eq!(parse_signature(&"(Ljava/lang/String)V".to_string()), Err(VmError::DescriptorParse));
}

#[test]
fn field_types() {
    assert_eq!(parse_type("I"), Ok(Type::Int));
    assert_eq!(parse_type("J"), Ok(Type::Long));
    assert_eq!(parse_type("Z"), Ok(Type::Boolean));
    assert_eq!(parse_type("C"), Ok(Type::Char));
    assert_eq!(parse_type("V"), Ok(Type::Void));
    assert_eq!(parse_type("Ljava/lang/Object;"), Ok(Type::Reference));
    assert_eq!(parse_type("[I"), Ok(Type::Reference));
    assert_eq!(parse_type("II"), Err(VmError::DescriptorParse));
    assert_eq!(parse_type(""), Err(VmError::DescriptorParse));
}

#[test]
fn array_of_any_element_is_a_reference() {
    let s = parse_signature(&"([V[[J)[Z".to_string()).unwrap();
    assert_eq!(s.return_type, Type::Reference);
    assert_eq!(s.arguments, vec![Type::Reference, Type::Reference]);
}

#[test]
fn malformed_method_descriptors_are_refused() {
    assert_eq!(parse_signature(&"II)I".to_string()), Err(VmError::DescriptorParse));
    assert_eq!(parse_signature(&"(II".to_string()), Err(VmError::DescriptorParse));
    assert_eq!(parse_signature(&"(I)".to_string()), Err(VmError::DescriptorParse));
    assert_eq!(parse_signature(&"(I)II".to_string()), Err(VmError::DescriptorParse));
    assert_eq!(parse_signature(&"(I))V".to_string()), Err(VmError::DescriptorParse));
    assert_eq!(parse_signature(&"".to_string()), Err(VmError::DescriptorParse));
}
