//! Tests for the IR model and the name transformer.

use gear_mesh::types::{PrimitiveType, RenameRule, TypeAttributes, TypeRef};

#[test]
fn test_rename_rules() {
    assert_eq!(RenameRule::CamelCase.apply("user_name"), "userName");
    assert_eq!(RenameRule::SnakeCase.apply("userName"), "user_name");
    assert_eq!(RenameRule::PascalCase.apply("user_name"), "UserName");
    assert_eq!(RenameRule::KebabCase.apply("userName"), "user-name");
    assert_eq!(RenameRule::ScreamingSnakeCase.apply("userName"), "USER_NAME");
    assert_eq!(RenameRule::Lowercase.apply("UserName"), "username");
    assert_eq!(RenameRule::Uppercase.apply("userName"), "USERNAME");
}

#[test]
fn test_rename_rules_more() {
    assert_eq!(RenameRule::ScreamingKebabCase.apply("userName"), "USER-NAME");
    // a run of uppercase letters is not collapsed
    assert_eq!(RenameRule::SnakeCase.apply("HTTPServer"), "h_t_t_p_server");
    // an underscore capitalizes the following letter, even at the start
    assert_eq!(RenameRule::CamelCase.apply("_foo"), "Foo");
    assert_eq!(RenameRule::PascalCase.apply(""), "");
}

#[test]
fn test_primitive_bigint() {
    assert!(PrimitiveType::U64.is_bigint());
    assert!(PrimitiveType::I64.is_bigint());
    assert!(PrimitiveType::U128.is_bigint());
    assert!(PrimitiveType::I128.is_bigint());
    assert!(!PrimitiveType::I32.is_bigint());
    assert!(!PrimitiveType::U32.is_bigint());
}

#[test]
fn test_primitive_typescript_type() {
    assert_eq!(PrimitiveType::I32.typescript_type(false), "number");
    assert_eq!(PrimitiveType::U64.typescript_type(true), "bigint");
    assert_eq!(PrimitiveType::U64.typescript_type(false), "number");
    assert_eq!(PrimitiveType::Bool.typescript_type(false), "boolean");
    assert_eq!(PrimitiveType::String.typescript_type(false), "string");
    assert_eq!(PrimitiveType::Unit.typescript_type(false), "null");
}

#[test]
fn test_type_ref_creation() {
    let type_ref = TypeRef::new("String");
    assert_eq!(type_ref.name, "String");
    assert!(type_ref.generics.is_empty());

    let generic_ref = TypeRef::with_generics("Vec", vec![TypeRef::new("i32")]);
    assert_eq!(generic_ref.name, "Vec");
    assert_eq!(generic_ref.generics.len(), 1);
    assert_eq!(generic_ref.generics[0].name, "i32");
}

#[test]
fn test_type_attributes_default() {
    let attrs = TypeAttributes::default();
    assert!(!attrs.branded);
    assert!(!attrs.validate);
    assert!(!attrs.bigint_auto);
}
