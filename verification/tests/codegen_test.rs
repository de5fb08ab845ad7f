//! Code-generation tests: every IR shape renders the expected TypeScript.

use gear_mesh::config::GeneratorConfig;
use gear_mesh::docs::DocComment;
use gear_mesh::types::{
    EnumRepresentation, EnumType, EnumVariant, FieldInfo, GearMeshType, GenericParam, NewtypeType,
    SerdeFieldAttrs, StructType, TypeAttributes, TypeKind, TypeRef, VariantContent,
};
use gear_mesh::typescript::TypeScriptGenerator;
use gear_mesh::validation::{RangeBound, ValidationRule};

fn assert_contains(output: &str, expected: &str) {
    assert!(
        output.contains(expected),
        "Expected output to contain:\n{}\n\nBut got:\n{}",
        expected,
        output
    );
}

fn assert_not_contains(output: &str, unexpected: &str) {
    assert!(
        !output.contains(unexpected),
        "Expected output NOT to contain:\n{}\n\nBut got:\n{}",
        unexpected,
        output
    );
}

fn field(name: &str, ty: TypeRef) -> FieldInfo {
    FieldInfo {
        name: name.to_string(),
        ty,
        docs: None,
        validations: vec![],
        optional: false,
        serde_attrs: SerdeFieldAttrs::default(),
    }
}

fn struct_type(name: &str, fields: Vec<FieldInfo>) -> GearMeshType {
    GearMeshType {
        name: name.to_string(),
        kind: TypeKind::Struct(StructType { fields }),
        docs: None,
        generics: vec![],
        attributes: TypeAttributes::default(),
    }
}

#[test]
fn test_simple_struct_with_primitives() {
    let ty = struct_type("Point", vec![field("x", TypeRef::new("f64")), field("y", TypeRef::new("f64"))]);

    let config = GeneratorConfig::new().with_jsdoc(false);
    let mut generator = TypeScriptGenerator::new(config);
    let output = generator.generate(&[ty]);

    assert_contains(&output, "export interface Point {");
    assert_contains(&output, "x: number;");
    assert_contains(&output, "y: number;");
    assert_contains(&output, "}");
}

#[test]
fn test_struct_with_string_types() {
    let ty = struct_type(
        "Person",
        vec![field("name", TypeRef::new("String")), field("email", TypeRef::new("String"))],
    );

    let config = GeneratorConfig::new().with_jsdoc(false);
    let mut generator = TypeScriptGenerator::new(config);
    let output = generator.generate(&[ty]);

    assert_contains(&output, "export interface Person {");
    assert_contains(&output, "name: string;");
    assert_contains(&output, "email: string;");
}

#[test]
fn test_struct_with_boolean() {
    let ty = struct_type(
        "Config",
        vec![field("enabled", TypeRef::new("bool")), field("debug", TypeRef::new("bool"))],
    );

    let config = GeneratorConfig::new().with_jsdoc(false);
    let mut generator = TypeScriptGenerator::new(config);
    let output = generator.generate(&[ty]);

    assert_contains(&output, "export interface Config {");
    assert_contains(&output, "enabled: boolean;");
    assert_contains(&output, "debug: boolean;");
}

#[test]
fn test_struct_with_integer_types() {
    let ty = struct_type(
        "Stats",
        vec![
            field("count_i8", TypeRef::new("i8")),
            field("count_i16", TypeRef::new("i16")),
            field("count_i32", TypeRef::new("i32")),
            field("count_u8", TypeRef::new("u8")),
            field("count_u16", TypeRef::new("u16")),
            field("count_u32", TypeRef::new("u32")),
        ],
    );

    let config = GeneratorConfig::new().with_jsdoc(false);
    let mut generator = TypeScriptGenerator::new(config);
    let output = generator.generate(&[ty]);

    assert_contains(&output, "count_i8: number;");
    assert_contains(&output, "count_i16: number;");
    assert_contains(&output, "count_i32: number;");
    assert_contains(&output, "count_u8: number;");
    assert_contains(&output, "count_u16: number;");
    assert_contains(&output, "count_u32: number;");
}

#[test]
fn test_struct_with_bigint_types() {
    let ty = struct_type(
        "BigNumbers",
        vec![
            field("count_i64", TypeRef::new("i64")),
            field("count_u64", TypeRef::new("u64")),
            field("count_i128", TypeRef::new("i128")),
            field("count_u128", TypeRef::new("u128")),
        ],
    );

    let config = GeneratorConfig::new().with_bigint(true).with_jsdoc(false);
    let mut generator = TypeScriptGenerator::new(config);
    let output = generator.generate(std::slice::from_ref(&ty));

    assert_contains(&output, "count_i64: bigint;");
    assert_contains(&output, "count_u64: bigint;");
    assert_contains(&output, "count_i128: bigint;");
    assert_contains(&output, "count_u128: bigint;");

    let config = GeneratorConfig::new().with_bigint(false).with_jsdoc(false);
    let mut generator = TypeScriptGenerator::new(config);
    let output = generator.generate(&[ty]);

    assert_contains(&output, "count_i64: number;");
    assert_contains(&output, "count_u64: number;");
    assert_contains(&output, "count_i128: number;");
    assert_contains(&output, "count_u128: number;");
}

#[test]
fn codegen_test_test_branded_type_generation() {
    let ty = GearMeshType {
        name: "UserId".to_string(),
        kind: TypeKind::Newtype(NewtypeType {
            inner: TypeRef::new("i32"),
        }),
        docs: None,
        generics: vec![],
        attributes: TypeAttributes {
            branded: true,
            ..Default::default()
        },
    };

    let config = GeneratorConfig::new().with_branded(true).with_jsdoc(false);
    let mut generator = TypeScriptGenerator::new(config);
    let output = generator.generate(&[ty]);

    assert_contains(&output, "type Brand<T, B> = T & { readonly __brand: B };");
    assert_contains(&output, "export type UserId = Brand<number, \"UserId\">;");
    assert_contains(
        &output,
        "export const UserId = (value: number): UserId => value as UserId;",
    );
}

#[test]
fn test_multiple_branded_types() {
    let user_id = GearMeshType {
        name: "UserId".to_string(),
        kind: TypeKind::Newtype(NewtypeType {
            inner: TypeRef::new("i32"),
        }),
        docs: None,
        generics: vec![],
        attributes: TypeAttributes {
            branded: true,
            ..Default::default()
        },
    };

    let product_id = GearMeshType {
        name: "ProductId".to_string(),
        kind: TypeKind::Newtype(NewtypeType {
            inner: TypeRef::new("i32"),
        }),
        docs: None,
        generics: vec![],
        attributes: TypeAttributes {
            branded: true,
            ..Default::default()
        },
    };

    let config = GeneratorConfig::new().with_branded(true).with_jsdoc(false);
    let mut generator = TypeScriptGenerator::new(config);
    let output = generator.generate(&[user_id, product_id]);

    let brand_count = output.matches("type Brand<T, B>").count();
    assert_eq!(brand_count, 1, "Brand helper should appear only once");

    assert_contains(&output, "export type UserId = Brand<number, \"UserId\">;");
    assert_contains(&output, "export type ProductId = Brand<number, \"ProductId\">;");
}

#[test]
fn codegen_test_test_optional_fields() {
    let ty = struct_type(
        "User",
        vec![
            field("id", TypeRef::new("i32")),
            FieldInfo {
                optional: true,
                ..field("email", TypeRef::with_generics("Option", vec![TypeRef::new("String")]))
            },
            FieldInfo {
                optional: true,
                ..field("age", TypeRef::with_generics("Option", vec![TypeRef::new("u8")]))
            },
        ],
    );

    let config = GeneratorConfig::new().with_jsdoc(false);
    let mut generator = TypeScriptGenerator::new(config);
    let output = generator.generate(&[ty]);

    assert_contains(&output, "id: number;");
    assert_contains(&output, "email?: string | null;");
    assert_contains(&output, "age?: number | null;");
}

#[test]
fn test_vec_array_generation() {
    let ty = struct_type(
        "UserList",
        vec![
            field("users", TypeRef::with_generics("Vec", vec![TypeRef::new("User")])),
            field("tags", TypeRef::with_generics("Vec", vec![TypeRef::new("String")])),
        ],
    );

    let config = GeneratorConfig::new().with_jsdoc(false);
    let mut generator = TypeScriptGenerator::new(config);
    let output = generator.generate(&[ty]);

    assert_contains(&output, "users: User[];");
    assert_contains(&output, "tags: string[];");
}

#[test]
fn codegen_test_test_hashmap_generation() {
    let ty = struct_type(
        "UserMap",
        vec![
            field(
                "users_by_id",
                TypeRef::with_generics("HashMap", vec![TypeRef::new("String"), TypeRef::new("User")]),
            ),
            field(
                "scores",
                TypeRef::with_generics("HashMap", vec![TypeRef::new("String"), TypeRef::new("i32")]),
            ),
        ],
    );

    let config = GeneratorConfig::new().with_jsdoc(false);
    let mut generator = TypeScriptGenerator::new(config);
    let output = generator.generate(&[ty]);

    assert_contains(&output, "users_by_id: Record<string, User>;");
    assert_contains(&output, "scores: Record<string, number>;");
}

#[test]
fn test_simple_enum_generation() {
    let ty = GearMeshType {
        name: "Status".to_string(),
        kind: TypeKind::Enum(EnumType {
            variants: vec![
                EnumVariant {
                    name: "Active".to_string(),
                    content: VariantContent::Unit,
                    docs: None,
                },
                EnumVariant {
                    name: "Inactive".to_string(),
                    content: VariantContent::Unit,
                    docs: None,
                },
                EnumVariant {
                    name: "Pending".to_string(),
                    content: VariantContent::Unit,
                    docs: None,
                },
            ],
            representation: EnumRepresentation::External,
        }),
        docs: None,
        generics: vec![],
        attributes: TypeAttributes::default(),
    };

    let config = GeneratorConfig::new().with_jsdoc(false);
    let mut generator = TypeScriptGenerator::new(config);
    let output = generator.generate(&[ty]);

    assert_contains(&output, "export type Status =");
    assert_contains(&output, "\"Active\"");
    assert_contains(&output, "\"Inactive\"");
    assert_contains(&output, "\"Pending\"");
}

#[test]
fn test_jsdoc_generation() {
    let ty = GearMeshType {
        name: "User".to_string(),
        kind: TypeKind::Struct(StructType {
            fields: vec![
                FieldInfo {
                    docs: Some(DocComment::summary("User's unique identifier")),
                    ..field("id", TypeRef::new("i32"))
                },
                FieldInfo {
                    docs: Some(DocComment::summary("User's display name")),
                    ..field("name", TypeRef::new("String"))
                },
            ],
        }),
        docs: Some(DocComment::summary("User information")),
        generics: vec![],
        attributes: TypeAttributes::default(),
    };

    let config = GeneratorConfig::new().with_jsdoc(true);
    let mut generator = TypeScriptGenerator::new(config);
    let output = generator.generate(&[ty]);

    assert_contains(&output, "/**");
    assert_contains(&output, " * User information");
    assert_contains(&output, " */");

    assert_contains(&output, "/** User's unique identifier */");
    assert_contains(&output, "/** User's display name */");
}

#[test]
fn test_jsdoc_disabled() {
    let ty = GearMeshType {
        name: "User".to_string(),
        kind: TypeKind::Struct(StructType {
            fields: vec![FieldInfo {
                docs: Some(DocComment::summary("User ID")),
                ..field("id", TypeRef::new("i32"))
            }],
        }),
        docs: Some(DocComment::summary("User information")),
        generics: vec![],
        attributes: TypeAttributes::default(),
    };

    let config = GeneratorConfig::new().with_jsdoc(false);
    let mut generator = TypeScriptGenerator::new(config);
    let output = generator.generate(&[ty]);

    assert_not_contains(&output, "/**");
    assert_not_contains(&output, "User information");
    assert_not_contains(&output, "User ID");
}

#[test]
fn test_nested_types() {
    let ty = struct_type(
        "Response",
        vec![
            FieldInfo {
                optional: true,
                ..field(
                    "data",
                    TypeRef::with_generics(
                        "Option",
                        vec![TypeRef::with_generics("Vec", vec![TypeRef::new("User")])],
                    ),
                )
            },
            field(
                "metadata",
                TypeRef::with_generics(
                    "HashMap",
                    vec![TypeRef::new("String"), TypeRef::new("String")],
                ),
            ),
        ],
    );

    let config = GeneratorConfig::new().with_jsdoc(false);
    let mut generator = TypeScriptGenerator::new(config);
    let output = generator.generate(&[ty]);

    assert_contains(&output, "data?: User[] | null;");
    assert_contains(&output, "metadata: Record<string, string>;");
}

#[test]
fn test_complex_real_world_example() {
    let user_id = GearMeshType {
        name: "UserId".to_string(),
        kind: TypeKind::Newtype(NewtypeType {
            inner: TypeRef::new("i32"),
        }),
        docs: Some(DocComment::summary("Unique user identifier")),
        generics: vec![],
        attributes: TypeAttributes {
            branded: true,
            ..Default::default()
        },
    };

    let user = GearMeshType {
        name: "User".to_string(),
        kind: TypeKind::Struct(StructType {
            fields: vec![
                FieldInfo {
                    docs: Some(DocComment::summary("User ID")),
                    ..field("id", TypeRef::new("UserId"))
                },
                FieldInfo {
                    docs: Some(DocComment::summary("Full name")),
                    ..field("name", TypeRef::new("String"))
                },
                FieldInfo {
                    docs: Some(DocComment::summary("Email address")),
                    ..field("email", TypeRef::new("String"))
                },
                FieldInfo {
                    docs: Some(DocComment::summary("Age (optional)")),
                    optional: true,
                    ..field("age", TypeRef::with_generics("Option", vec![TypeRef::new("u8")]))
                },
                FieldInfo {
                    docs: Some(DocComment::summary("User tags")),
                    ..field("tags", TypeRef::with_generics("Vec", vec![TypeRef::new("String")]))
                },
            ],
        }),
        docs: Some(DocComment::summary("User information")),
        generics: vec![],
        attributes: TypeAttributes::default(),
    };

    let config = GeneratorConfig::new()
        .with_branded(true)
        .with_jsdoc(true)
        .with_bigint(false);
    let mut generator = TypeScriptGenerator::new(config);
    let output = generator.generate(&[user_id, user]);

    assert_contains(&output, "type Brand<T, B>");
    assert_contains(&output, "export type UserId = Brand<number, \"UserId\">;");
    assert_contains(
        &output,
        "export const UserId = (value: number): UserId => value as UserId;",
    );

    assert_contains(&output, "export interface User {");
    assert_contains(&output, "id: UserId;");
    assert_contains(&output, "name: string;");
    assert_contains(&output, "email: string;");
    assert_contains(&output, "age?: number | null;");
    assert_contains(&output, "tags: string[];");

    assert_contains(&output, "/**");
    assert_contains(&output, " * Unique user identifier");
    assert_contains(&output, " */");
    assert_contains(&output, " * User information");
    assert_contains(&output, "/** User ID */");
    assert_contains(&output, "/** Full name */");
    assert_contains(&output, "/** Email address */");
    assert_contains(&output, "/** Age (optional) */");
    assert_contains(&output, "/** User tags */");
}

#[test]
fn test_tuple_2_elements() {
    let ty = struct_type(
        "Point",
        vec![field(
            "coords",
            TypeRef::with_generics("__tuple__", vec![TypeRef::new("f64"), TypeRef::new("f64")]),
        )],
    );

    let config = GeneratorConfig::new().with_jsdoc(false);
    let mut generator = TypeScriptGenerator::new(config);
    let output = generator.generate(&[ty]);

    assert_contains(&output, "export interface Point {");
    assert_contains(&output, "coords: [number, number];");
}

#[test]
fn test_tuple_3_elements() {
    let ty = struct_type(
        "Triple",
        vec![field(
            "value",
            TypeRef::with_generics(
                "__tuple__",
                vec![TypeRef::new("i32"), TypeRef::new("String"), TypeRef::new("bool")],
            ),
        )],
    );

    let config = GeneratorConfig::new().with_jsdoc(false);
    let mut generator = TypeScriptGenerator::new(config);
    let output = generator.generate(&[ty]);

    assert_contains(&output, "export interface Triple {");
    assert_contains(&output, "value: [number, string, boolean];");
}

#[test]
fn test_nested_tuple() {
    let ty = struct_type(
        "NestedTuple",
        vec![field(
            "data",
            TypeRef::with_generics(
                "__tuple__",
                vec![
                    TypeRef::with_generics(
                        "__tuple__",
                        vec![TypeRef::new("i32"), TypeRef::new("String")],
                    ),
                    TypeRef::new("bool"),
                ],
            ),
        )],
    );

    let config = GeneratorConfig::new().with_jsdoc(false);
    let mut generator = TypeScriptGenerator::new(config);
    let output = generator.generate(&[ty]);

    assert_contains(&output, "export interface NestedTuple {");
    assert_contains(&output, "data: [[number, string], boolean];");
}

#[test]
fn test_enum_with_tuple_variant() {
    let ty = GearMeshType {
        name: "Result".to_string(),
        kind: TypeKind::Enum(EnumType {
            variants: vec![
                EnumVariant {
                    name: "Ok".to_string(),
                    content: VariantContent::Tuple(vec![TypeRef::new("String")]),
                    docs: None,
                },
                EnumVariant {
                    name: "Err".to_string(),
                    content: VariantContent::Tuple(vec![TypeRef::new("String")]),
                    docs: None,
                },
            ],
            representation: EnumRepresentation::External,
        }),
        docs: None,
        generics: vec![],
        attributes: TypeAttributes::default(),
    };

    let config = GeneratorConfig::new().with_jsdoc(false);
    let mut generator = TypeScriptGenerator::new(config);
    let output = generator.generate(&[ty]);

    assert_contains(&output, "export type Result =");
    assert_contains(&output, "{ \"Ok\": string }");
    assert_contains(&output, "{ \"Err\": string }");
}

#[test]
fn test_enum_with_struct_variant() {
    let ty = GearMeshType {
        name: "Message".to_string(),
        kind: TypeKind::Enum(EnumType {
            variants: vec![
                EnumVariant {
                    name: "Text".to_string(),
                    content: VariantContent::Struct(vec![field("content", TypeRef::new("String"))]),
                    docs: None,
                },
                EnumVariant {
                    name: "Image".to_string(),
                    content: VariantContent::Struct(vec![field("url", TypeRef::new("String"))]),
                    docs: None,
                },
            ],
            representation: EnumRepresentation::External,
        }),
        docs: None,
        generics: vec![],
        attributes: TypeAttributes::default(),
    };

    let config = GeneratorConfig::new().with_jsdoc(false);
    let mut generator = TypeScriptGenerator::new(config);
    let output = generator.generate(&[ty]);

    assert_contains(&output, "export type Message =");
    assert_contains(&output, "{ \"Text\": { content: string } }");
    assert_contains(&output, "{ \"Image\": { url: string } }");
}

#[test]
fn test_enum_mixed_variants() {
    let ty = GearMeshType {
        name: "Event".to_string(),
        kind: TypeKind::Enum(EnumType {
            variants: vec![
                EnumVariant {
                    name: "Click".to_string(),
                    content: VariantContent::Unit,
                    docs: None,
                },
                EnumVariant {
                    name: "KeyPress".to_string(),
                    content: VariantContent::Tuple(vec![TypeRef::new("String")]),
                    docs: None,
                },
                EnumVariant {
                    name: "Mouse".to_string(),
                    content: VariantContent::Struct(vec![
                        field("x", TypeRef::new("i32")),
                        field("y", TypeRef::new("i32")),
                    ]),
                    docs: None,
                },
            ],
            representation: EnumRepresentation::External,
        }),
        docs: None,
        generics: vec![],
        attributes: TypeAttributes::default(),
    };

    let config = GeneratorConfig::new().with_jsdoc(false);
    let mut generator = TypeScriptGenerator::new(config);
    let output = generator.generate(&[ty]);

    assert_contains(&output, "export type Event =");
    assert_contains(&output, "\"Click\"");
    assert_contains(&output, "{ \"KeyPress\": string }");
    assert_contains(&output, "{ \"Mouse\": { x: number; y: number } }");
}

#[test]
fn test_enum_internal_tagged() {
    let ty = GearMeshType {
        name: "Action".to_string(),
        kind: TypeKind::Enum(EnumType {
            variants: vec![
                EnumVariant {
                    name: "Create".to_string(),
                    content: VariantContent::Struct(vec![field("name", TypeRef::new("String"))]),
                    docs: None,
                },
                EnumVariant {
                    name: "Delete".to_string(),
                    content: VariantContent::Struct(vec![field("id", TypeRef::new("i32"))]),
                    docs: None,
                },
            ],
            representation: EnumRepresentation::Internal {
                tag: "type".to_string(),
            },
        }),
        docs: None,
        generics: vec![],
        attributes: TypeAttributes::default(),
    };

    let config = GeneratorConfig::new().with_jsdoc(false);
    let mut generator = TypeScriptGenerator::new(config);
    let output = generator.generate(&[ty]);

    assert_contains(&output, "export type Action =");
    assert_contains(&output, "{ type: \"Create\"; name: string }");
    assert_contains(&output, "{ type: \"Delete\"; id: number }");
}

#[test]
fn test_generic_single_param() {
    let ty = GearMeshType {
        name: "Container".to_string(),
        kind: TypeKind::Struct(StructType {
            fields: vec![field("value", TypeRef::new("T"))],
        }),
        docs: None,
        generics: vec![GenericParam {
            name: "T".to_string(),
            bounds: vec![],
        }],
        attributes: TypeAttributes::default(),
    };

    let config = GeneratorConfig::new().with_jsdoc(false);
    let mut generator = TypeScriptGenerator::new(config);
    let output = generator.generate(&[ty]);

    assert_contains(&output, "export interface Container<T> {");
    assert_contains(&output, "value: T;");
}

#[test]
fn test_generic_multiple_params() {
    let ty = GearMeshType {
        name: "Pair".to_string(),
        kind: TypeKind::Struct(StructType {
            fields: vec![field("first", TypeRef::new("T")), field("second", TypeRef::new("U"))],
        }),
        docs: None,
        generics: vec![
            GenericParam {
                name: "T".to_string(),
                bounds: vec![],
            },
            GenericParam {
                name: "U".to_string(),
                bounds: vec![],
            },
        ],
        attributes: TypeAttributes::default(),
    };

    let config = GeneratorConfig::new().with_jsdoc(false);
    let mut generator = TypeScriptGenerator::new(config);
    let output = generator.generate(&[ty]);

    assert_contains(&output, "export interface Pair<T, U> {");
    assert_contains(&output, "first: T;");
    assert_contains(&output, "second: U;");
}

#[test]
fn test_generic_with_constraints() {
    // bound hints are advisory only; the parameter list carries the names
    let ty = GearMeshType {
        name: "Wrapper".to_string(),
        kind: TypeKind::Struct(StructType {
            fields: vec![field("data", TypeRef::new("T"))],
        }),
        docs: None,
        generics: vec![GenericParam {
            name: "T".to_string(),
            bounds: vec!["Clone".to_string(), "Debug".to_string()],
        }],
        attributes: TypeAttributes::default(),
    };

    let config = GeneratorConfig::new().with_jsdoc(false);
    let mut generator = TypeScriptGenerator::new(config);
    let output = generator.generate(&[ty]);

    assert_contains(&output, "export interface Wrapper<T> {");
    assert_contains(&output, "data: T;");
}

#[test]
fn test_validation_range() {
    let ty = GearMeshType {
        name: "User".to_string(),
        kind: TypeKind::Struct(StructType {
            fields: vec![FieldInfo {
                validations: vec![ValidationRule::Range {
                    min: Some(RangeBound::integer(0)),
                    max: Some(RangeBound::integer(150)),
                }],
                ..field("age", TypeRef::new("i32"))
            }],
        }),
        docs: None,
        generics: vec![],
        attributes: TypeAttributes {
            validate: true,
            ..Default::default()
        },
    };

    let config = GeneratorConfig::new().with_validation(true).with_jsdoc(false);
    let mut generator = TypeScriptGenerator::new(config);
    let output = generator.generate(&[ty]);

    assert_contains(&output, "export function validateUser");
    assert_contains(&output, "obj.age >= 0");
    assert_contains(&output, "obj.age <= 150");
}

#[test]
fn test_validation_length() {
    let ty = GearMeshType {
        name: "User".to_string(),
        kind: TypeKind::Struct(StructType {
            fields: vec![FieldInfo {
                validations: vec![ValidationRule::Length {
                    min: Some(3),
                    max: Some(50),
                }],
                ..field("name", TypeRef::new("String"))
            }],
        }),
        docs: None,
        generics: vec![],
        attributes: TypeAttributes {
            validate: true,
            ..Default::default()
        },
    };

    let config = GeneratorConfig::new().with_validation(true).with_jsdoc(false);
    let mut generator = TypeScriptGenerator::new(config);
    let output = generator.generate(&[ty]);

    assert_contains(&output, "export function validateUser");
    assert_contains(&output, "obj.name.length >= 3");
    assert_contains(&output, "obj.name.length <= 50");
}

#[test]
fn test_validation_email() {
    let ty = GearMeshType {
        name: "User".to_string(),
        kind: TypeKind::Struct(StructType {
            fields: vec![FieldInfo {
                validations: vec![ValidationRule::Email],
                ..field("email", TypeRef::new("String"))
            }],
        }),
        docs: None,
        generics: vec![],
        attributes: TypeAttributes {
            validate: true,
            ..Default::default()
        },
    };

    let config = GeneratorConfig::new().with_validation(true).with_jsdoc(false);
    let mut generator = TypeScriptGenerator::new(config);
    let output = generator.generate(&[ty]);

    assert_contains(&output, "export function validateUser");
    assert_contains(&output, ".test(obj.email)");
    assert_contains(&output, "@");
}

#[test]
fn test_validation_url() {
    let ty = GearMeshType {
        name: "Link".to_string(),
        kind: TypeKind::Struct(StructType {
            fields: vec![FieldInfo {
                validations: vec![ValidationRule::Url],
                ..field("url", TypeRef::new("String"))
            }],
        }),
        docs: None,
        generics: vec![],
        attributes: TypeAttributes {
            validate: true,
            ..Default::default()
        },
    };

    let config = GeneratorConfig::new().with_validation(true).with_jsdoc(false);
    let mut generator = TypeScriptGenerator::new(config);
    let output = generator.generate(&[ty]);

    assert_contains(&output, "export function validateLink");
    assert_contains(&output, ".test(obj.url)");
    assert_contains(&output, "https?");
}

#[test]
fn test_validation_pattern() {
    let ty = GearMeshType {
        name: "Phone".to_string(),
        kind: TypeKind::Struct(StructType {
            fields: vec![FieldInfo {
                validations: vec![ValidationRule::Pattern(r"^\d{3}-\d{4}$".to_string())],
                ..field("number", TypeRef::new("String"))
            }],
        }),
        docs: None,
        generics: vec![],
        attributes: TypeAttributes {
            validate: true,
            ..Default::default()
        },
    };

    let config = GeneratorConfig::new().with_validation(true).with_jsdoc(false);
    let mut generator = TypeScriptGenerator::new(config);
    let output = generator.generate(&[ty]);

    assert_contains(&output, "export function validatePhone");
    assert_contains(&output, r"^\d{3}-\d{4}$");
    assert_contains(&output, ".test(obj.number)");
}

#[test]
fn test_validation_optional_field_wrapped() {
    // an absent optional field skips validation instead of failing it
    let ty = GearMeshType {
        name: "User".to_string(),
        kind: TypeKind::Struct(StructType {
            fields: vec![FieldInfo {
                optional: true,
                validations: vec![ValidationRule::Length {
                    min: Some(1),
                    max: None,
                }],
                ..field("nick", TypeRef::new("String"))
            }],
        }),
        docs: None,
        generics: vec![],
        attributes: TypeAttributes {
            validate: true,
            ..Default::default()
        },
    };

    let config = GeneratorConfig::new().with_validation(true).with_jsdoc(false);
    let mut generator = TypeScriptGenerator::new(config);
    let output = generator.generate(&[ty]);

    assert_contains(&output, "if (obj.nick !== undefined && obj.nick !== null) {");
    assert_contains(&output, "obj.nick.length >= 1");
}

#[test]
fn test_zod_basic_schema() {
    let ty = struct_type(
        "User",
        vec![field("id", TypeRef::new("i32")), field("name", TypeRef::new("String"))],
    );

    let config = GeneratorConfig::new().with_zod(true).with_jsdoc(false);
    let mut generator = TypeScriptGenerator::new(config);
    let output = generator.generate(&[ty]);

    assert_contains(&output, "export const UserSchema = z.object({");
    assert_contains(&output, "id: z.number()");
    assert_contains(&output, "name: z.string()");
}

#[test]
fn test_zod_with_validation() {
    let ty = struct_type(
        "User",
        vec![
            FieldInfo {
                validations: vec![ValidationRule::Range {
                    min: Some(RangeBound::integer(0)),
                    max: Some(RangeBound::integer(150)),
                }],
                ..field("age", TypeRef::new("i32"))
            },
            FieldInfo {
                validations: vec![ValidationRule::Email],
                ..field("email", TypeRef::new("String"))
            },
        ],
    );

    let config = GeneratorConfig::new().with_zod(true).with_jsdoc(false);
    let mut generator = TypeScriptGenerator::new(config);
    let output = generator.generate(&[ty]);

    assert_contains(&output, "export const UserSchema = z.object({");
    assert_contains(&output, "age: z.number().min(0).max(150)");
    assert_contains(&output, "email: z.string().email()");
}

#[test]
fn test_zod_optional_fields() {
    let ty = struct_type(
        "User",
        vec![
            field("id", TypeRef::new("i32")),
            FieldInfo {
                optional: true,
                ..field("email", TypeRef::with_generics("Option", vec![TypeRef::new("String")]))
            },
        ],
    );

    let config = GeneratorConfig::new().with_zod(true).with_jsdoc(false);
    let mut generator = TypeScriptGenerator::new(config);
    let output = generator.generate(&[ty]);

    assert_contains(&output, "export const UserSchema = z.object({");
    assert_contains(&output, "id: z.number()");
    assert_contains(&output, "email: z.string().nullable()");
}

#[test]
fn test_zod_rules_before_nullable() {
    // the ordering invariant: the constraint chain precedes .nullable()
    let ty = struct_type(
        "User",
        vec![FieldInfo {
            optional: true,
            validations: vec![ValidationRule::Length {
                min: Some(1),
                max: Some(20),
            }],
            ..field("nick", TypeRef::with_generics("Option", vec![TypeRef::new("String")]))
        }],
    );

    let config = GeneratorConfig::new().with_zod(true).with_jsdoc(false);
    let mut generator = TypeScriptGenerator::new(config);
    let output = generator.generate(&[ty]);

    assert_contains(&output, "nick: z.string().min(1).max(20).nullable()");
    assert_not_contains(&output, ".nullable().min(");
}

#[test]
fn test_serde_rename_field() {
    let ty = struct_type(
        "User",
        vec![
            FieldInfo {
                serde_attrs: SerdeFieldAttrs {
                    rename: Some("userId".to_string()),
                    ..Default::default()
                },
                ..field("user_id", TypeRef::new("i32"))
            },
            FieldInfo {
                serde_attrs: SerdeFieldAttrs {
                    rename: Some("userName".to_string()),
                    ..Default::default()
                },
                ..field("user_name", TypeRef::new("String"))
            },
        ],
    );

    let config = GeneratorConfig::new().with_jsdoc(false);
    let mut generator = TypeScriptGenerator::new(config);
    let output = generator.generate(&[ty]);

    assert_contains(&output, "export interface User {");
    assert_contains(&output, "userId: number;");
    assert_contains(&output, "userName: string;");
    assert_not_contains(&output, "user_id");
    assert_not_contains(&output, "user_name");
}

#[test]
fn test_serde_rename_mixed() {
    let ty = struct_type(
        "Config",
        vec![
            FieldInfo {
                serde_attrs: SerdeFieldAttrs {
                    rename: Some("apiKey".to_string()),
                    ..Default::default()
                },
                ..field("api_key", TypeRef::new("String"))
            },
            field("timeout", TypeRef::new("i32")),
        ],
    );

    let config = GeneratorConfig::new().with_jsdoc(false);
    let mut generator = TypeScriptGenerator::new(config);
    let output = generator.generate(&[ty]);

    assert_contains(&output, "apiKey: string;");
    assert_contains(&output, "timeout: number;");
}

#[test]
fn test_serde_rename_with_optional() {
    let ty = struct_type(
        "User",
        vec![FieldInfo {
            optional: true,
            serde_attrs: SerdeFieldAttrs {
                rename: Some("emailAddress".to_string()),
                ..Default::default()
            },
            ..field(
                "email_address",
                TypeRef::with_generics("Option", vec![TypeRef::new("String")]),
            )
        }],
    );

    let config = GeneratorConfig::new().with_jsdoc(false);
    let mut generator = TypeScriptGenerator::new(config);
    let output = generator.generate(&[ty]);

    assert_contains(&output, "emailAddress?: string | null;");
}
