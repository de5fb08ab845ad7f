//! Branded nominal types: a newtype becomes a branded alias, a cast
//! constructor and a runtime type guard.

use vstd::prelude::*;

use crate::config::GeneratorConfig;
use crate::text::str_eq;
use crate::types::{GearMeshType, TypeKind};
use crate::typescript::{spec_is_narrow_name, spec_is_wide_name};

verus! {

/// The `typeof` result used to check a value of a lowered type at runtime:
/// `number`, `string` or `boolean` for the matching scalars, `object` for
/// everything else.
pub open spec fn spec_typeof(ts_type: Seq<char>) -> Seq<char> {
    if ts_type == "number"@ || ts_type == "bigint"@ {
        "number"@
    } else if ts_type == "string"@ {
        "string"@
    } else if ts_type == "boolean"@ {
        "boolean"@
    } else {
        "object"@
    }
}

/// The runtime `typeof` check kind for a lowered type.
pub(crate) fn typescript_typeof(ts_type: &str) -> (r: &'static str)
    ensures
        r@ == spec_typeof(ts_type@),
{
    if str_eq(ts_type, "number") || str_eq(ts_type, "bigint") {
        "number"
    } else if str_eq(ts_type, "string") {
        "string"
    } else if str_eq(ts_type, "boolean") {
        "boolean"
    } else {
        "object"
    }
}

/// The standalone branded-type helper block.
pub open spec fn spec_brand_helpers() -> Seq<char> {
    "// Branded Type utilities\ntype Brand<T, B> = T & { readonly __brand: B };\n\n// Type guard helper\nexport function isBranded<T, B extends string>(\n    value: unknown,\n    brand: B,\n    typeCheck: (v: unknown) => v is T\n): value is Brand<T, B> {\n    return typeCheck(value);\n}\n"@
}

/// The branded declaration block for one newtype: nominal alias, cast
/// constructor and `is<Name>` type guard.
pub open spec fn spec_branded_block(name: Seq<char>, inner: Seq<char>) -> Seq<char> {
    "export type "@ + name + " = Brand<"@ + inner + ", \""@ + name + "\">;\n\nexport const "@
        + name + " = (value: "@ + inner + "): "@ + name + " => value as "@ + name
        + ";\n\nexport function is"@ + name + "(value: unknown): value is "@ + name
        + " {\n    return typeof value === '"@ + spec_typeof(inner) + "';\n}\n"@
}

/// The base Zod schema for a newtype's inner type name.
pub open spec fn spec_branded_zod_base(inner_name: Seq<char>, use_bigint: bool) -> Seq<char> {
    if spec_is_narrow_name(inner_name) {
        "z.number()"@
    } else if spec_is_wide_name(inner_name) {
        if use_bigint {
            "z.bigint()"@
        } else {
            "z.number()"@
        }
    } else if inner_name == "String"@ || inner_name == "str"@ {
        "z.string()"@
    } else if inner_name == "bool"@ {
        "z.boolean()"@
    } else {
        "z.unknown()"@
    }
}

/// The branded Zod schema line for one newtype.
pub open spec fn spec_branded_zod(name: Seq<char>, inner_name: Seq<char>, use_bigint: bool) -> Seq<
    char,
> {
    "export const "@ + name + "Schema = "@ + spec_branded_zod_base(inner_name, use_bigint)
        + ".brand<\""@ + name + "\">();\n"@
}

/// Emits branded-type declarations and schemas.
pub struct BrandedTypeGenerator {
    /// The active configuration.
    pub config: GeneratorConfig,
}

impl BrandedTypeGenerator {
    /// A generator with the given configuration.
    pub fn new(config: GeneratorConfig) -> (r: Self)
        ensures
            r.config == config,
    {
        Self { config }
    }

    /// The standalone helper block: the `Brand` alias and the generic
    /// `isBranded` guard.
    pub fn generate_helpers() -> (r: String)
        ensures
            r@ == spec_brand_helpers(),
    {
        String::from_str(
            "// Branded Type utilities\ntype Brand<T, B> = T & { readonly __brand: B };\n\n// Type guard helper\nexport function isBranded<T, B extends string>(\n    value: unknown,\n    brand: B,\n    typeCheck: (v: unknown) => v is T\n): value is Brand<T, B> {\n    return typeCheck(value);\n}\n",
        )
    }

    /// The branded declaration block for `ty`, whose inner type lowers to
    /// `inner_ts_type`; nothing for a type that is not a branded newtype.
    pub fn generate(ty: &GearMeshType, inner_ts_type: &str) -> (r: Option<String>)
        ensures
            (ty.attributes.branded && ty.kind is Newtype) ==> (r is Some && r->0@
                == spec_branded_block(ty.name@, inner_ts_type@)),
            !(ty.attributes.branded && ty.kind is Newtype) ==> r is None,
    {
        if !ty.attributes.branded {
            return None;
        }
        match &ty.kind {
            TypeKind::Newtype(_) => {
                let mut r = String::from_str("export type ");
                r.append(ty.name.as_str());
                r.append(" = Brand<");
                r.append(inner_ts_type);
                r.append(", \"");
                r.append(ty.name.as_str());
                r.append("\">;\n\nexport const ");
                r.append(ty.name.as_str());
                r.append(" = (value: ");
                r.append(inner_ts_type);
                r.append("): ");
                r.append(ty.name.as_str());
                r.append(" => value as ");
                r.append(ty.name.as_str());
                r.append(";\n\nexport function is");
                r.append(ty.name.as_str());
                r.append("(value: unknown): value is ");
                r.append(ty.name.as_str());
                r.append(" {\n    return typeof value === '");
                r.append(typescript_typeof(inner_ts_type));
                r.append("';\n}\n");
                proof {
                    assert(r@ =~= spec_branded_block(ty.name@, inner_ts_type@));
                }
                Some(r)
            },
            _ => None,
        }
    }

    /// The branded Zod schema for `ty`; nothing for a type that is not a
    /// branded newtype.
    pub fn generate_zod_schema(&self, ty: &GearMeshType) -> (r: Option<String>)
        ensures
            (ty.attributes.branded && ty.kind is Newtype) ==> (r is Some && r->0@
                == spec_branded_zod(
                ty.name@,
                ty.kind->Newtype_0.inner.name@,
                self.config.use_bigint,
            )),
            !(ty.attributes.branded && ty.kind is Newtype) ==> r is None,
    {
        if !ty.attributes.branded {
            return None;
        }
        match &ty.kind {
            TypeKind::Newtype(newtype) => {
                let inner = newtype.inner.name.as_str();
                let base: &'static str = if str_eq(inner, "i8") || str_eq(inner, "i16") || str_eq(
                    inner,
                    "i32",
                ) || str_eq(inner, "u8") || str_eq(inner, "u16") || str_eq(inner, "u32") || str_eq(
                    inner,
                    "f32",
                ) || str_eq(inner, "f64") {
                    "z.number()"
                } else if str_eq(inner, "i64") || str_eq(inner, "i128") || str_eq(inner, "u64")
                    || str_eq(inner, "u128") || str_eq(inner, "isize") || str_eq(inner, "usize") {
                    if self.config.use_bigint {
                        "z.bigint()"
                    } else {
                        "z.number()"
                    }
                } else if str_eq(inner, "String") || str_eq(inner, "str") {
                    "z.string()"
                } else if str_eq(inner, "bool") {
                    "z.boolean()"
                } else {
                    "z.unknown()"
                };
                let mut r = String::from_str("export const ");
                r.append(ty.name.as_str());
                r.append("Schema = ");
                r.append(base);
                r.append(".brand<\"");
                r.append(ty.name.as_str());
                r.append("\">();\n");
                proof {
                    assert(r@ =~= spec_branded_zod(
                        ty.name@,
                        newtype.inner.name@,
                        self.config.use_bigint,
                    ));
                }
                Some(r)
            },
            _ => None,
        }
    }
}

} // verus!
