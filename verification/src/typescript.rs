//! The TypeScript declaration emitter: lowering type references and
//! rendering complete declarations into an output buffer.

use vstd::prelude::*;

use crate::branded::{spec_typeof, typescript_typeof};
use crate::config::GeneratorConfig;
use crate::docs::{spec_inline_jsdoc, spec_jsdoc};
use crate::text::{
    lemma_concat_take_succ, lemma_join_take_succ, push_char, spec_concat, spec_ends_with,
    spec_join, str_ends_with, str_eq,
};
use crate::types::{
    EnumRepresentation, EnumType, EnumVariant, FieldInfo, GearMeshType, GenericParam, NewtypeType,
    StructType, TypeKind, TypeRef, VariantContent,
};
use crate::validation_gen::{spec_guard_text, spec_struct_schema, ValidationGenerator};

verus! {

/// Names lowered to the plain `number` type.
pub open spec fn spec_is_narrow_name(n: Seq<char>) -> bool {
    n == "i8"@ || n == "i16"@ || n == "i32"@ || n == "u8"@ || n == "u16"@ || n == "u32"@ || n
        == "f32"@ || n == "f64"@
}

/// Names of wide integers, 64 bits or more.
pub open spec fn spec_is_wide_name(n: Seq<char>) -> bool {
    n == "i64"@ || n == "i128"@ || n == "u64"@ || n == "u128"@ || n == "isize"@ || n == "usize"@
}

/// Names of homogeneous sequence containers.
pub open spec fn spec_is_seq_name(n: Seq<char>) -> bool {
    n == "Vec"@ || n == "__array__"@ || n == "__slice__"@
}

/// Names of associative containers.
pub open spec fn spec_is_map_name(n: Seq<char>) -> bool {
    n == "HashMap"@ || n == "BTreeMap"@
}

/// Names of set containers.
pub open spec fn spec_is_set_name(n: Seq<char>) -> bool {
    n == "HashSet"@ || n == "BTreeSet"@
}

/// The TypeScript type expression for a type reference.
///
/// Every reference lowers to some text: primitives map to their scalar type
/// (wide integers to `bigint` exactly when `use_bigint` is set), sequence
/// containers to `T[]`, optional values to `T | null` (without doubling the
/// suffix when `T` already carries it), fallible containers to their ok
/// branch alone, string-keyed maps to `Record`, other maps to `Map`, sets to
/// `Set`, tuples to bracketed lists, and any other name passes through
/// verbatim with its generics in angle brackets.
pub open spec fn spec_lower(t: TypeRef, use_bigint: bool) -> Seq<char>
    decreases t,
{
    let n = t.name@;
    if spec_is_narrow_name(n) {
        "number"@
    } else if spec_is_wide_name(n) {
        if use_bigint {
            "bigint"@
        } else {
            "number"@
        }
    } else if n == "bool"@ {
        "boolean"@
    } else if n == "char"@ || n == "String"@ || n == "str"@ {
        "string"@
    } else if n == "()"@ {
        "null"@
    } else if spec_is_seq_name(n) {
        if t.generics@.len() > 0 {
            spec_lower(t.generics@[0], use_bigint) + "[]"@
        } else {
            "unknown[]"@
        }
    } else if n == "Option"@ {
        if t.generics@.len() > 0 {
            let inner = spec_lower(t.generics@[0], use_bigint);
            if spec_ends_with(inner, " | null"@) {
                inner
            } else {
                inner + " | null"@
            }
        } else {
            "unknown | null"@
        }
    } else if n == "Result"@ {
        if t.generics@.len() > 0 {
            spec_lower(t.generics@[0], use_bigint)
        } else {
            "unknown"@
        }
    } else if spec_is_map_name(n) {
        let k = if t.generics@.len() >= 1 {
            spec_lower(t.generics@[0], use_bigint)
        } else {
            "string"@
        };
        let v = if t.generics@.len() >= 2 {
            spec_lower(t.generics@[1], use_bigint)
        } else {
            "unknown"@
        };
        if k == "string"@ {
            "Record<string, "@ + v + ">"@
        } else {
            "Map<"@ + k + ", "@ + v + ">"@
        }
    } else if spec_is_set_name(n) {
        if t.generics@.len() > 0 {
            "Set<"@ + spec_lower(t.generics@[0], use_bigint) + ">"@
        } else {
            "Set<unknown>"@
        }
    } else if n == "__tuple__"@ {
        "["@ + spec_join(spec_lower_list(t.generics@, use_bigint), ", "@) + "]"@
    } else {
        if t.generics@.len() == 0 {
            n
        } else {
            n + "<"@ + spec_join(spec_lower_list(t.generics@, use_bigint), ", "@) + ">"@
        }
    }
}

/// The lowered text of each reference in `ts`, in order.
pub open spec fn spec_lower_list(ts: Seq<TypeRef>, use_bigint: bool) -> Seq<Seq<char>>
    decreases ts,
{
    if ts.len() == 0 {
        Seq::<Seq<char>>::empty()
    } else {
        seq![spec_lower(ts[0], use_bigint)] + spec_lower_list(ts.drop_first(), use_bigint)
    }
}

pub proof fn lemma_lower_list_props(ts: Seq<TypeRef>, use_bigint: bool)
    ensures
        spec_lower_list(ts, use_bigint).len() == ts.len(),
        forall|i: int|
            0 <= i < ts.len() ==> spec_lower_list(ts, use_bigint)[i] == spec_lower(
                ts[i],
                use_bigint,
            ),
    decreases ts.len(),
{
    if ts.len() > 0 {
        lemma_lower_list_props(ts.drop_first(), use_bigint);
    }
}

/// Renders IR nodes as TypeScript text into an append-only buffer.
#[derive(Debug)]
pub struct TypeScriptGenerator {
    /// The active configuration.
    pub config: GeneratorConfig,
    /// The output accumulated so far.
    pub output: String,
}

impl TypeScriptGenerator {
    /// A generator with an empty output buffer.
    pub fn new(config: GeneratorConfig) -> (r: Self)
        ensures
            r.config == config,
            r.output@.len() == 0,
    {
        Self { config, output: String::new() }
    }

    /// The TypeScript type expression for `t`.
    fn type_ref_to_typescript(&self, t: &TypeRef) -> (r: String)
        ensures
            r@ == spec_lower(*t, self.config.use_bigint),
    {
        lower_type_ref(t, self.config.use_bigint)
    }
}

/// The TypeScript type expression for `t`.
pub fn lower_type_ref(t: &TypeRef, use_bigint: bool) -> (r: String)
    ensures
        r@ == spec_lower(*t, use_bigint),
    decreases *t,
{
    {
        let n = t.name.as_str();
        if str_eq(n, "i8") || str_eq(n, "i16") || str_eq(n, "i32") || str_eq(n, "u8") || str_eq(
            n,
            "u16",
        ) || str_eq(n, "u32") || str_eq(n, "f32") || str_eq(n, "f64") {
            String::from_str("number")
        } else if str_eq(n, "i64") || str_eq(n, "i128") || str_eq(n, "u64") || str_eq(n, "u128")
            || str_eq(n, "isize") || str_eq(n, "usize") {
            if use_bigint {
                String::from_str("bigint")
            } else {
                String::from_str("number")
            }
        } else if str_eq(n, "bool") {
            String::from_str("boolean")
        } else if str_eq(n, "char") || str_eq(n, "String") || str_eq(n, "str") {
            String::from_str("string")
        } else if str_eq(n, "()") {
            String::from_str("null")
        } else if str_eq(n, "Vec") || str_eq(n, "__array__") || str_eq(n, "__slice__") {
            if t.generics.len() > 0 {
                let mut r = lower_type_ref(&t.generics[0], use_bigint);
                r.append("[]");
                r
            } else {
                String::from_str("unknown[]")
            }
        } else if str_eq(n, "Option") {
            if t.generics.len() > 0 {
                let inner = lower_type_ref(&t.generics[0], use_bigint);
                if str_ends_with(inner.as_str(), " | null") {
                    inner
                } else {
                    let mut r = inner;
                    r.append(" | null");
                    r
                }
            } else {
                String::from_str("unknown | null")
            }
        } else if str_eq(n, "Result") {
            if t.generics.len() > 0 {
                lower_type_ref(&t.generics[0], use_bigint)
            } else {
                String::from_str("unknown")
            }
        } else if str_eq(n, "HashMap") || str_eq(n, "BTreeMap") {
            let key = if t.generics.len() >= 1 {
                lower_type_ref(&t.generics[0], use_bigint)
            } else {
                String::from_str("string")
            };
            let value = if t.generics.len() >= 2 {
                lower_type_ref(&t.generics[1], use_bigint)
            } else {
                String::from_str("unknown")
            };
            if str_eq(key.as_str(), "string") {
                let mut r = String::from_str("Record<string, ");
                r.append(value.as_str());
                r.append(">");
                r
            } else {
                let mut r = String::from_str("Map<");
                r.append(key.as_str());
                r.append(", ");
                r.append(value.as_str());
                r.append(">");
                r
            }
        } else if str_eq(n, "HashSet") || str_eq(n, "BTreeSet") {
            if t.generics.len() > 0 {
                let inner = lower_type_ref(&t.generics[0], use_bigint);
                let mut r = String::from_str("Set<");
                r.append(inner.as_str());
                r.append(">");
                r
            } else {
                String::from_str("Set<unknown>")
            }
        } else if str_eq(n, "__tuple__") {
            let joined = lower_join(&t.generics, ", ", use_bigint);
            let mut r = String::from_str("[");
            r.append(joined.as_str());
            r.append("]");
            proof {
                assert(r@ =~= spec_lower(*t, use_bigint));
            }
            r
        } else {
            if t.generics.len() == 0 {
                String::from_str(n)
            } else {
                let joined = lower_join(&t.generics, ", ", use_bigint);
                let mut r = String::from_str(n);
                r.append("<");
                r.append(joined.as_str());
                r.append(">");
                proof {
                    assert(r@ =~= spec_lower(*t, use_bigint));
                }
                r
            }
        }
    }
}

/// The lowered elements of `ts`, joined with `sep`.
pub fn lower_join(ts: &Vec<TypeRef>, sep: &str, use_bigint: bool) -> (r: String)
    ensures
        r@ == spec_join(spec_lower_list(ts@, use_bigint), sep@),
    decreases ts@,
{
    {
        let ghost parts = spec_lower_list(ts@, use_bigint);
        proof {
            lemma_lower_list_props(ts@, use_bigint);
            assert(parts.take(0) =~= Seq::<Seq<char>>::empty());
        }
        let mut r = String::new();
        let n: usize = ts.len();
        let mut i: usize = 0;
        while i < n
            invariant
                i <= n,
                n == ts@.len(),
                parts == spec_lower_list(ts@, use_bigint),
                parts.len() == ts@.len(),
                forall|j: int|
                    0 <= j < ts@.len() ==> parts[j] == spec_lower(ts@[j], use_bigint),
                r@ == spec_join(parts.take(i as int), sep@),
            decreases n - i,
        {
            let ghost r0 = r@;
            if i > 0 {
                r.append(sep);
            }
            let piece = lower_type_ref(&ts[i], use_bigint);
            r.append(piece.as_str());
            proof {
                lemma_join_take_succ(parts, sep@, i as int);
                if i == 0 {
                    assert(r0 =~= Seq::<char>::empty());
                    assert(r@ =~= parts[0]);
                } else {
                    assert(r@ =~= spec_join(parts.take(i as int), sep@) + sep@ + parts[i as int]);
                }
            }
            i = i + 1;
        }
        proof {
            assert(parts.take(n as int) =~= parts);
        }
        r
    }
}

// ---------------------------------------------------------------------------
// Declaration texts
// ---------------------------------------------------------------------------

/// The declared type-parameter names, in order.
pub open spec fn spec_generic_names(gs: Seq<GenericParam>) -> Seq<Seq<char>> {
    Seq::new(gs.len(), |i: int| gs[i].name@)
}

/// The angle-bracket parameter list, empty when there are no parameters.
pub open spec fn spec_generic_str(gs: Seq<GenericParam>) -> Seq<char> {
    if gs.len() == 0 {
        Seq::<char>::empty()
    } else {
        "<"@ + spec_join(spec_generic_names(gs), ", "@) + ">"@
    }
}

/// One interface member: its inline comment when JSDoc is on and the field
/// is documented, then indent, serialized name (the rename when present),
/// `?` when optional, and the lowered type.
pub open spec fn spec_field_text(f: FieldInfo, cfg: GeneratorConfig) -> Seq<char> {
    (if cfg.generate_jsdoc && f.docs is Some {
        cfg.indent@ + spec_inline_jsdoc(f.docs->0.summary@) + "\n"@
    } else {
        Seq::<char>::empty()
    }) + cfg.indent@ + (if f.serde_attrs.rename is Some {
        f.serde_attrs.rename->0@
    } else {
        f.name@
    }) + (if f.optional {
        "?"@
    } else {
        Seq::<char>::empty()
    }) + ": "@ + spec_lower(f.ty, cfg.use_bigint) + ";\n"@
}

pub open spec fn spec_field_texts(fs: Seq<FieldInfo>, cfg: GeneratorConfig) -> Seq<Seq<char>> {
    Seq::new(fs.len(), |i: int| spec_field_text(fs[i], cfg))
}

/// The interface declaration of a struct.
pub open spec fn spec_struct_text(
    name: Seq<char>,
    s: StructType,
    gs: Seq<GenericParam>,
    cfg: GeneratorConfig,
) -> Seq<char> {
    "export interface "@ + name + spec_generic_str(gs) + " {\n"@ + spec_concat(
        spec_field_texts(s.fields@, cfg),
    ) + "}\n"@
}

/// The `name: type` members of an inline object type for a struct variant.
pub open spec fn spec_variant_field_parts(fs: Seq<FieldInfo>, use_bigint: bool) -> Seq<Seq<char>> {
    Seq::new(fs.len(), |i: int| fs[i].name@ + ": "@ + spec_lower(fs[i].ty, use_bigint))
}

/// One union member for a variant under the enum's representation: a unit
/// variant under external tagging is the quoted variant name, payloads wrap
/// in a one-key object, internal tagging splices the tag field in, and any
/// other combination falls back to the quoted name. A tuple payload cannot
/// carry an injected tag field, so internal tagging of a tuple variant is
/// unsupported and takes that fallback.
pub open spec fn spec_variant_text(
    v: EnumVariant,
    repr: EnumRepresentation,
    use_bigint: bool,
) -> Seq<char> {
    match v.content {
        VariantContent::Unit => match repr {
            EnumRepresentation::External => "\""@ + v.name@ + "\""@,
            EnumRepresentation::Internal { tag } => "{ "@ + tag@ + ": \""@ + v.name@ + "\" }"@,
            _ => "\""@ + v.name@ + "\""@,
        },
        VariantContent::Tuple(ts) => match repr {
            EnumRepresentation::External => {
                if ts@.len() == 1 {
                    "{ \""@ + v.name@ + "\": "@ + spec_lower(ts@[0], use_bigint) + " }"@
                } else {
                    "{ \""@ + v.name@ + "\": ["@ + spec_join(
                        spec_lower_list(ts@, use_bigint),
                        ", "@,
                    ) + "] }"@
                }
            },
            _ => "\""@ + v.name@ + "\""@,
        },
        VariantContent::Struct(fs) => match repr {
            EnumRepresentation::External => "{ \""@ + v.name@ + "\": { "@ + spec_join(
                spec_variant_field_parts(fs@, use_bigint),
                "; "@,
            ) + " } }"@,
            EnumRepresentation::Internal { tag } => "{ "@ + tag@ + ": \""@ + v.name@ + "\"; "@
                + spec_join(spec_variant_field_parts(fs@, use_bigint), "; "@) + " }"@,
            _ => "\""@ + v.name@ + "\""@,
        },
    }
}

pub open spec fn spec_variant_parts(
    vs: Seq<EnumVariant>,
    repr: EnumRepresentation,
    use_bigint: bool,
) -> Seq<Seq<char>> {
    Seq::new(vs.len(), |i: int| spec_variant_text(vs[i], repr, use_bigint))
}

/// The union-type declaration of a tagged union.
pub open spec fn spec_enum_text(
    name: Seq<char>,
    e: EnumType,
    gs: Seq<GenericParam>,
    use_bigint: bool,
) -> Seq<char> {
    "export type "@ + name + spec_generic_str(gs) + " = "@ + spec_join(
        spec_variant_parts(e.variants@, e.representation, use_bigint),
        " | "@,
    ) + ";\n"@
}

/// The branded form of a newtype: nominal alias, cast constructor, and a
/// type guard whose runtime check comes from the `typeof` table.
pub open spec fn spec_branded_decl(name: Seq<char>, nt: NewtypeType, use_bigint: bool) -> Seq<
    char,
> {
    let inner = spec_lower(nt.inner, use_bigint);
    "export type "@ + name + " = Brand<"@ + inner + ", \""@ + name + "\">;\n"@ + "export const "@
        + name + " = (value: "@ + inner + "): "@ + name + " => value as "@ + name + ";\n"@
        + "export function is"@ + name + "(value: unknown): value is "@ + name
        + " {\n    return typeof value === '"@ + spec_typeof(inner) + "';\n}\n"@
}

/// The plain structural alias form of a newtype.
pub open spec fn spec_alias_text(name: Seq<char>, nt: NewtypeType, use_bigint: bool) -> Seq<char> {
    "export type "@ + name + " = "@ + spec_lower(nt.inner, use_bigint) + ";\n"@
}

/// The whole declaration block of one node: its JSDoc when enabled, then the
/// declaration its shape calls for — struct as interface (plus its guard
/// when validation is on and the node asks for it), tagged union as union
/// type, newtype as branded or plain alias; a top-level primitive, tuple,
/// array or other bare reference emits nothing.
pub open spec fn spec_type_decl(ty: GearMeshType, cfg: GeneratorConfig) -> Seq<char> {
    (if cfg.generate_jsdoc && ty.docs is Some {
        spec_jsdoc(ty.docs->0) + "\n"@
    } else {
        Seq::<char>::empty()
    }) + (match ty.kind {
        TypeKind::Struct(s) => spec_struct_text(ty.name@, s, ty.generics@, cfg) + (
        if cfg.generate_validation && ty.attributes.validate {
            spec_guard_text(ty.name@, s, cfg.use_bigint)
        } else {
            Seq::<char>::empty()
        }),
        TypeKind::Enum(e) => spec_enum_text(ty.name@, e, ty.generics@, cfg.use_bigint),
        TypeKind::Newtype(nt) => {
            if ty.attributes.branded {
                spec_branded_decl(ty.name@, nt, cfg.use_bigint)
            } else {
                spec_alias_text(ty.name@, nt, cfg.use_bigint)
            }
        },
        _ => Seq::<char>::empty(),
    })
}

/// Each node's declaration, followed by a blank separator line.
pub open spec fn spec_decl_blocks(types: Seq<GearMeshType>, cfg: GeneratorConfig) -> Seq<
    Seq<char>,
> {
    Seq::new(types.len(), |i: int| spec_type_decl(types[i], cfg) + seq!['\n'])
}

/// Whether any node in the batch asks for the branded helper.
pub open spec fn spec_any_branded(types: Seq<GearMeshType>) -> bool {
    exists|i: int| 0 <= i < types.len() && (#[trigger] types[i]).attributes.branded
}

/// The per-node Zod schema blocks: one object schema per struct.
pub open spec fn spec_schema_blocks(types: Seq<GearMeshType>, cfg: GeneratorConfig) -> Seq<
    Seq<char>,
> {
    Seq::new(
        types.len(),
        |i: int|
            match types[i].kind {
                TypeKind::Struct(s) => spec_struct_schema(types[i].name@, s, cfg) + seq!['\n'],
                _ => Seq::<char>::empty(),
            },
    )
}

/// The Zod import header, when schemas are on.
pub open spec fn spec_zod_import(cfg: GeneratorConfig) -> Seq<char> {
    if cfg.generate_zod {
        "import { z } from 'zod';\n\n"@
    } else {
        Seq::<char>::empty()
    }
}

/// The branded-helper alias text itself.
pub open spec fn spec_brand_helper_line() -> Seq<char> {
    "// Branded Type helper\n"@ + "type Brand<T, B> = T & { readonly __brand: B };\n\n"@
}

/// The helper segment of a batch: the helper text when branding is on and
/// at least one node is branded, else nothing. It depends only on *whether*
/// a branded node exists, never on how many there are.
pub open spec fn spec_brand_helper_block(types: Seq<GearMeshType>, cfg: GeneratorConfig) -> Seq<
    char,
> {
    if cfg.generate_branded && spec_any_branded(types) {
        spec_brand_helper_line()
    } else {
        Seq::<char>::empty()
    }
}

/// The trailing schema segment, when schemas are on.
pub open spec fn spec_zod_tail(types: Seq<GearMeshType>, cfg: GeneratorConfig) -> Seq<char> {
    if cfg.generate_zod {
        "// Zod Schemas\n\n"@ + spec_concat(spec_schema_blocks(types, cfg))
    } else {
        Seq::<char>::empty()
    }
}

/// The single-file output for a batch, in order: the Zod import when schemas
/// are on, the branded helper exactly once when branding is on and some node
/// is branded, every node's declaration block, and the schema block when
/// schemas are on.
pub open spec fn spec_generate(types: Seq<GearMeshType>, cfg: GeneratorConfig) -> Seq<char> {
    spec_zod_import(cfg) + spec_brand_helper_block(types, cfg) + spec_concat(
        spec_decl_blocks(types, cfg),
    ) + spec_zod_tail(types, cfg)
}

impl TypeScriptGenerator {
    /// The angle-bracket parameter list for `generics`.
    fn generic_list(generics: &[GenericParam]) -> (r: String)
        ensures
            r@ == spec_generic_str(generics@),
    {
        if generics.len() == 0 {
            return String::new();
        }
        let mut r = String::from_str("<");
        let ghost parts = spec_generic_names(generics@);
        let ghost base = r@;
        proof {
            assert(parts.take(0) =~= Seq::<Seq<char>>::empty());
        }
        let n: usize = generics.len();
        let mut i: usize = 0;
        while i < n
            invariant
                i <= n,
                n == generics@.len(),
                n > 0,
                parts == spec_generic_names(generics@),
                base == "<"@,
                r@ == base + spec_join(parts.take(i as int), ", "@),
            decreases n - i,
        {
            let ghost r0 = r@;
            if i > 0 {
                r.append(", ");
            }
            r.append(generics[i].name.as_str());
            proof {
                lemma_join_take_succ(parts, ", "@, i as int);
                if i == 0 {
                    assert(r@ =~= base + parts[0]);
                } else {
                    assert(r@ =~= base + (spec_join(parts.take(i as int), ", "@) + ", "@
                        + parts[i as int]));
                }
            }
            i = i + 1;
        }
        proof {
            assert(parts.take(n as int) =~= parts);
        }
        r.append(">");
        proof {
            assert(r@ =~= spec_generic_str(generics@));
        }
        r
    }

    /// Appends the interface declaration of a struct.
    fn generate_struct(&mut self, name: &str, struct_type: &StructType, generics: &[GenericParam])
        ensures
            final(self).output@ == old(self).output@ + spec_struct_text(
                name@,
                *struct_type,
                generics@,
                old(self).config,
            ),
            final(self).config == old(self).config,
    {
        let generic_str = Self::generic_list(generics);
        self.output.append("export interface ");
        self.output.append(name);
        self.output.append(generic_str.as_str());
        self.output.append(" {\n");
        let ghost parts = spec_field_texts(struct_type.fields@, self.config);
        let ghost base = self.output@;
        proof {
            assert(parts.take(0) =~= Seq::<Seq<char>>::empty());
            assert(base + spec_concat(parts.take(0)) =~= base);
        }
        let n: usize = struct_type.fields.len();
        let mut i: usize = 0;
        while i < n
            invariant
                i <= n,
                n == struct_type.fields@.len(),
                parts == spec_field_texts(struct_type.fields@, self.config),
                self.config == old(self).config,
                self.output@ == base + spec_concat(parts.take(i as int)),
            decreases n - i,
        {
            let ghost r0 = self.output@;
            self.generate_field(&struct_type.fields[i]);
            proof {
                lemma_concat_take_succ(parts, i as int);
                assert(self.output@ =~= r0 + parts[i as int]);
                assert(base + (spec_concat(parts.take(i as int)) + parts[i as int]) =~= (base
                    + spec_concat(parts.take(i as int))) + parts[i as int]);
            }
            i = i + 1;
        }
        proof {
            assert(parts.take(n as int) =~= parts);
        }
        self.output.append("}\n");
        proof {
            assert(self.output@ =~= old(self).output@ + spec_struct_text(
                name@,
                *struct_type,
                generics@,
                old(self).config,
            ));
        }
    }

    /// Appends one interface member.
    fn generate_field(&mut self, field: &FieldInfo)
        ensures
            final(self).output@ == old(self).output@ + spec_field_text(*field, old(self).config),
            final(self).config == old(self).config,
    {
        if self.config.generate_jsdoc {
            if let Some(docs) = &field.docs {
                let inline = docs.to_inline_jsdoc();
                self.output.append(self.config.indent.as_str());
                self.output.append(inline.as_str());
                self.output.append("\n");
            }
        }
        self.output.append(self.config.indent.as_str());
        let field_name: &String = match &field.serde_attrs.rename {
            Some(re) => re,
            None => &field.name,
        };
        self.output.append(field_name.as_str());
        if field.optional {
            self.output.append("?");
        }
        self.output.append(": ");
        let ts = self.type_ref_to_typescript(&field.ty);
        self.output.append(ts.as_str());
        self.output.append(";\n");
        proof {
            assert(self.output@ =~= old(self).output@ + spec_field_text(
                *field,
                old(self).config,
            ));
        }
    }

    /// Appends the union-type declaration of a tagged union.
    fn generate_enum(&mut self, name: &str, enum_type: &EnumType, generics: &[GenericParam])
        ensures
            final(self).output@ == old(self).output@ + spec_enum_text(
                name@,
                *enum_type,
                generics@,
                old(self).config.use_bigint,
            ),
            final(self).config == old(self).config,
    {
        let generic_str = Self::generic_list(generics);
        self.output.append("export type ");
        self.output.append(name);
        self.output.append(generic_str.as_str());
        self.output.append(" = ");
        let ghost parts = spec_variant_parts(
            enum_type.variants@,
            enum_type.representation,
            self.config.use_bigint,
        );
        let ghost base = self.output@;
        proof {
            assert(parts.take(0) =~= Seq::<Seq<char>>::empty());
        }
        let n: usize = enum_type.variants.len();
        let mut i: usize = 0;
        while i < n
            invariant
                i <= n,
                n == enum_type.variants@.len(),
                parts == spec_variant_parts(
                    enum_type.variants@,
                    enum_type.representation,
                    self.config.use_bigint,
                ),
                self.config == old(self).config,
                self.output@ == base + spec_join(parts.take(i as int), " | "@),
            decreases n - i,
        {
            let ghost r0 = self.output@;
            if i > 0 {
                self.output.append(" | ");
            }
            let piece = self.generate_variant(&enum_type.variants[i], &enum_type.representation);
            self.output.append(piece.as_str());
            proof {
                lemma_join_take_succ(parts, " | "@, i as int);
                if i == 0 {
                    assert(r0 =~= base);
                    assert(self.output@ =~= base + parts[0]);
                } else {
                    assert(self.output@ =~= base + (spec_join(parts.take(i as int), " | "@)
                        + " | "@ + parts[i as int]));
                }
            }
            i = i + 1;
        }
        proof {
            assert(parts.take(n as int) =~= parts);
        }
        self.output.append(";\n");
        proof {
            assert(self.output@ =~= old(self).output@ + spec_enum_text(
                name@,
                *enum_type,
                generics@,
                old(self).config.use_bigint,
            ));
        }
    }

    /// The union member for one variant.
    fn generate_variant(&self, variant: &EnumVariant, repr: &EnumRepresentation) -> (r: String)
        ensures
            r@ == spec_variant_text(*variant, *repr, self.config.use_bigint),
    {
        match (&variant.content, repr) {
            (VariantContent::Unit, EnumRepresentation::External) => {
                let mut r = String::from_str("\"");
                r.append(variant.name.as_str());
                r.append("\"");
                proof {
                    assert(r@ =~= spec_variant_text(*variant, *repr, self.config.use_bigint));
                }
                r
            },
            (VariantContent::Unit, EnumRepresentation::Internal { tag }) => {
                let mut r = String::from_str("{ ");
                r.append(tag.as_str());
                r.append(": \"");
                r.append(variant.name.as_str());
                r.append("\" }");
                proof {
                    assert(r@ =~= spec_variant_text(*variant, *repr, self.config.use_bigint));
                }
                r
            },
            (VariantContent::Tuple(types), EnumRepresentation::External) => {
                if types.len() == 1 {
                    let inner = self.type_ref_to_typescript(&types[0]);
                    let mut r = String::from_str("{ \"");
                    r.append(variant.name.as_str());
                    r.append("\": ");
                    r.append(inner.as_str());
                    r.append(" }");
                    proof {
                        assert(r@ =~= spec_variant_text(*variant, *repr, self.config.use_bigint));
                    }
                    r
                } else {
                    let joined = lower_join(types, ", ", self.config.use_bigint);
                    let mut r = String::from_str("{ \"");
                    r.append(variant.name.as_str());
                    r.append("\": [");
                    r.append(joined.as_str());
                    r.append("] }");
                    proof {
                        assert(r@ =~= spec_variant_text(*variant, *repr, self.config.use_bigint));
                    }
                    r
                }
            },
            (VariantContent::Struct(fields), EnumRepresentation::External) => {
                let joined = Self::variant_fields_join(fields, self.config.use_bigint);
                let mut r = String::from_str("{ \"");
                r.append(variant.name.as_str());
                r.append("\": { ");
                r.append(joined.as_str());
                r.append(" } }");
                proof {
                    assert(r@ =~= spec_variant_text(*variant, *repr, self.config.use_bigint));
                }
                r
            },
            (VariantContent::Struct(fields), EnumRepresentation::Internal { tag }) => {
                let joined = Self::variant_fields_join(fields, self.config.use_bigint);
                let mut r = String::from_str("{ ");
                r.append(tag.as_str());
                r.append(": \"");
                r.append(variant.name.as_str());
                r.append("\"; ");
                r.append(joined.as_str());
                r.append(" }");
                proof {
                    assert(r@ =~= spec_variant_text(*variant, *repr, self.config.use_bigint));
                }
                r
            },
            _ => {
                let mut r = String::from_str("\"");
                r.append(variant.name.as_str());
                r.append("\"");
                proof {
                    assert(r@ =~= spec_variant_text(*variant, *repr, self.config.use_bigint));
                }
                r
            },
        }
    }

    /// The members of a struct variant's inline object type, joined.
    fn variant_fields_join(fields: &Vec<FieldInfo>, use_bigint: bool) -> (r: String)
        ensures
            r@ == spec_join(spec_variant_field_parts(fields@, use_bigint), "; "@),
    {
        let ghost parts = spec_variant_field_parts(fields@, use_bigint);
        proof {
            assert(parts.take(0) =~= Seq::<Seq<char>>::empty());
        }
        let mut r = String::new();
        let n: usize = fields.len();
        let mut i: usize = 0;
        while i < n
            invariant
                i <= n,
                n == fields@.len(),
                parts == spec_variant_field_parts(fields@, use_bigint),
                r@ == spec_join(parts.take(i as int), "; "@),
            decreases n - i,
        {
            let ghost r0 = r@;
            if i > 0 {
                r.append("; ");
            }
            r.append(fields[i].name.as_str());
            r.append(": ");
            let ts = lower_type_ref(&fields[i].ty, use_bigint);
            r.append(ts.as_str());
            proof {
                lemma_join_take_succ(parts, "; "@, i as int);
                if i == 0 {
                    assert(r0 =~= Seq::<char>::empty());
                    assert(r@ =~= parts[0]);
                } else {
                    assert(r@ =~= spec_join(parts.take(i as int), "; "@) + "; "@ + parts[i as int]);
                }
            }
            i = i + 1;
        }
        proof {
            assert(parts.take(n as int) =~= parts);
        }
        r
    }

    /// Appends the branded form of a newtype.
    fn generate_branded_type(&mut self, name: &str, newtype: &NewtypeType)
        ensures
            final(self).output@ == old(self).output@ + spec_branded_decl(
                name@,
                *newtype,
                old(self).config.use_bigint,
            ),
            final(self).config == old(self).config,
    {
        let inner = lower_type_ref(&newtype.inner, self.config.use_bigint);
        self.output.append("export type ");
        self.output.append(name);
        self.output.append(" = Brand<");
        self.output.append(inner.as_str());
        self.output.append(", \"");
        self.output.append(name);
        self.output.append("\">;\n");
        self.output.append("export const ");
        self.output.append(name);
        self.output.append(" = (value: ");
        self.output.append(inner.as_str());
        self.output.append("): ");
        self.output.append(name);
        self.output.append(" => value as ");
        self.output.append(name);
        self.output.append(";\n");
        self.output.append("export function is");
        self.output.append(name);
        self.output.append("(value: unknown): value is ");
        self.output.append(name);
        self.output.append(" {\n    return typeof value === '");
        self.output.append(typescript_typeof(inner.as_str()));
        self.output.append("';\n}\n");
        proof {
            assert(self.output@ =~= old(self).output@ + spec_branded_decl(
                name@,
                *newtype,
                old(self).config.use_bigint,
            ));
        }
    }

    /// Appends the plain alias form of a newtype.
    fn generate_type_alias(&mut self, name: &str, newtype: &NewtypeType)
        ensures
            final(self).output@ == old(self).output@ + spec_alias_text(
                name@,
                *newtype,
                old(self).config.use_bigint,
            ),
            final(self).config == old(self).config,
    {
        let inner = lower_type_ref(&newtype.inner, self.config.use_bigint);
        self.output.append("export type ");
        self.output.append(name);
        self.output.append(" = ");
        self.output.append(inner.as_str());
        self.output.append(";\n");
        proof {
            assert(self.output@ =~= old(self).output@ + spec_alias_text(
                name@,
                *newtype,
                old(self).config.use_bigint,
            ));
        }
    }

    /// Appends the declaration block of one node.
    pub fn generate_type(&mut self, ty: &GearMeshType)
        ensures
            final(self).output@ == old(self).output@ + spec_type_decl(*ty, old(self).config),
            final(self).config == old(self).config,
    {
        if self.config.generate_jsdoc {
            if let Some(docs) = &ty.docs {
                let block = docs.to_jsdoc();
                self.output.append(block.as_str());
                self.output.append("\n");
            }
        }
        match &ty.kind {
            TypeKind::Struct(s) => {
                self.generate_struct(ty.name.as_str(), s, ty.generics.as_slice());
                if self.config.generate_validation && ty.attributes.validate {
                    let validator = ValidationGenerator::new(self.config.clone());
                    let guard = validator.generate_guard(ty.name.as_str(), s);
                    self.output.append(guard.as_str());
                }
            },
            TypeKind::Enum(e) => {
                self.generate_enum(ty.name.as_str(), e, ty.generics.as_slice());
            },
            TypeKind::Newtype(nt) => {
                if ty.attributes.branded {
                    self.generate_branded_type(ty.name.as_str(), nt);
                } else {
                    self.generate_type_alias(ty.name.as_str(), nt);
                }
            },
            _ => {},
        }
        proof {
            assert(self.output@ =~= old(self).output@ + spec_type_decl(*ty, old(self).config));
        }
    }

    /// Renders the whole batch: clears the buffer, emits the Zod import and
    /// the branded helper when called for, every node's declaration, and the
    /// schema block, and returns the buffer's text.
    pub fn generate(&mut self, types: &[GearMeshType]) -> (r: String)
        ensures
            r@ == spec_generate(types@, old(self).config),
            final(self).output@ == r@,
            final(self).config == old(self).config,
    {
        self.output = String::new();
        if self.config.generate_zod {
            self.output.append("import { z } from 'zod';\n\n");
        }
        if self.config.generate_branded {
            let n: usize = types.len();
            let mut any_branded = false;
            let mut i: usize = 0;
            while i < n
                invariant
                    i <= n,
                    n == types@.len(),
                    any_branded == spec_any_branded(types@.take(i as int)),
                decreases n - i,
            {
                if types[i].attributes.branded {
                    any_branded = true;
                }
                proof {
                    if any_branded {
                        if types@[i as int].attributes.branded {
                            assert(types@.take(i as int + 1)[i as int].attributes.branded);
                        } else {
                            let w = choose|k: int|
                                0 <= k < i && (#[trigger] types@.take(
                                    i as int,
                                )[k]).attributes.branded;
                            assert(types@.take(i as int + 1)[w].attributes.branded);
                        }
                    } else {
                        assert(forall|k: int|
                            0 <= k < i + 1 ==> !(#[trigger] types@.take(
                                i as int + 1,
                            )[k]).attributes.branded) by {
                            assert(forall|k: int|
                                0 <= k < i ==> !(#[trigger] types@.take(
                                    i as int,
                                )[k]).attributes.branded);
                            assert(forall|k: int|
                                0 <= k < i ==> types@.take(i as int + 1)[k] == types@.take(
                                    i as int,
                                )[k]);
                        }
                    }
                }
                i = i + 1;
            }
            proof {
                assert(types@.take(n as int) =~= types@);
            }
            if any_branded {
                self.output.append("// Branded Type helper\n");
                self.output.append("type Brand<T, B> = T & { readonly __brand: B };\n\n");
            }
        }
        let ghost header = self.output@;
        let ghost blocks = spec_decl_blocks(types@, self.config);
        proof {
            assert(blocks.take(0) =~= Seq::<Seq<char>>::empty());
            assert(header + spec_concat(blocks.take(0)) =~= header);
        }
        let n: usize = types.len();
        let mut i: usize = 0;
        while i < n
            invariant
                i <= n,
                n == types@.len(),
                blocks == spec_decl_blocks(types@, self.config),
                self.config == old(self).config,
                self.output@ == header + spec_concat(blocks.take(i as int)),
            decreases n - i,
        {
            let ghost r0 = self.output@;
            self.generate_type(&types[i]);
            push_char(&mut self.output, '\n');
            proof {
                lemma_concat_take_succ(blocks, i as int);
                assert(self.output@ =~= r0 + blocks[i as int]);
                assert(header + (spec_concat(blocks.take(i as int)) + blocks[i as int]) =~= (header
                    + spec_concat(blocks.take(i as int))) + blocks[i as int]);
            }
            i = i + 1;
        }
        proof {
            assert(blocks.take(n as int) =~= blocks);
        }
        if self.config.generate_zod {
            self.output.append("// Zod Schemas\n\n");
            let validator = ValidationGenerator::new(self.config.clone());
            let ghost sblocks = spec_schema_blocks(types@, self.config);
            let ghost base_s = self.output@;
            proof {
                assert(sblocks.take(0) =~= Seq::<Seq<char>>::empty());
                assert(base_s + spec_concat(sblocks.take(0)) =~= base_s);
            }
            let mut i: usize = 0;
            while i < n
                invariant
                    i <= n,
                    n == types@.len(),
                    sblocks == spec_schema_blocks(types@, self.config),
                    validator.config == self.config,
                    self.config == old(self).config,
                    self.output@ == base_s + spec_concat(sblocks.take(i as int)),
                decreases n - i,
            {
                let ghost r0 = self.output@;
                if let Some(schema) = validator.generate_zod_schema(&types[i]) {
                    self.output.append(schema.as_str());
                    push_char(&mut self.output, '\n');
                }
                proof {
                    lemma_concat_take_succ(sblocks, i as int);
                    assert(self.output@ =~= r0 + sblocks[i as int]);
                    assert(base_s + (spec_concat(sblocks.take(i as int)) + sblocks[i as int]) =~= (
                    base_s + spec_concat(sblocks.take(i as int))) + sblocks[i as int]);
                }
                i = i + 1;
            }
            proof {
                assert(sblocks.take(n as int) =~= sblocks);
            }
        }
        let r = self.output.clone();
        proof {
            assert(r@ =~= spec_generate(types@, old(self).config));
        }
        r
    }
}

// ---------------------------------------------------------------------------
// Laws
// ---------------------------------------------------------------------------

/// Law: lowering a primitive type reference is total and stable. For every
/// reference whose name is a primitive keyword, the lowered text is exactly
/// one of `number`, `bigint`, `boolean`, `string` and `null`, and it is
/// `bigint` exactly when `use_bigint` is set and the name is a wide integer.
pub proof fn lemma_lower_primitive_total(t: TypeRef, use_bigint: bool)
    requires
        spec_is_narrow_name(t.name@) || spec_is_wide_name(t.name@) || t.name@ == "bool"@
            || t.name@ == "char"@ || t.name@ == "String"@ || t.name@ == "str"@ || t.name@ == "()"@,
    ensures
        spec_lower(t, use_bigint) == "number"@ || spec_lower(t, use_bigint) == "bigint"@
            || spec_lower(t, use_bigint) == "boolean"@ || spec_lower(t, use_bigint) == "string"@
            || spec_lower(t, use_bigint) == "null"@,
        (spec_lower(t, use_bigint) == "bigint"@) <==> (use_bigint && spec_is_wide_name(t.name@)),
{
    reveal_strlit("i8");
    reveal_strlit("i16");
    reveal_strlit("i32");
    reveal_strlit("u8");
    reveal_strlit("u16");
    reveal_strlit("u32");
    reveal_strlit("f32");
    reveal_strlit("f64");
    reveal_strlit("i64");
    reveal_strlit("i128");
    reveal_strlit("u64");
    reveal_strlit("u128");
    reveal_strlit("isize");
    reveal_strlit("usize");
    reveal_strlit("bool");
    reveal_strlit("char");
    reveal_strlit("String");
    reveal_strlit("str");
    reveal_strlit("()");
    reveal_strlit("number");
    reveal_strlit("bigint");
    reveal_strlit("boolean");
    reveal_strlit("string");
    reveal_strlit("null");
    assert("i8"@.len() == 2);
    assert("i16"@.len() == 3);
    assert("i32"@.len() == 3);
    assert("u8"@.len() == 2);
    assert("u16"@.len() == 3);
    assert("u32"@.len() == 3);
    assert("f32"@.len() == 3);
    assert("f64"@.len() == 3);
    assert("i64"@.len() == 3);
    assert("i128"@.len() == 4);
    assert("u64"@.len() == 3);
    assert("u128"@.len() == 4);
    assert("isize"@.len() == 5);
    assert("usize"@.len() == 5);
    assert("bool"@.len() == 4);
    assert("char"@.len() == 4);
    assert("String"@.len() == 6);
    assert("str"@.len() == 3);
    assert("()"@.len() == 2);
    assert("number"@.len() == 6);
    assert("bigint"@.len() == 6);
    assert("boolean"@.len() == 7);
    assert("string"@.len() == 6);
    assert("null"@.len() == 4);
    assert("i16"@[1] != "i64"@[1]);
    assert("i32"@[1] != "i64"@[1]);
    assert("u16"@[1] != "u64"@[1]);
    assert("u32"@[1] != "u64"@[1]);
    assert("i16"@[0] != "u64"@[0]);
    assert("i32"@[0] != "u64"@[0]);
    assert("u16"@[0] != "i64"@[0]);
    assert("u32"@[0] != "i64"@[0]);
    assert("f32"@[0] != "i64"@[0]);
    assert("f32"@[0] != "u64"@[0]);
    assert("f64"@[0] != "i64"@[0]);
    assert("f64"@[0] != "u64"@[0]);
    assert("bool"@[0] != "i128"@[0]);
    assert("bool"@[0] != "u128"@[0]);
    assert("char"@[0] != "i128"@[0]);
    assert("char"@[0] != "u128"@[0]);
    assert("str"@[0] != "i64"@[0]);
    assert("str"@[0] != "u64"@[0]);
    assert("number"@[0] != "bigint"@[0]);
    assert("boolean"@[1] != "bigint"@[1]);
    assert("string"@[0] != "bigint"@[0]);
    assert("null"@[0] != "bigint"@[0]);
    assert(!(spec_is_narrow_name(t.name@) && spec_is_wide_name(t.name@)));
    assert((t.name@ == "bool"@ || t.name@ == "char"@ || t.name@ == "String"@ || t.name@ == "str"@
        || t.name@ == "()"@) ==> !spec_is_wide_name(t.name@));
}

/// Law: wrapping a reference in a single-value optional container appends
/// exactly one `" | null"` suffix when the inner lowering does not already
/// end in one, and leaves the text unchanged when it does.
pub proof fn lemma_option_lowering(o: TypeRef, use_bigint: bool)
    requires
        o.name@ == "Option"@,
        o.generics@.len() == 1,
    ensures
        !spec_ends_with(spec_lower(o.generics@[0], use_bigint), " | null"@) ==> spec_lower(
            o,
            use_bigint,
        ) == spec_lower(o.generics@[0], use_bigint) + " | null"@,
        spec_ends_with(spec_lower(o.generics@[0], use_bigint), " | null"@) ==> spec_lower(
            o,
            use_bigint,
        ) == spec_lower(o.generics@[0], use_bigint),
{
    reveal_strlit("i8");
    reveal_strlit("i16");
    reveal_strlit("i32");
    reveal_strlit("u8");
    reveal_strlit("u16");
    reveal_strlit("u32");
    reveal_strlit("f32");
    reveal_strlit("f64");
    reveal_strlit("i64");
    reveal_strlit("i128");
    reveal_strlit("u64");
    reveal_strlit("u128");
    reveal_strlit("isize");
    reveal_strlit("usize");
    reveal_strlit("bool");
    reveal_strlit("char");
    reveal_strlit("String");
    reveal_strlit("str");
    reveal_strlit("()");
    reveal_strlit("Vec");
    reveal_strlit("__array__");
    reveal_strlit("__slice__");
    reveal_strlit("Option");
    assert("Option"@[0] != "String"@[0]);
    assert(!spec_is_narrow_name(o.name@));
    assert(!spec_is_wide_name(o.name@));
    assert(!spec_is_seq_name(o.name@));
    assert(o.name@ != "bool"@ && o.name@ != "char"@ && o.name@ != "String"@ && o.name@ != "str"@
        && o.name@ != "()"@);
}

/// Law: nullable wrapping is idempotent. Lowering an optional of an optional
/// yields the same text as lowering the optional alone; the `" | null"`
/// suffix is never doubled.
pub proof fn lemma_option_lowering_idempotent(o2: TypeRef, use_bigint: bool)
    requires
        o2.name@ == "Option"@,
        o2.generics@.len() == 1,
        o2.generics@[0].name@ == "Option"@,
        o2.generics@[0].generics@.len() == 1,
    ensures
        spec_lower(o2, use_bigint) == spec_lower(o2.generics@[0], use_bigint),
{
    let o1 = o2.generics@[0];
    let t = o1.generics@[0];
    lemma_option_lowering(o1, use_bigint);
    lemma_option_lowering(o2, use_bigint);
    if !spec_ends_with(spec_lower(t, use_bigint), " | null"@) {
        let a = spec_lower(t, use_bigint);
        assert((a + " | null"@).skip(a.len() as int) =~= " | null"@);
        assert(spec_ends_with(spec_lower(o1, use_bigint), " | null"@));
    } else {
        assert(spec_ends_with(spec_lower(o1, use_bigint), " | null"@));
    }
}

/// Law: the forms of externally tagged variants. Under the external
/// representation, a unit variant renders as its quoted name, a one-element
/// tuple variant as a one-key object over the lowered payload, and a struct
/// variant as a one-key object over an inline object type.
pub proof fn lemma_external_variant_forms(v: EnumVariant, use_bigint: bool)
    ensures
        v.content is Unit ==> spec_variant_text(v, EnumRepresentation::External, use_bigint)
            == "\""@ + v.name@ + "\""@,
        (v.content is Tuple && v.content->Tuple_0@.len() == 1) ==> spec_variant_text(
            v,
            EnumRepresentation::External,
            use_bigint,
        ) == "{ \""@ + v.name@ + "\": "@ + spec_lower(v.content->Tuple_0@[0], use_bigint)
            + " }"@,
        v.content is Struct ==> spec_variant_text(v, EnumRepresentation::External, use_bigint)
            == "{ \""@ + v.name@ + "\": { "@ + spec_join(
            spec_variant_field_parts(v.content->Struct_0@, use_bigint),
            "; "@,
        ) + " } }"@,
{
}

/// Law: the branded helper is emitted exactly once per batch. The output
/// decomposes into the import header, one helper segment, the declaration
/// blocks and the schema tail; the helper segment is the helper text when
/// branding is on and at least one node is branded, and empty otherwise —
/// it does not depend on how many branded newtypes the batch holds.
pub proof fn lemma_brand_helper_once(types: Seq<GearMeshType>, cfg: GeneratorConfig)
    ensures
        spec_generate(types, cfg) == spec_zod_import(cfg) + spec_brand_helper_block(types, cfg)
            + spec_concat(spec_decl_blocks(types, cfg)) + spec_zod_tail(types, cfg),
        (cfg.generate_branded && spec_any_branded(types)) ==> spec_brand_helper_block(types, cfg)
            == spec_brand_helper_line(),
        !(cfg.generate_branded && spec_any_branded(types)) ==> spec_brand_helper_block(types, cfg)
            == Seq::<char>::empty(),
{
}

// ---------------------------------------------------------------------------
// Name-collision detection
// ---------------------------------------------------------------------------

/// The name of the first node (smallest index) whose name already occurred
/// earlier in the batch, scanning from position `j`.
pub open spec fn spec_first_dup_from(types: Seq<GearMeshType>, j: int) -> Option<Seq<char>>
    decreases types.len() - j,
{
    if j < 0 || j >= types.len() {
        None
    } else if exists|i: int| 0 <= i < j && (#[trigger] types[i]).name@ == types[j].name@ {
        Some(types[j].name@)
    } else {
        spec_first_dup_from(types, j + 1)
    }
}

/// The first duplicated name of a batch, if any.
pub open spec fn spec_find_duplicate(types: Seq<GearMeshType>) -> Option<Seq<char>> {
    spec_first_dup_from(types, 0)
}

/// A batch has no duplicate exactly when its names are pairwise distinct.
pub proof fn lemma_no_duplicate_means_distinct(types: Seq<GearMeshType>)
    ensures
        (spec_find_duplicate(types) is None) <==> (forall|i: int, j: int|
            0 <= i < j < types.len() ==> (#[trigger] types[i]).name@ != (#[trigger] types[j]).name@),
{
    lemma_first_dup_from_none(types, 0);
}

proof fn lemma_first_dup_from_none(types: Seq<GearMeshType>, j: int)
    requires
        0 <= j <= types.len(),
    ensures
        (spec_first_dup_from(types, j) is None) <==> (forall|i1: int, i2: int|
            0 <= i1 < i2 < types.len() && j <= i2 ==> (#[trigger] types[i1]).name@ != (
            #[trigger] types[i2]).name@),
    decreases types.len() - j,
{
    if j < types.len() {
        lemma_first_dup_from_none(types, j + 1);
    }
}

/// The first name two nodes of the batch share, or nothing when every node
/// name is unique. Lowering a batch with a shared name would produce
/// ambiguous duplicate declarations, so this is checked before any text is
/// emitted.
pub fn find_duplicate_name(types: &[GearMeshType]) -> (r: Option<String>)
    ensures
        match spec_find_duplicate(types@) {
            Some(n) => r is Some && r->0@ == n,
            None => r is None,
        },
{
    let n: usize = types.len();
    let mut j: usize = 0;
    while j < n
        invariant
            j <= n,
            n == types@.len(),
            spec_find_duplicate(types@) == spec_first_dup_from(types@, j as int),
            forall|i1: int, i2: int|
                0 <= i1 < i2 < j ==> (#[trigger] types@[i1]).name@ != (
                #[trigger] types@[i2]).name@,
        decreases n - j,
    {
        let mut i: usize = 0;
        while i < j
            invariant
                i <= j < n == types@.len(),
                spec_find_duplicate(types@) == spec_first_dup_from(types@, j as int),
                forall|k: int| 0 <= k < i ==> (#[trigger] types@[k]).name@ != types@[j as int].name@,
            decreases j - i,
        {
            if str_eq(types[i].name.as_str(), types[j].name.as_str()) {
                proof {
                    assert(types@[i as int].name@ == types@[j as int].name@);
                    assert(spec_first_dup_from(types@, j as int) == Some(types@[j as int].name@));
                }
                return Some(types[j].name.clone());
            }
            i = i + 1;
        }
        proof {
            assert(forall|k: int|
                0 <= k < j ==> (#[trigger] types@[k]).name@ != types@[j as int].name@);
            assert(spec_first_dup_from(types@, j as int) == spec_first_dup_from(
                types@,
                j as int + 1,
            ));
        }
        j = j + 1;
    }
    proof {
        assert(spec_first_dup_from(types@, n as int) is None);
    }
    None
}

impl TypeScriptGenerator {
    /// Renders the batch after checking the one input-shape error lowering
    /// rejects: two nodes sharing a name. On a collision the duplicated name
    /// comes back as the error and nothing is emitted; otherwise the result
    /// is the single-file output.
    pub fn generate_checked(&mut self, types: &[GearMeshType]) -> (r: Result<String, String>)
        ensures
            match r {
                Ok(out) => spec_find_duplicate(types@) is None && out@ == spec_generate(
                    types@,
                    old(self).config,
                ) && final(self).output@ == out@ && final(self).config == old(self).config,
                Err(name) => spec_find_duplicate(types@) is Some && name@ == spec_find_duplicate(
                    types@,
                )->0 && *final(self) == *old(self),
            },
    {
        match find_duplicate_name(types) {
            Some(name) => Err(name),
            None => Ok(self.generate(types)),
        }
    }
}

} // verus!
