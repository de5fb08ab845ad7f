//! The validation emitter: Zod schema objects and imperative type guards
//! for validated structs.

use vstd::prelude::*;

use crate::branded::{spec_typeof, typescript_typeof};
use crate::config::GeneratorConfig;
use crate::text::{
    lemma_concat_take_succ, spec_concat, spec_ends_with, str_ends_with, str_eq,
};
use crate::types::{FieldInfo, GearMeshType, StructType, TypeKind, TypeRef};
use crate::typescript::{lower_type_ref, spec_is_wide_name, spec_lower};
use crate::utils::{is_bigint_type, is_builtin_type, spec_is_builtin};
use crate::validation::{spec_ts_check, spec_zod_rule, ValidationRule};

verus! {

/// The Zod primitive for a scalar type name.
pub open spec fn spec_zod_primitive(n: Seq<char>, use_bigint: bool) -> Seq<char> {
    if n == "i8"@ || n == "i16"@ || n == "i32"@ || n == "u8"@ || n == "u16"@ || n == "u32"@ || n
        == "f32"@ || n == "f64"@ {
        "z.number()"@
    } else if spec_is_wide_name(n) {
        if use_bigint {
            "z.bigint()"@
        } else {
            "z.number()"@
        }
    } else if n == "String"@ || n == "str"@ || n == "char"@ {
        "z.string()"@
    } else if n == "bool"@ {
        "z.boolean()"@
    } else {
        "z.unknown()"@
    }
}

/// The Zod schema expression for a type reference: arrays, nullables,
/// records and sets recurse; other built-in names take their primitive; a
/// custom name refers to its schema by the `<Name>Schema` convention.
pub open spec fn spec_type_zod(t: TypeRef, use_bigint: bool) -> Seq<char>
    decreases t,
{
    let n = t.name@;
    if spec_is_builtin(n) {
        if n == "Vec"@ || n == "Array"@ {
            if t.generics@.len() > 0 {
                "z.array("@ + spec_type_zod(t.generics@[0], use_bigint) + ")"@
            } else {
                "z.array(z.unknown())"@
            }
        } else if n == "Option"@ {
            if t.generics@.len() > 0 {
                let inner = spec_type_zod(t.generics@[0], use_bigint);
                if spec_ends_with(inner, ".nullable()"@) {
                    inner
                } else {
                    inner + ".nullable()"@
                }
            } else {
                "z.unknown().nullable()"@
            }
        } else if n == "HashMap"@ || n == "BTreeMap"@ {
            let v = if t.generics@.len() >= 2 {
                spec_type_zod(t.generics@[1], use_bigint)
            } else {
                "z.unknown()"@
            };
            "z.record("@ + v + ")"@
        } else if n == "HashSet"@ || n == "BTreeSet"@ {
            if t.generics@.len() > 0 {
                "z.set("@ + spec_type_zod(t.generics@[0], use_bigint) + ")"@
            } else {
                "z.set(z.unknown())"@
            }
        } else {
            spec_zod_primitive(n, use_bigint)
        }
    } else {
        n + "Schema"@
    }
}

/// The constraint suffix of each rule, under the bigint decision `big`.
pub open spec fn spec_rule_parts(rs: Seq<ValidationRule>, big: bool) -> Seq<Seq<char>> {
    Seq::new(rs.len(), |i: int| spec_zod_rule(rs[i], big))
}

/// The Zod expression for one field: the base schema of its (unwrapped)
/// type, then every constraint in rule order, then `.nullable()` for an
/// optional field — constraints always precede the nullable suffix.
pub open spec fn spec_field_zod(f: FieldInfo, cfg: GeneratorConfig) -> Seq<char> {
    let target = if f.ty.name@ == "Option"@ && f.ty.generics@.len() > 0 {
        f.ty.generics@[0]
    } else {
        f.ty
    };
    let big = cfg.use_bigint && spec_is_wide_name(target.name@);
    spec_type_zod(target, cfg.use_bigint) + spec_concat(spec_rule_parts(f.validations@, big)) + (
    if f.optional {
        ".nullable()"@
    } else {
        Seq::<char>::empty()
    })
}

/// One schema member line per field.
pub open spec fn spec_schema_field_lines(fs: Seq<FieldInfo>, cfg: GeneratorConfig) -> Seq<
    Seq<char>,
> {
    Seq::new(fs.len(), |i: int| "    "@ + fs[i].name@ + ": "@ + spec_field_zod(fs[i], cfg) + ",\n"@)
}

/// The exported Zod object schema for a struct.
pub open spec fn spec_struct_schema(name: Seq<char>, s: StructType, cfg: GeneratorConfig) -> Seq<
    char,
> {
    "export const "@ + name + "Schema = z.object({\n"@ + spec_concat(
        spec_schema_field_lines(s.fields@, cfg),
    ) + "});\n"@
}

/// The `|| !(<rule-check>)` pieces of a guard condition.
pub open spec fn spec_guard_rule_parts(rs: Seq<ValidationRule>, fname: Seq<char>) -> Seq<
    Seq<char>,
> {
    Seq::new(rs.len(), |i: int| " || !("@ + spec_ts_check(rs[i], fname) + ")"@)
}

/// The guard lines for one field: nothing without rules; otherwise one
/// rejection line over a `typeof` check and every rule, wrapped in a
/// presence test when the field is optional so that an absent optional
/// field skips validation.
pub open spec fn spec_guard_field(f: FieldInfo, use_bigint: bool) -> Seq<char> {
    if f.validations@.len() == 0 {
        Seq::<char>::empty()
    } else {
        let fname = if f.serde_attrs.rename is Some {
            f.serde_attrs.rename->0@
        } else {
            f.name@
        };
        let check = "    if (!(typeof obj."@ + fname + " === '"@ + spec_typeof(
            spec_lower(f.ty, use_bigint),
        ) + "')"@ + spec_concat(spec_guard_rule_parts(f.validations@, fname))
            + ") return false;\n"@;
        if f.optional {
            "    if (obj."@ + fname + " !== undefined && obj."@ + fname + " !== null) {\n    "@
                + check + "    }\n"@
        } else {
            check
        }
    }
}

pub open spec fn spec_guard_field_parts(fs: Seq<FieldInfo>, use_bigint: bool) -> Seq<Seq<char>> {
    Seq::new(fs.len(), |i: int| spec_guard_field(fs[i], use_bigint))
}

/// The exported boolean type guard for a struct: reject non-objects, check
/// every field that carries rules, accept the rest.
pub open spec fn spec_guard_text(name: Seq<char>, s: StructType, use_bigint: bool) -> Seq<char> {
    "export function validate"@ + name
        + "(obj: any): boolean {\n    if (typeof obj !== 'object' || obj === null) return false;\n"@
        + spec_concat(spec_guard_field_parts(s.fields@, use_bigint)) + "    return true;\n}\n"@
}

/// Emits Zod schemas and imperative guards.
pub struct ValidationGenerator {
    /// The active configuration.
    pub config: GeneratorConfig,
}

impl Default for ValidationGenerator {
    /// A generator over the default (all-off) configuration.
    fn default() -> (r: Self)
        ensures
            !r.config.use_bigint,
            !r.config.generate_zod,
    {
        Self::new(GeneratorConfig::default())
    }
}

impl ValidationGenerator {
    /// A generator with the given configuration.
    pub fn new(config: GeneratorConfig) -> (r: Self)
        ensures
            r.config == config,
    {
        Self { config }
    }

    /// The Zod object schema for a struct; nothing for any other shape.
    pub fn generate_zod_schema(&self, ty: &GearMeshType) -> (r: Option<String>)
        ensures
            match ty.kind {
                TypeKind::Struct(s) => r is Some && r->0@ == spec_struct_schema(
                    ty.name@,
                    s,
                    self.config,
                ),
                _ => r is None,
            },
    {
        match &ty.kind {
            TypeKind::Struct(s) => {
                let mut r = String::from_str("export const ");
                r.append(ty.name.as_str());
                r.append("Schema = z.object({\n");
                let ghost parts = spec_schema_field_lines(s.fields@, self.config);
                let ghost base = r@;
                proof {
                    assert(parts.take(0) =~= Seq::<Seq<char>>::empty());
                    assert(base + spec_concat(parts.take(0)) =~= base);
                }
                let n: usize = s.fields.len();
                let mut i: usize = 0;
                while i < n
                    invariant
                        i <= n,
                        n == s.fields@.len(),
                        parts == spec_schema_field_lines(s.fields@, self.config),
                        r@ == base + spec_concat(parts.take(i as int)),
                    decreases n - i,
                {
                    let ghost r0 = r@;
                    r.append("    ");
                    r.append(s.fields[i].name.as_str());
                    r.append(": ");
                    let fz = self.field_to_zod(&s.fields[i]);
                    r.append(fz.as_str());
                    r.append(",\n");
                    proof {
                        lemma_concat_take_succ(parts, i as int);
                        assert(r@ =~= r0 + parts[i as int]);
                        assert(base + (spec_concat(parts.take(i as int)) + parts[i as int]) =~= (
                        base + spec_concat(parts.take(i as int))) + parts[i as int]);
                    }
                    i = i + 1;
                }
                proof {
                    assert(parts.take(n as int) =~= parts);
                }
                r.append("});\n");
                proof {
                    assert(r@ =~= spec_struct_schema(ty.name@, ty.kind->Struct_0, self.config));
                }
                Some(r)
            },
            _ => None,
        }
    }

    /// The Zod expression for one field.
    fn field_to_zod(&self, field: &FieldInfo) -> (r: String)
        ensures
            r@ == spec_field_zod(*field, self.config),
    {
        let use_inner = str_eq(field.ty.name.as_str(), "Option") && field.ty.generics.len() > 0;
        let target: &TypeRef = if use_inner {
            &field.ty.generics[0]
        } else {
            &field.ty
        };
        let mut r = self.type_to_zod(target);
        let big = self.config.use_bigint && is_bigint_type(target.name.as_str());
        let ghost parts = spec_rule_parts(field.validations@, big);
        let ghost base = r@;
        proof {
            assert(parts.take(0) =~= Seq::<Seq<char>>::empty());
            assert(base + spec_concat(parts.take(0)) =~= base);
        }
        let n: usize = field.validations.len();
        let mut i: usize = 0;
        while i < n
            invariant
                i <= n,
                n == field.validations@.len(),
                parts == spec_rule_parts(field.validations@, big),
                r@ == base + spec_concat(parts.take(i as int)),
            decreases n - i,
        {
            let ghost r0 = r@;
            let piece = field.validations[i].to_zod_schema(big);
            r.append(piece.as_str());
            proof {
                lemma_concat_take_succ(parts, i as int);
                assert(r@ =~= r0 + parts[i as int]);
                assert(base + (spec_concat(parts.take(i as int)) + parts[i as int]) =~= (base
                    + spec_concat(parts.take(i as int))) + parts[i as int]);
            }
            i = i + 1;
        }
        proof {
            assert(parts.take(n as int) =~= parts);
        }
        if field.optional {
            r.append(".nullable()");
        }
        r
    }

    /// The Zod schema expression for a type reference.
    fn type_to_zod(&self, t: &TypeRef) -> (r: String)
        ensures
            r@ == spec_type_zod(*t, self.config.use_bigint),
        decreases *t,
    {
        let n = t.name.as_str();
        if is_builtin_type(n) {
            if str_eq(n, "Vec") || str_eq(n, "Array") {
                if t.generics.len() > 0 {
                    let inner = self.type_to_zod(&t.generics[0]);
                    let mut r = String::from_str("z.array(");
                    r.append(inner.as_str());
                    r.append(")");
                    r
                } else {
                    String::from_str("z.array(z.unknown())")
                }
            } else if str_eq(n, "Option") {
                if t.generics.len() > 0 {
                    let inner = self.type_to_zod(&t.generics[0]);
                    if str_ends_with(inner.as_str(), ".nullable()") {
                        inner
                    } else {
                        let mut r = inner;
                        r.append(".nullable()");
                        r
                    }
                } else {
                    String::from_str("z.unknown().nullable()")
                }
            } else if str_eq(n, "HashMap") || str_eq(n, "BTreeMap") {
                let v = if t.generics.len() >= 2 {
                    self.type_to_zod(&t.generics[1])
                } else {
                    String::from_str("z.unknown()")
                };
                let mut r = String::from_str("z.record(");
                r.append(v.as_str());
                r.append(")");
                r
            } else if str_eq(n, "HashSet") || str_eq(n, "BTreeSet") {
                if t.generics.len() > 0 {
                    let inner = self.type_to_zod(&t.generics[0]);
                    let mut r = String::from_str("z.set(");
                    r.append(inner.as_str());
                    r.append(")");
                    r
                } else {
                    String::from_str("z.set(z.unknown())")
                }
            } else {
                self.get_zod_primitive_type(n)
            }
        } else {
            let mut r = String::from_str(n);
            r.append("Schema");
            r
        }
    }

    /// The Zod primitive for a scalar type name.
    fn get_zod_primitive_type(&self, name: &str) -> (r: String)
        ensures
            r@ == spec_zod_primitive(name@, self.config.use_bigint),
    {
        let n = name;
        if str_eq(n, "i8") || str_eq(n, "i16") || str_eq(n, "i32") || str_eq(n, "u8") || str_eq(
            n,
            "u16",
        ) || str_eq(n, "u32") || str_eq(n, "f32") || str_eq(n, "f64") {
            String::from_str("z.number()")
        } else if str_eq(n, "i64") || str_eq(n, "i128") || str_eq(n, "u64") || str_eq(n, "u128")
            || str_eq(n, "isize") || str_eq(n, "usize") {
            if self.config.use_bigint {
                String::from_str("z.bigint()")
            } else {
                String::from_str("z.number()")
            }
        } else if str_eq(n, "String") || str_eq(n, "str") || str_eq(n, "char") {
            String::from_str("z.string()")
        } else if str_eq(n, "bool") {
            String::from_str("z.boolean()")
        } else {
            String::from_str("z.unknown()")
        }
    }

    /// The imperative boolean type guard for a struct named `name`.
    #[verifier::rlimit(100)]
    pub fn generate_guard(&self, name: &str, s: &StructType) -> (r: String)
        ensures
            r@ == spec_guard_text(name@, *s, self.config.use_bigint),
    {
        let mut r = String::from_str("export function validate");
        r.append(name);
        r.append("(obj: any): boolean {\n    if (typeof obj !== 'object' || obj === null) return false;\n");
        let ghost parts = spec_guard_field_parts(s.fields@, self.config.use_bigint);
        let ghost base = r@;
        proof {
            assert(parts.take(0) =~= Seq::<Seq<char>>::empty());
            assert(base + spec_concat(parts.take(0)) =~= base);
        }
        let n: usize = s.fields.len();
        let mut i: usize = 0;
        while i < n
            invariant
                i <= n,
                n == s.fields@.len(),
                parts == spec_guard_field_parts(s.fields@, self.config.use_bigint),
                r@ == base + spec_concat(parts.take(i as int)),
            decreases n - i,
        {
            let ghost r0 = r@;
            let f = &s.fields[i];
            if f.validations.len() > 0 {
                let fname: &String = match &f.serde_attrs.rename {
                    Some(re) => re,
                    None => &f.name,
                };
                let mut check = String::from_str("    if (!(typeof obj.");
                check.append(fname.as_str());
                check.append(" === '");
                let low = lower_type_ref(&f.ty, self.config.use_bigint);
                check.append(typescript_typeof(low.as_str()));
                check.append("')");
                let ghost rparts = spec_guard_rule_parts(f.validations@, fname@);
                let ghost cbase = check@;
                proof {
                    assert(rparts.take(0) =~= Seq::<Seq<char>>::empty());
                    assert(cbase + spec_concat(rparts.take(0)) =~= cbase);
                }
                let m: usize = f.validations.len();
                let mut k: usize = 0;
                while k < m
                    invariant
                        k <= m,
                        m == f.validations@.len(),
                        rparts == spec_guard_rule_parts(f.validations@, fname@),
                        check@ == cbase + spec_concat(rparts.take(k as int)),
                    decreases m - k,
                {
                    let ghost c0 = check@;
                    check.append(" || !(");
                    let rc = f.validations[k].to_typescript_check(fname.as_str());
                    check.append(rc.as_str());
                    check.append(")");
                    proof {
                        lemma_concat_take_succ(rparts, k as int);
                        assert(check@ =~= c0 + rparts[k as int]);
                        assert(cbase + (spec_concat(rparts.take(k as int)) + rparts[k as int]) =~= (
                        cbase + spec_concat(rparts.take(k as int))) + rparts[k as int]);
                    }
                    k = k + 1;
                }
                proof {
                    assert(rparts.take(m as int) =~= rparts);
                }
                check.append(") return false;\n");
                if f.optional {
                    r.append("    if (obj.");
                    r.append(fname.as_str());
                    r.append(" !== undefined && obj.");
                    r.append(fname.as_str());
                    r.append(" !== null) {\n    ");
                    r.append(check.as_str());
                    r.append("    }\n");
                } else {
                    r.append(check.as_str());
                }
            }
            proof {
                lemma_concat_take_succ(parts, i as int);
                assert(r@ =~= r0 + parts[i as int]);
                assert(base + (spec_concat(parts.take(i as int)) + parts[i as int]) =~= (base
                    + spec_concat(parts.take(i as int))) + parts[i as int]);
            }
            i = i + 1;
        }
        proof {
            assert(parts.take(n as int) =~= parts);
        }
        r.append("    return true;\n}\n");
        proof {
            assert(r@ =~= spec_guard_text(name@, *s, self.config.use_bigint));
        }
        r
    }
}

/// Law: validation ordering. For an optional field, the Zod expression is
/// the base schema, then the constraint chain in rule order, and the
/// `.nullable()` suffix last — a constraint never applies to the
/// union-with-null wrapper.
pub proof fn lemma_rules_before_nullable(f: FieldInfo, cfg: GeneratorConfig)
    requires
        f.optional,
    ensures
        ({
            let target = if f.ty.name@ == "Option"@ && f.ty.generics@.len() > 0 {
                f.ty.generics@[0]
            } else {
                f.ty
            };
            let big = cfg.use_bigint && spec_is_wide_name(target.name@);
            spec_field_zod(f, cfg) == (spec_type_zod(target, cfg.use_bigint) + spec_concat(
                spec_rule_parts(f.validations@, big),
            )) + ".nullable()"@
        }),
{
}

} // verus!
