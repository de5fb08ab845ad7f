//! The dependency extractor: the custom type names a node's fields and
//! payloads reach, for per-file imports.

use vstd::prelude::*;

use crate::text::str_eq;
use crate::types::{FieldInfo, GearMeshType, TypeKind, TypeRef, VariantContent};

verus! {

/// Primitive scalar names, never dependencies.
pub open spec fn spec_is_primitive_name(n: Seq<char>) -> bool {
    n == "String"@ || n == "str"@ || n == "bool"@ || n == "char"@ || n == "i8"@ || n == "i16"@ || n
        == "i32"@ || n == "i64"@ || n == "i128"@ || n == "isize"@ || n == "u8"@ || n == "u16"@ || n
        == "u32"@ || n == "u64"@ || n == "u128"@ || n == "usize"@ || n == "f32"@ || n == "f64"@
}

/// Container and smart-pointer names, never dependencies themselves.
pub open spec fn spec_is_container_name(n: Seq<char>) -> bool {
    n == "Vec"@ || n == "Option"@ || n == "Result"@ || n == "HashMap"@ || n == "HashSet"@ || n
        == "Box"@ || n == "Arc"@ || n == "Rc"@ || n == "Cow"@
}

/// The names collected from one reference, appended to `acc`: the
/// reference's own name if it is neither a container nor a primitive and not
/// already present, then the names of its generic arguments, in order.
pub open spec fn spec_collect_ref(t: TypeRef, acc: Seq<Seq<char>>) -> Seq<Seq<char>>
    decreases t,
{
    let acc1 = if !spec_is_container_name(t.name@) && !spec_is_primitive_name(t.name@)
        && !acc.contains(t.name@) {
        acc.push(t.name@)
    } else {
        acc
    };
    spec_collect_list(t.generics@, acc1)
}

pub open spec fn spec_collect_list(ts: Seq<TypeRef>, acc: Seq<Seq<char>>) -> Seq<Seq<char>>
    decreases ts,
{
    if ts.len() == 0 {
        acc
    } else {
        spec_collect_list(ts.drop_first(), spec_collect_ref(ts[0], acc))
    }
}

pub open spec fn spec_collect_fields(fs: Seq<FieldInfo>, acc: Seq<Seq<char>>) -> Seq<Seq<char>>
    decreases fs.len(),
{
    if fs.len() == 0 {
        acc
    } else {
        spec_collect_fields(fs.drop_first(), spec_collect_ref(fs[0].ty, acc))
    }
}

pub open spec fn spec_collect_variants(vs: Seq<crate::types::EnumVariant>, acc: Seq<Seq<char>>) -> Seq<
    Seq<char>,
>
    decreases vs.len(),
{
    if vs.len() == 0 {
        acc
    } else {
        let acc1 = match vs[0].content {
            VariantContent::Unit => acc,
            VariantContent::Tuple(ts) => spec_collect_list(ts@, acc),
            VariantContent::Struct(fs) => spec_collect_fields(fs@, acc),
        };
        spec_collect_variants(vs.drop_first(), acc1)
    }
}

/// The custom type names a node depends on, in first-reach order, without
/// duplicates: every name reachable through its fields or variant payloads
/// (generics included) that is neither a primitive nor a container keyword.
pub open spec fn spec_deps(ty: GearMeshType) -> Seq<Seq<char>> {
    match ty.kind {
        TypeKind::Struct(s) => spec_collect_fields(s.fields@, Seq::<Seq<char>>::empty()),
        TypeKind::Enum(e) => spec_collect_variants(e.variants@, Seq::<Seq<char>>::empty()),
        TypeKind::Newtype(nt) => spec_collect_ref(nt.inner, Seq::<Seq<char>>::empty()),
        _ => Seq::<Seq<char>>::empty(),
    }
}

fn is_primitive(name: &str) -> (r: bool)
    ensures
        r == spec_is_primitive_name(name@),
{
    str_eq(name, "String") || str_eq(name, "str") || str_eq(name, "bool") || str_eq(name, "char")
        || str_eq(name, "i8") || str_eq(name, "i16") || str_eq(name, "i32") || str_eq(name, "i64")
        || str_eq(name, "i128") || str_eq(name, "isize") || str_eq(name, "u8") || str_eq(
        name,
        "u16",
    ) || str_eq(name, "u32") || str_eq(name, "u64") || str_eq(name, "u128") || str_eq(
        name,
        "usize",
    ) || str_eq(name, "f32") || str_eq(name, "f64")
}

/// Whether some element of `deps` reads `name`.
fn contains_name(deps: &Vec<String>, name: &str) -> (r: bool)
    ensures
        r == deps.deep_view().contains(name@),
{
    let n: usize = deps.len();
    let mut i: usize = 0;
    while i < n
        invariant
            i <= n,
            n == deps@.len(),
            forall|k: int| 0 <= k < i ==> deps.deep_view()[k] != name@,
        decreases n - i,
    {
        if str_eq(deps[i].as_str(), name) {
            proof {
                assert(deps.deep_view()[i as int] == name@);
            }
            return true;
        }
        i = i + 1;
    }
    proof {
        assert(forall|k: int| 0 <= k < deps.deep_view().len() ==> deps.deep_view()[k] != name@);
    }
    false
}

fn collect_type_refs(ty_ref: &TypeRef, deps: &mut Vec<String>)
    ensures
        final(deps).deep_view() == spec_collect_ref(*ty_ref, old(deps).deep_view()),
    decreases *ty_ref,
{
    let n = ty_ref.name.as_str();
    let is_container = str_eq(n, "Vec") || str_eq(n, "Option") || str_eq(n, "Result") || str_eq(
        n,
        "HashMap",
    ) || str_eq(n, "HashSet") || str_eq(n, "Box") || str_eq(n, "Arc") || str_eq(n, "Rc") || str_eq(
        n,
        "Cow",
    );
    if !is_container && !is_primitive(n) && !contains_name(deps, n) {
        deps.push(String::from_str(n));
        proof {
            assert(deps.deep_view() =~= old(deps).deep_view().push(ty_ref.name@));
        }
    }
    let ghost acc1 = deps.deep_view();
    let gn: usize = ty_ref.generics.len();
    let mut i: usize = 0;
    proof {
        assert(ty_ref.generics@.skip(0) =~= ty_ref.generics@);
    }
    while i < gn
        invariant
            i <= gn,
            gn == ty_ref.generics@.len(),
            spec_collect_list(ty_ref.generics@, acc1) == spec_collect_list(
                ty_ref.generics@.skip(i as int),
                deps.deep_view(),
            ),
        decreases gn - i,
    {
        proof {
            let rest = ty_ref.generics@.skip(i as int);
            assert(rest[0] == ty_ref.generics@[i as int]);
            assert(rest.drop_first() =~= ty_ref.generics@.skip(i as int + 1));
        }
        collect_type_refs(&ty_ref.generics[i], deps);
        i = i + 1;
    }
    proof {
        assert(ty_ref.generics@.skip(gn as int) =~= Seq::<TypeRef>::empty());
    }
}

/// Every custom type name `ty` references, in first-reach order and without
/// duplicates. A node never lists itself here solely by having its own name;
/// a self-reference in a field is collected like any other custom name and
/// is excluded by the import writer.
pub fn extract_type_dependencies(ty: &GearMeshType) -> (r: Vec<String>)
    ensures
        r.deep_view() == spec_deps(*ty),
{
    let mut deps: Vec<String> = Vec::new();
    proof {
        assert(deps.deep_view() =~= Seq::<Seq<char>>::empty());
    }
    match &ty.kind {
        TypeKind::Struct(s) => {
            let n: usize = s.fields.len();
            let mut i: usize = 0;
            proof {
                assert(s.fields@.skip(0) =~= s.fields@);
            }
            while i < n
                invariant
                    i <= n,
                    n == s.fields@.len(),
                    spec_collect_fields(s.fields@, Seq::<Seq<char>>::empty())
                        == spec_collect_fields(s.fields@.skip(i as int), deps.deep_view()),
                decreases n - i,
            {
                proof {
                    let rest = s.fields@.skip(i as int);
                    assert(rest[0] == s.fields@[i as int]);
                    assert(rest.drop_first() =~= s.fields@.skip(i as int + 1));
                }
                collect_type_refs(&s.fields[i].ty, &mut deps);
                i = i + 1;
            }
            proof {
                assert(s.fields@.skip(n as int) =~= Seq::<FieldInfo>::empty());
            }
        },
        TypeKind::Enum(e) => {
            let n: usize = e.variants.len();
            let mut i: usize = 0;
            proof {
                assert(e.variants@.skip(0) =~= e.variants@);
            }
            while i < n
                invariant
                    i <= n,
                    n == e.variants@.len(),
                    spec_collect_variants(e.variants@, Seq::<Seq<char>>::empty())
                        == spec_collect_variants(e.variants@.skip(i as int), deps.deep_view()),
                decreases n - i,
            {
                proof {
                    let rest = e.variants@.skip(i as int);
                    assert(rest[0] == e.variants@[i as int]);
                    assert(rest.drop_first() =~= e.variants@.skip(i as int + 1));
                }
                match &e.variants[i].content {
                    VariantContent::Tuple(types) => {
                        let ghost acc0 = deps.deep_view();
                        let m: usize = types.len();
                        let mut k: usize = 0;
                        proof {
                            assert(types@.skip(0) =~= types@);
                        }
                        while k < m
                            invariant
                                k <= m,
                                m == types@.len(),
                                spec_collect_list(types@, acc0) == spec_collect_list(
                                    types@.skip(k as int),
                                    deps.deep_view(),
                                ),
                            decreases m - k,
                        {
                            proof {
                                let rest = types@.skip(k as int);
                                assert(rest[0] == types@[k as int]);
                                assert(rest.drop_first() =~= types@.skip(k as int + 1));
                            }
                            collect_type_refs(&types[k], &mut deps);
                            k = k + 1;
                        }
                        proof {
                            assert(types@.skip(m as int) =~= Seq::<TypeRef>::empty());
                        }
                    },
                    VariantContent::Struct(fields) => {
                        let ghost acc0 = deps.deep_view();
                        let m: usize = fields.len();
                        let mut k: usize = 0;
                        proof {
                            assert(fields@.skip(0) =~= fields@);
                        }
                        while k < m
                            invariant
                                k <= m,
                                m == fields@.len(),
                                spec_collect_fields(fields@, acc0) == spec_collect_fields(
                                    fields@.skip(k as int),
                                    deps.deep_view(),
                                ),
                            decreases m - k,
                        {
                            proof {
                                let rest = fields@.skip(k as int);
                                assert(rest[0] == fields@[k as int]);
                                assert(rest.drop_first() =~= fields@.skip(k as int + 1));
                            }
                            collect_type_refs(&fields[k].ty, &mut deps);
                            k = k + 1;
                        }
                        proof {
                            assert(fields@.skip(m as int) =~= Seq::<FieldInfo>::empty());
                        }
                    },
                    VariantContent::Unit => {},
                }
                i = i + 1;
            }
            proof {
                assert(e.variants@.skip(n as int) =~= Seq::<crate::types::EnumVariant>::empty());
            }
        },
        TypeKind::Newtype(nt) => {
            collect_type_refs(&nt.inner, &mut deps);
        },
        _ => {},
    }
    deps
}

/// No name occurs twice in `s`.
pub open spec fn spec_nodup(s: Seq<Seq<char>>) -> bool {
    forall|i: int, j: int| 0 <= i < j < s.len() ==> s[i] != s[j]
}

proof fn lemma_collect_ref_nodup(t: TypeRef, acc: Seq<Seq<char>>)
    requires
        spec_nodup(acc),
    ensures
        spec_nodup(spec_collect_ref(t, acc)),
    decreases t,
{
    let acc1 = if !spec_is_container_name(t.name@) && !spec_is_primitive_name(t.name@)
        && !acc.contains(t.name@) {
        acc.push(t.name@)
    } else {
        acc
    };
    assert(spec_nodup(acc1)) by {
        if acc1 != acc {
            assert(forall|i: int| 0 <= i < acc.len() ==> acc[i] != t.name@);
        }
    }
    lemma_collect_list_nodup(t.generics@, acc1);
}

proof fn lemma_collect_list_nodup(ts: Seq<TypeRef>, acc: Seq<Seq<char>>)
    requires
        spec_nodup(acc),
    ensures
        spec_nodup(spec_collect_list(ts, acc)),
    decreases ts,
{
    if ts.len() > 0 {
        lemma_collect_ref_nodup(ts[0], acc);
        lemma_collect_list_nodup(ts.drop_first(), spec_collect_ref(ts[0], acc));
    }
}

proof fn lemma_collect_fields_nodup(fs: Seq<FieldInfo>, acc: Seq<Seq<char>>)
    requires
        spec_nodup(acc),
    ensures
        spec_nodup(spec_collect_fields(fs, acc)),
    decreases fs.len(),
{
    if fs.len() > 0 {
        lemma_collect_ref_nodup(fs[0].ty, acc);
        lemma_collect_fields_nodup(fs.drop_first(), spec_collect_ref(fs[0].ty, acc));
    }
}

proof fn lemma_collect_variants_nodup(vs: Seq<crate::types::EnumVariant>, acc: Seq<Seq<char>>)
    requires
        spec_nodup(acc),
    ensures
        spec_nodup(spec_collect_variants(vs, acc)),
    decreases vs.len(),
{
    if vs.len() > 0 {
        let acc1 = match vs[0].content {
            VariantContent::Unit => acc,
            VariantContent::Tuple(ts) => spec_collect_list(ts@, acc),
            VariantContent::Struct(fs) => spec_collect_fields(fs@, acc),
        };
        match vs[0].content {
            VariantContent::Unit => {},
            VariantContent::Tuple(ts) => {
                lemma_collect_list_nodup(ts@, acc);
            },
            VariantContent::Struct(fs) => {
                lemma_collect_fields_nodup(fs@, acc);
            },
        }
        lemma_collect_variants_nodup(vs.drop_first(), acc1);
    }
}

/// Law: the dependency list is a set — no name is listed twice, however
/// often the node's fields and payloads reach it.
pub proof fn lemma_deps_unique(ty: GearMeshType)
    ensures
        spec_nodup(spec_deps(ty)),
{
    match ty.kind {
        TypeKind::Struct(s) => {
            lemma_collect_fields_nodup(s.fields@, Seq::<Seq<char>>::empty());
        },
        TypeKind::Enum(e) => {
            lemma_collect_variants_nodup(e.variants@, Seq::<Seq<char>>::empty());
        },
        TypeKind::Newtype(nt) => {
            lemma_collect_ref_nodup(nt.inner, Seq::<Seq<char>>::empty());
        },
        _ => {},
    }
}

} // verus!
