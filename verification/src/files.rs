//! Per-file output: one file per node with explicit imports for its
//! dependencies, and an index file re-exporting every node.

use vstd::prelude::*;

use crate::config::GeneratorConfig;
use crate::text::{lemma_concat_take_succ, spec_concat, str_eq};
use crate::type_deps::{extract_type_dependencies, spec_deps};
use crate::types::{GearMeshType, TypeKind};
use crate::typescript::{spec_any_branded, spec_type_decl, TypeScriptGenerator};
use crate::validation_gen::{spec_struct_schema, ValidationGenerator};

verus! {

// ---------------------------------------------------------------------------
// Sorting dependency names
// ---------------------------------------------------------------------------

/// Lexicographic order on character sequences, by code point.
pub open spec fn spec_lex_le(a: Seq<char>, b: Seq<char>) -> bool
    decreases a.len(),
{
    if a.len() == 0 {
        true
    } else if b.len() == 0 {
        false
    } else if (a[0] as u32) < (b[0] as u32) {
        true
    } else if (a[0] as u32) > (b[0] as u32) {
        false
    } else {
        spec_lex_le(a.drop_first(), b.drop_first())
    }
}

/// `x` placed before the first element of `s` it precedes.
pub open spec fn spec_sorted_insert(x: Seq<char>, s: Seq<Seq<char>>) -> Seq<Seq<char>>
    decreases s.len(),
{
    if s.len() == 0 {
        seq![x]
    } else if spec_lex_le(x, s[0]) {
        seq![x] + s
    } else {
        seq![s[0]] + spec_sorted_insert(x, s.drop_first())
    }
}

/// `s` sorted by insertion, element by element.
pub open spec fn spec_sort(s: Seq<Seq<char>>) -> Seq<Seq<char>>
    decreases s.len(),
{
    if s.len() == 0 {
        Seq::<Seq<char>>::empty()
    } else {
        spec_sorted_insert(s.last(), spec_sort(s.drop_last()))
    }
}

/// Whether `a` precedes or equals `b` in lexicographic order.
fn str_lex_le(a: &str, b: &str) -> (r: bool)
    ensures
        r == spec_lex_le(a@, b@),
{
    let na: usize = a.unicode_len();
    let nb: usize = b.unicode_len();
    let mut i: usize = 0;
    proof {
        assert(a@.skip(0) =~= a@);
        assert(b@.skip(0) =~= b@);
    }
    while i < na && i < nb
        invariant
            i <= na,
            i <= nb,
            na == a@.len(),
            nb == b@.len(),
            spec_lex_le(a@, b@) == spec_lex_le(a@.skip(i as int), b@.skip(i as int)),
        decreases na - i,
    {
        let ca = a.get_char(i);
        let cb = b.get_char(i);
        proof {
            let ra = a@.skip(i as int);
            let rb = b@.skip(i as int);
            assert(ra[0] == a@[i as int]);
            assert(rb[0] == b@[i as int]);
            assert(ra.drop_first() =~= a@.skip(i as int + 1));
            assert(rb.drop_first() =~= b@.skip(i as int + 1));
        }
        if (ca as u32) < (cb as u32) {
            return true;
        }
        if (ca as u32) > (cb as u32) {
            return false;
        }
        i = i + 1;
    }
    proof {
        if i >= na {
            assert(a@.skip(i as int).len() == 0);
        } else {
            assert(b@.skip(i as int).len() == 0);
            assert(a@.skip(i as int).len() > 0);
        }
    }
    na <= nb
}

/// `names` sorted lexicographically.
pub fn sort_names(names: &Vec<String>) -> (r: Vec<String>)
    ensures
        r.deep_view() == spec_sort(names.deep_view()),
{
    let ghost dv = names.deep_view();
    let mut out: Vec<String> = Vec::new();
    proof {
        assert(dv.take(0) =~= Seq::<Seq<char>>::empty());
        assert(out.deep_view() =~= spec_sort(dv.take(0)));
    }
    let n: usize = names.len();
    let mut k: usize = 0;
    while k < n
        invariant
            k <= n,
            n == names@.len(),
            dv == names.deep_view(),
            out.deep_view() == spec_sort(dv.take(k as int)),
        decreases n - k,
    {
        let x = names[k].clone();
        let ghost before = out.deep_view();
        let m: usize = out.len();
        let mut j: usize = 0;
        proof {
            assert(before.skip(0) =~= before);
            assert(before.take(0) =~= Seq::<Seq<char>>::empty());
            assert(before.take(0) + spec_sorted_insert(x@, before.skip(0)) =~= spec_sorted_insert(
                x@,
                before,
            ));
        }
        while j < m && !str_lex_le(x.as_str(), out[j].as_str())
            invariant
                j <= m,
                m == out@.len(),
                out.deep_view() == before,
                x@ == dv[k as int],
                k < n,
                spec_sorted_insert(x@, before) == before.take(j as int) + spec_sorted_insert(
                    x@,
                    before.skip(j as int),
                ),
            decreases m - j,
        {
            proof {
                let rest = before.skip(j as int);
                assert(rest[0] == before[j as int]);
                assert(rest.drop_first() =~= before.skip(j as int + 1));
                assert(spec_sorted_insert(x@, rest) == seq![rest[0]] + spec_sorted_insert(
                    x@,
                    rest.drop_first(),
                ));
                assert(before.take(j as int) + (seq![before[j as int]] + spec_sorted_insert(
                    x@,
                    before.skip(j as int + 1),
                )) =~= before.take(j as int + 1) + spec_sorted_insert(
                    x@,
                    before.skip(j as int + 1),
                ));
            }
            j = j + 1;
        }
        out.insert(j, x);
        proof {
            let rest = before.skip(j as int);
            if j < m {
                assert(spec_sorted_insert(x@, rest) == seq![x@] + rest);
            } else {
                assert(rest.len() == 0);
                assert(spec_sorted_insert(x@, rest) == seq![x@]);
            }
            assert(out.deep_view() =~= before.take(j as int) + spec_sorted_insert(x@, rest));
            assert(out.deep_view() == spec_sorted_insert(x@, before));
            assert(dv.take(k as int + 1).last() == dv[k as int]);
            assert(dv.take(k as int + 1).drop_last() =~= dv.take(k as int));
        }
        k = k + 1;
    }
    proof {
        assert(dv.take(n as int) =~= dv);
    }
    out
}

// ---------------------------------------------------------------------------
// Per-file and index texts
// ---------------------------------------------------------------------------

/// One `import type` line per dependency, in the given order, with the
/// node's own name skipped.
pub open spec fn spec_import_lines(deps: Seq<Seq<char>>, self_name: Seq<char>) -> Seq<Seq<char>> {
    Seq::new(
        deps.len(),
        |i: int|
            if deps[i] == self_name {
                Seq::<char>::empty()
            } else {
                "import type { "@ + deps[i] + " } from './"@ + deps[i] + "';\n"@
            },
    )
}

/// The text of one node's own output file: the Zod import when schemas are
/// on, one import line per dependency in alphabetical order (the node itself
/// excluded), the node's local branded helper when it needs one, its
/// declaration, and its schema when schemas are on.
pub open spec fn spec_type_file(ty: GearMeshType, cfg: GeneratorConfig) -> Seq<char> {
    (if cfg.generate_zod {
        "import { z } from 'zod';\n"@
    } else {
        Seq::<char>::empty()
    }) + spec_concat(spec_import_lines(spec_sort(spec_deps(ty)), ty.name@)) + (if spec_deps(
        ty,
    ).len() > 0 {
        "\n"@
    } else {
        Seq::<char>::empty()
    }) + (if cfg.generate_branded && ty.attributes.branded {
        "\n// Branded Type helper\n"@ + "type Brand<T, B> = T & { readonly __brand: B };\n"@
    } else {
        Seq::<char>::empty()
    }) + "\n"@ + spec_type_decl(ty, cfg) + (if cfg.generate_zod {
        match ty.kind {
            TypeKind::Struct(s) => "\n// Zod Schema\n\n"@ + spec_struct_schema(ty.name@, s, cfg),
            _ => Seq::<char>::empty(),
        }
    } else {
        Seq::<char>::empty()
    })
}

/// The text of the index file: a banner, the shared branded helper once if
/// any node needs it, and one re-export line per node.
pub open spec fn spec_index_text(types: Seq<GearMeshType>) -> Seq<char> {
    "// Auto-generated index file\n// Re-exports all types\n\n"@ + (if spec_any_branded(types) {
        "// Branded Type helper\n"@ + "type Brand<T, B> = T & { readonly __brand: B };\n\n"@
    } else {
        Seq::<char>::empty()
    }) + spec_concat(
        Seq::new(types.len(), |i: int| "export * from './"@ + types[i].name@ + "';\n"@),
    )
}

/// Renders the output file for one node.
#[verifier::rlimit(100)]
pub fn render_type_file(ty: &GearMeshType, config: &GeneratorConfig) -> (r: String)
    ensures
        r@ == spec_type_file(*ty, *config),
{
    let mut r = String::new();
    let ghost g_zod = if config.generate_zod {
        "import { z } from 'zod';\n"@
    } else {
        Seq::<char>::empty()
    };
    if config.generate_zod {
        r.append("import { z } from 'zod';\n");
    }
    proof {
        assert(r@ =~= g_zod);
    }
    let deps = extract_type_dependencies(ty);
    let sorted = sort_names(&deps);
    let ghost parts = spec_import_lines(spec_sort(spec_deps(*ty)), ty.name@);
    let ghost base = r@;
    proof {
        assert(parts.take(0) =~= Seq::<Seq<char>>::empty());
        assert(base + spec_concat(parts.take(0)) =~= base);
    }
    let n: usize = sorted.len();
    let mut i: usize = 0;
    while i < n
        invariant
            i <= n,
            n == sorted@.len(),
            sorted.deep_view() == spec_sort(spec_deps(*ty)),
            parts == spec_import_lines(spec_sort(spec_deps(*ty)), ty.name@),
            parts.len() == n,
            r@ == base + spec_concat(parts.take(i as int)),
        decreases n - i,
    {
        let ghost r0 = r@;
        if !str_eq(sorted[i].as_str(), ty.name.as_str()) {
            r.append("import type { ");
            r.append(sorted[i].as_str());
            r.append(" } from './");
            r.append(sorted[i].as_str());
            r.append("';\n");
        }
        proof {
            assert(sorted@[i as int]@ == sorted.deep_view()[i as int]);
            lemma_concat_take_succ(parts, i as int);
            assert(r@ =~= r0 + parts[i as int]);
            assert(base + (spec_concat(parts.take(i as int)) + parts[i as int]) =~= (base
                + spec_concat(parts.take(i as int))) + parts[i as int]);
        }
        i = i + 1;
    }
    proof {
        assert(parts.take(n as int) =~= parts);
        assert(r@ =~= g_zod + spec_concat(parts));
    }
    let ghost g_blank = if spec_deps(*ty).len() > 0 {
        "\n"@
    } else {
        Seq::<char>::empty()
    };
    if deps.len() > 0 {
        r.append("\n");
    }
    proof {
        assert(deps.deep_view().len() == deps@.len());
        assert(r@ =~= g_zod + spec_concat(parts) + g_blank);
    }
    let ghost g_helper = if config.generate_branded && ty.attributes.branded {
        "\n// Branded Type helper\n"@ + "type Brand<T, B> = T & { readonly __brand: B };\n"@
    } else {
        Seq::<char>::empty()
    };
    if config.generate_branded && ty.attributes.branded {
        r.append("\n// Branded Type helper\n");
        r.append("type Brand<T, B> = T & { readonly __brand: B };\n");
    }
    r.append("\n");
    proof {
        assert(r@ =~= g_zod + spec_concat(parts) + g_blank + g_helper + "\n"@);
    }
    let mut generator = TypeScriptGenerator::new(config.clone());
    generator.generate_type(ty);
    r.append(generator.output.as_str());
    proof {
        assert(r@ =~= g_zod + spec_concat(parts) + g_blank + g_helper + "\n"@ + spec_type_decl(
            *ty,
            *config,
        ));
    }
    let ghost g_schema = if config.generate_zod && ty.kind is Struct {
        "\n// Zod Schema\n\n"@ + spec_struct_schema(ty.name@, ty.kind->Struct_0, *config)
    } else {
        Seq::<char>::empty()
    };
    if config.generate_zod {
        let validator = ValidationGenerator::new(config.clone());
        if let Some(schema) = validator.generate_zod_schema(ty) {
            r.append("\n// Zod Schema\n\n");
            r.append(schema.as_str());
        }
    }
    proof {
        assert(r@ =~= g_zod + spec_concat(parts) + g_blank + g_helper + "\n"@ + spec_type_decl(
            *ty,
            *config,
        ) + g_schema);
        assert(r@ =~= spec_type_file(*ty, *config));
    }
    r
}

/// Renders the index file for a batch.
pub fn render_index(types: &[GearMeshType]) -> (r: String)
    ensures
        r@ == spec_index_text(types@),
{
    let mut r = String::from_str("// Auto-generated index file\n// Re-exports all types\n\n");
    let n: usize = types.len();
    let mut any_branded = false;
    let mut i: usize = 0;
    while i < n
        invariant
            i <= n,
            n == types@.len(),
            any_branded == spec_any_branded(types@.take(i as int)),
        decreases n - i,
    {
        if types[i].attributes.branded {
            any_branded = true;
        }
        proof {
            if any_branded {
                if types@[i as int].attributes.branded {
                    assert(types@.take(i as int + 1)[i as int].attributes.branded);
                } else {
                    let w = choose|k: int|
                        0 <= k < i && (#[trigger] types@.take(i as int)[k]).attributes.branded;
                    assert(types@.take(i as int + 1)[w].attributes.branded);
                }
            } else {
                assert(forall|k: int|
                    0 <= k < i + 1 ==> !(#[trigger] types@.take(
                        i as int + 1,
                    )[k]).attributes.branded) by {
                    assert(forall|k: int|
                        0 <= k < i ==> !(#[trigger] types@.take(i as int)[k]).attributes.branded);
                    assert(forall|k: int|
                        0 <= k < i ==> types@.take(i as int + 1)[k] == types@.take(i as int)[k]);
                }
            }
        }
        i = i + 1;
    }
    proof {
        assert(types@.take(n as int) =~= types@);
    }
    if any_branded {
        r.append("// Branded Type helper\n");
        r.append("type Brand<T, B> = T & { readonly __brand: B };\n\n");
    }
    let ghost parts = Seq::new(
        types@.len(),
        |i: int| "export * from './"@ + types@[i].name@ + "';\n"@,
    );
    let ghost base = r@;
    proof {
        assert(parts.take(0) =~= Seq::<Seq<char>>::empty());
        assert(base + spec_concat(parts.take(0)) =~= base);
    }
    let mut i: usize = 0;
    while i < n
        invariant
            i <= n,
            n == types@.len(),
            parts == Seq::new(
                types@.len(),
                |i: int| "export * from './"@ + types@[i].name@ + "';\n"@,
            ),
            r@ == base + spec_concat(parts.take(i as int)),
        decreases n - i,
    {
        let ghost r0 = r@;
        r.append("export * from './");
        r.append(types[i].name.as_str());
        r.append("';\n");
        proof {
            lemma_concat_take_succ(parts, i as int);
            assert(r@ =~= r0 + parts[i as int]);
            assert(base + (spec_concat(parts.take(i as int)) + parts[i as int]) =~= (base
                + spec_concat(parts.take(i as int))) + parts[i as int]);
        }
        i = i + 1;
    }
    proof {
        assert(parts.take(n as int) =~= parts);
        assert(r@ =~= spec_index_text(types@));
    }
    r
}

/// The order is total: of two names, one precedes the other.
pub proof fn lemma_lex_total(a: Seq<char>, b: Seq<char>)
    ensures
        spec_lex_le(a, b) || spec_lex_le(b, a),
    decreases a.len(),
{
    if a.len() > 0 && b.len() > 0 && !((a[0] as u32) < (b[0] as u32)) && !((a[0] as u32) > (
    b[0] as u32)) {
        lemma_lex_total(a.drop_first(), b.drop_first());
    }
}

/// Consecutive elements of `s` are in order.
pub open spec fn spec_sorted(s: Seq<Seq<char>>) -> bool {
    forall|i: int| 0 <= i < s.len() - 1 ==> spec_lex_le(s[i], #[trigger] s[i + 1])
}

proof fn lemma_insert_sorted(x: Seq<char>, s: Seq<Seq<char>>)
    requires
        spec_sorted(s),
    ensures
        spec_sorted(spec_sorted_insert(x, s)),
        spec_sorted_insert(x, s).to_multiset() == s.push(x).to_multiset(),
    decreases s.len(),
{
    let r = spec_sorted_insert(x, s);
    if s.len() == 0 {
        assert(seq![x].to_multiset() =~= s.push(x).to_multiset()) by {
            assert(s.push(x) =~= seq![x]);
        }
    } else if spec_lex_le(x, s[0]) {
        assert(r == seq![x] + s);
        assert(spec_sorted(r)) by {
            assert(forall|i: int| 0 <= i < s.len() ==> r[i + 1] == s[i]);
        }
        s.to_multiset_ensures();
        s.push(x).to_multiset_ensures();
        vstd::seq_lib::lemma_multiset_commutative(seq![x], s);
        vstd::seq_lib::lemma_multiset_commutative(s, seq![x]);
        assert(s + seq![x] =~= s.push(x));
    } else {
        let tail = s.drop_first();
        lemma_lex_total(x, s[0]);
        lemma_insert_sorted(x, tail);
        let rt = spec_sorted_insert(x, tail);
        assert(r == seq![s[0]] + rt);
        assert(spec_sorted(r)) by {
            assert(forall|i: int| 0 <= i < rt.len() ==> r[i + 1] == rt[i]);
            if rt.len() > 0 {
                if tail.len() == 0 {
                    assert(rt == seq![x]);
                    assert(spec_lex_le(s[0], rt[0]));
                } else if spec_lex_le(x, tail[0]) {
                    assert(rt[0] == x);
                    assert(spec_lex_le(s[0], rt[0]));
                } else {
                    assert(rt[0] == tail[0]);
                    assert(spec_lex_le(s[0], rt[0]));
                }
            }
        }
        vstd::seq_lib::lemma_multiset_commutative(seq![s[0]], rt);
        vstd::seq_lib::lemma_multiset_commutative(seq![s[0]], tail.push(x));
        assert(tail.push(x).to_multiset() == rt.to_multiset());
        assert(seq![s[0]] + tail.push(x) =~= s.push(x));
    }
}

/// Law: sorting really sorts. The sorted dependency list is in
/// lexicographic order and holds exactly the names it was given.
pub proof fn lemma_sort_sorted(s: Seq<Seq<char>>)
    ensures
        spec_sorted(spec_sort(s)),
        spec_sort(s).to_multiset() == s.to_multiset(),
    decreases s.len(),
{
    if s.len() == 0 {
        assert(spec_sort(s).to_multiset() =~= s.to_multiset()) by {
            assert(spec_sort(s) =~= s);
        }
    } else {
        lemma_sort_sorted(s.drop_last());
        lemma_insert_sorted(s.last(), spec_sort(s.drop_last()));
        assert(spec_sort(s.drop_last()).push(s.last()).to_multiset() == s.drop_last().push(
            s.last(),
        ).to_multiset()) by {
            vstd::seq_lib::lemma_multiset_commutative(spec_sort(s.drop_last()), seq![s.last()]);
            vstd::seq_lib::lemma_multiset_commutative(s.drop_last(), seq![s.last()]);
            assert(spec_sort(s.drop_last()) + seq![s.last()] =~= spec_sort(s.drop_last()).push(
                s.last(),
            ));
            assert(s.drop_last() + seq![s.last()] =~= s.drop_last().push(s.last()));
        }
        assert(s.drop_last().push(s.last()) =~= s);
    }
}

} // verus!
