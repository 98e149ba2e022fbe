//! General properties of the translation, stated and proved once over the
//! specification that every public function's contract refers to.

use vstd::prelude::*;

use crate::attrs::{spec_field_attrs, TypeGenerationConfig};
use crate::decl::{
    aux_pairs, dedup_pairs, filter_pairs, insert_pair, pairs_contain, sort_pairs, EnumDeclM,
    decl_text,
};
use crate::input::{CaseRule, DeriveInput, FieldDef, RustType};
use crate::parser::{
    spec_field_name, spec_member, spec_named_members, spec_parse_field_ty, spec_strip_optional,
};
use crate::typescript::basic::TsKeywordTypeKind;
use crate::typescript::ts_type::{MemberM, TyM};
use crate::typescript::ts_type_from_name::{spec_from_name_table, spec_from_source};

verus! {

/// Translating the same structural description twice yields byte-identical
/// output: the rendered declaration is a function of the description and
/// the flavour switch alone.
pub proof fn lemma_translation_deterministic(a: &DeriveInput, b: &DeriveInput, js: bool)
    requires
        a == b,
    ensures
        decl_text(crate::spec_parse(a, js)) == decl_text(crate::spec_parse(b, js)),
{
}

/// The fields that are not flattened away, in order.
pub open spec fn nonflatten_fields(ret: Seq<FieldDef>) -> Seq<FieldDef>
    decreases ret.len(),
{
    if ret.len() == 0 {
        Seq::empty()
    } else {
        let prev = nonflatten_fields(ret.drop_last());
        if ret.last().flatten {
            prev
        } else {
            prev.push(ret.last())
        }
    }
}

/// The retained, non-flattened fields of a struct appear in the emitted
/// member list exactly once each, in their original relative order, under
/// their serialized names.
pub proof fn lemma_member_order(
    cfg: &TypeGenerationConfig,
    ret: Seq<FieldDef>,
    rule: Option<CaseRule>,
    generics: Seq<String>,
    cdefault: bool,
)
    ensures
        spec_named_members(cfg, ret, rule, generics, cdefault).len() == nonflatten_fields(
            ret,
        ).len(),
        forall|i: int|
            0 <= i < nonflatten_fields(ret).len() ==> (#[trigger] spec_named_members(
                cfg,
                ret,
                rule,
                generics,
                cdefault,
            )[i]).key.name() == spec_field_name(&nonflatten_fields(ret)[i], rule),
    decreases ret.len(),
{
    if ret.len() > 0 {
        lemma_member_order(cfg, ret.drop_last(), rule, generics, cdefault);
        let ms = spec_named_members(cfg, ret, rule, generics, cdefault);
        let nf = nonflatten_fields(ret);
        let prev_ms = spec_named_members(cfg, ret.drop_last(), rule, generics, cdefault);
        let prev_nf = nonflatten_fields(ret.drop_last());
        if ret.last().flatten {
            assert(ms == prev_ms);
            assert(nf == prev_nf);
        } else {
            assert(ms == prev_ms.push(spec_member(cfg, ret.last(), rule, generics, cdefault)));
            assert(nf == prev_nf.push(ret.last()));
            assert forall|i: int| 0 <= i < nf.len() implies (#[trigger] ms[i]).key.name()
                == spec_field_name(&nf[i], rule) by {
                if i < nf.len() - 1 {
                    assert(ms[i] == prev_ms[i]);
                    assert(nf[i] == prev_nf[i]);
                }
            }
        }
    }
}

/// A field that is both nullable in the source and marked optional emits
/// the unwrapped value type: the nullable wrapper is stripped exactly
/// once, so no doubled null union can appear.
pub proof fn lemma_optional_strip(cfg: &TypeGenerationConfig, f: &FieldDef, generics: Seq<String>)
    requires
        spec_field_attrs(f, Seq::empty()).0.optional,
        spec_field_attrs(f, Seq::empty()).0.type_override is None,
        spec_from_source(cfg, f.ty) is Optional,
    ensures
        spec_parse_field_ty(cfg, f, generics) == *spec_from_source(cfg, f.ty)->Optional_0,
{
    assert(spec_parse_field_ty(cfg, f, generics) == spec_strip_optional(
        spec_from_source(cfg, f.ty),
    ));
}

/// Whether the names of a pair list are pairwise distinct.
pub open spec fn distinct_names(ps: Seq<(Seq<char>, nat)>) -> bool {
    forall|i: int, j: int| 0 <= i < j < ps.len() ==> (#[trigger] ps[i]).0 != (#[trigger] ps[j]).0
}

proof fn lemma_dedup_distinct(ps: Seq<(Seq<char>, nat)>)
    ensures
        distinct_names(dedup_pairs(ps)),
    decreases ps.len(),
{
    if ps.len() > 0 {
        lemma_dedup_distinct(ps.drop_last());
        let prev = dedup_pairs(ps.drop_last());
        if !pairs_contain(prev, ps.last().0) {
            assert forall|i: int, j: int|
                0 <= i < j < prev.push(ps.last()).len() implies (#[trigger] prev.push(
                ps.last(),
            )[i]).0 != (#[trigger] prev.push(ps.last())[j]).0 by {
                if j == prev.len() {
                    assert(prev.push(ps.last())[i] == prev[i]);
                    assert(!((prev[i]).0 == ps.last().0));
                }
            }
        }
    }
}

proof fn lemma_insert_names(p: (Seq<char>, nat), s: Seq<(Seq<char>, nat)>)
    ensures
        forall|n: Seq<char>|
            #[trigger] pairs_contain(insert_pair(p, s), n) <==> (n == p.0 || pairs_contain(s, n)),
        insert_pair(p, s).len() == s.len() + 1,
    decreases s.len(),
{
    if s.len() == 0 {
        assert forall|n: Seq<char>|
            #[trigger] pairs_contain(insert_pair(p, s), n) <==> (n == p.0 || pairs_contain(
                s,
                n,
            )) by {
            assert(insert_pair(p, s) == seq![p]);
            if n == p.0 {
                assert(insert_pair(p, s)[0].0 == n);
            }
        }
    } else if crate::decl::str_le(p.0, s.first().0) {
        assert(insert_pair(p, s) == seq![p] + s);
        assert forall|n: Seq<char>|
            #[trigger] pairs_contain(insert_pair(p, s), n) <==> (n == p.0 || pairs_contain(
                s,
                n,
            )) by {
            let r = insert_pair(p, s);
            if pairs_contain(r, n) {
                let i = choose|i: int| 0 <= i < r.len() && (#[trigger] r[i]).0 == n;
                if i == 0 {
                } else {
                    assert(s[i - 1].0 == n);
                }
            }
            if n == p.0 {
                assert(r[0].0 == n);
            }
            if pairs_contain(s, n) {
                let i = choose|i: int| 0 <= i < s.len() && (#[trigger] s[i]).0 == n;
                assert(r[i + 1].0 == n);
            }
        }
    } else {
        lemma_insert_names(p, s.drop_first());
        let r = insert_pair(p, s);
        assert(r == seq![s.first()] + insert_pair(p, s.drop_first()));
        assert forall|n: Seq<char>|
            #[trigger] pairs_contain(r, n) <==> (n == p.0 || pairs_contain(s, n)) by {
            let rr = insert_pair(p, s.drop_first());
            if pairs_contain(r, n) {
                let i = choose|i: int| 0 <= i < r.len() && (#[trigger] r[i]).0 == n;
                if i == 0 {
                    assert(s[0].0 == n);
                } else {
                    assert(rr[i - 1].0 == n);
                    assert(pairs_contain(rr, n));
                    if n != p.0 {
                        let q = choose|q: int|
                            0 <= q < s.drop_first().len() && (#[trigger] s.drop_first()[q]).0 == n;
                        assert(s[q + 1].0 == n);
                    }
                }
            }
            if n == p.0 {
                assert(pairs_contain(rr, n));
                let q = choose|q: int| 0 <= q < rr.len() && (#[trigger] rr[q]).0 == n;
                assert(r[q + 1].0 == n);
            }
            if pairs_contain(s, n) {
                let i = choose|i: int| 0 <= i < s.len() && (#[trigger] s[i]).0 == n;
                if i == 0 {
                    assert(r[0].0 == n);
                } else {
                    assert(s.drop_first()[i - 1].0 == n);
                    assert(pairs_contain(s.drop_first(), n));
                    assert(pairs_contain(rr, n));
                    let q = choose|q: int| 0 <= q < rr.len() && (#[trigger] rr[q]).0 == n;
                    assert(r[q + 1].0 == n);
                }
            }
        }
    }
}

proof fn lemma_insert_distinct(p: (Seq<char>, nat), s: Seq<(Seq<char>, nat)>)
    requires
        distinct_names(s),
        !pairs_contain(s, p.0),
    ensures
        distinct_names(insert_pair(p, s)),
    decreases s.len(),
{
    if s.len() == 0 {
    } else if crate::decl::str_le(p.0, s.first().0) {
        let r = insert_pair(p, s);
        assert(r == seq![p] + s);
        assert forall|i: int, j: int| 0 <= i < j < r.len() implies (#[trigger] r[i]).0 != (
        #[trigger] r[j]).0 by {
            if i == 0 {
                assert(r[j] == s[j - 1]);
                assert(!((s[j - 1]).0 == p.0));
            } else {
                assert(r[i] == s[i - 1]);
                assert(r[j] == s[j - 1]);
            }
        }
    } else {
        assert(distinct_names(s.drop_first())) by {
            assert(forall|i: int, j: int|
                0 <= i < j < s.drop_first().len() ==> (#[trigger] s.drop_first()[i]) == s[i + 1]
                    && (#[trigger] s.drop_first()[j]) == s[j + 1]);
        }
        assert(!pairs_contain(s.drop_first(), p.0)) by {
            if pairs_contain(s.drop_first(), p.0) {
                let q = choose|q: int|
                    0 <= q < s.drop_first().len() && (#[trigger] s.drop_first()[q]).0 == p.0;
                assert(s[q + 1].0 == p.0);
            }
        }
        lemma_insert_distinct(p, s.drop_first());
        lemma_insert_names(p, s.drop_first());
        let rr = insert_pair(p, s.drop_first());
        let r = insert_pair(p, s);
        assert(r == seq![s.first()] + rr);
        assert forall|i: int, j: int| 0 <= i < j < r.len() implies (#[trigger] r[i]).0 != (
        #[trigger] r[j]).0 by {
            if i == 0 {
                assert(r[j] == rr[j - 1]);
                assert(pairs_contain(rr, rr[j - 1].0));
                if rr[j - 1].0 == s[0].0 {
                    assert(rr[j - 1].0 == p.0 || pairs_contain(s.drop_first(), rr[j - 1].0));
                    if rr[j - 1].0 == p.0 {
                        assert(!crate::decl::str_le(p.0, s.first().0));
                        assert(crate::decl::str_le(p.0, p.0)) by {
                            lemma_str_le_refl(p.0);
                        }
                    } else {
                        let nm = rr[j - 1].0;
                        let q = choose|q: int|
                            0 <= q < s.drop_first().len() && (#[trigger] s.drop_first()[q]).0
                                == nm;
                        assert(s[q + 1].0 == s[0].0);
                    }
                }
            } else {
                assert(r[i] == rr[i - 1]);
                assert(r[j] == rr[j - 1]);
            }
        }
    }
}

proof fn lemma_str_le_refl(a: Seq<char>)
    ensures
        crate::decl::str_le(a, a),
    decreases a.len(),
{
    if a.len() > 0 {
        lemma_str_le_refl(a.drop_first());
    }
}

proof fn lemma_sort_preserves(ps: Seq<(Seq<char>, nat)>)
    ensures
        forall|n: Seq<char>|
            #[trigger] pairs_contain(sort_pairs(ps), n) <==> pairs_contain(ps, n),
        distinct_names(ps) ==> distinct_names(sort_pairs(ps)),
    decreases ps.len(),
{
    if ps.len() > 0 {
        lemma_sort_preserves(ps.drop_last());
        lemma_insert_names(ps.last(), sort_pairs(ps.drop_last()));
        assert forall|n: Seq<char>|
            #[trigger] pairs_contain(sort_pairs(ps), n) <==> pairs_contain(ps, n) by {
            assert(pairs_contain(sort_pairs(ps), n) <==> (n == ps.last().0 || pairs_contain(
                ps.drop_last(),
                n,
            )));
            if pairs_contain(ps, n) {
                let i = choose|i: int| 0 <= i < ps.len() && (#[trigger] ps[i]).0 == n;
                if i < ps.len() - 1 {
                    assert(ps.drop_last()[i].0 == n);
                }
            }
            if pairs_contain(ps.drop_last(), n) {
                let i = choose|i: int|
                    0 <= i < ps.drop_last().len() && (#[trigger] ps.drop_last()[i]).0 == n;
                assert(ps[i].0 == n);
            }
            if n == ps.last().0 {
                assert(ps[ps.len() - 1].0 == n);
            }
        }
        if distinct_names(ps) {
            assert(distinct_names(ps.drop_last())) by {
                assert(forall|i: int, j: int|
                    0 <= i < j < ps.drop_last().len() ==> (#[trigger] ps.drop_last()[i]) == ps[i]
                        && (#[trigger] ps.drop_last()[j]) == ps[j]);
            }
            assert(!pairs_contain(ps.drop_last(), ps.last().0)) by {
                if pairs_contain(ps.drop_last(), ps.last().0) {
                    let i = choose|i: int|
                        0 <= i < ps.drop_last().len() && (#[trigger] ps.drop_last()[i]).0
                            == ps.last().0;
                    assert(ps[i].0 == ps[ps.len() - 1].0);
                }
            }
            assert(!pairs_contain(sort_pairs(ps.drop_last()), ps.last().0));
            lemma_insert_distinct(ps.last(), sort_pairs(ps.drop_last()));
        }
    }
}

/// Under namespace mode, exactly one auxiliary alias is generated per
/// referenced outside type name, however many variants reference it: the
/// auxiliary alias list never repeats a name.
pub proof fn lemma_namespace_aux_names_distinct(e: EnumDeclM)
    ensures
        distinct_names(aux_pairs(e)),
{
    let filtered = filter_pairs(
        crate::decl::members_ref_pairs(e.members),
        e.type_params,
    );
    lemma_dedup_distinct(filtered);
    lemma_sort_preserves(dedup_pairs(filtered));
}

/// The policy for 64-bit integer types: they map to `number` unless both
/// the flavour switch and the per-type opt-in select `bigint`.
pub proof fn lemma_wide_integer_policy(
    cfg: &TypeGenerationConfig,
    nm: Seq<char>,
    args: Vec<RustType>,
    fn_output: Option<Box<RustType>>,
)
    requires
        nm == "usize"@ || nm == "isize"@ || nm == "u64"@ || nm == "i64"@,
    ensures
        spec_from_name_table(cfg, nm, args, fn_output) == (if cfg.js
            && cfg.large_number_types_as_bigints {
            TyM::Keyword(TsKeywordTypeKind::Bigint)
        } else {
            TyM::Keyword(TsKeywordTypeKind::Number)
        }),
{
    reveal_strlit("u8");
    reveal_strlit("u16");
    reveal_strlit("u32");
    reveal_strlit("i8");
    reveal_strlit("i16");
    reveal_strlit("i32");
    reveal_strlit("f64");
    reveal_strlit("f32");
    reveal_strlit("usize");
    reveal_strlit("isize");
    reveal_strlit("u64");
    reveal_strlit("i64");
    assert("usize"@.len() == 5 && "isize"@.len() == 5 && "u64"@.len() == 3 && "i64"@.len() == 3);
    assert("u8"@.len() == 2 && "u16"@.len() == 3 && "u32"@.len() == 3 && "i8"@.len() == 2
        && "i16"@.len() == 3 && "i32"@.len() == 3 && "f64"@.len() == 3 && "f32"@.len() == 3);
    assert("u64"@[0] == 'u' && "u64"@[1] == '6' && "i64"@[0] == 'i' && "i64"@[1] == '6');
    assert("u16"@[1] == '1' && "u32"@[1] == '3' && "i16"@[1] == '1' && "i32"@[1] == '3');
    assert("f64"@[0] == 'f' && "f32"@[0] == 'f');
    assert(!(nm == "u8"@ || nm == "u16"@ || nm == "u32"@ || nm == "i8"@ || nm == "i16"@ || nm
        == "i32"@ || nm == "f64"@ || nm == "f32"@));
}

/// The policy for 128-bit integer types: they map to `bigint` under the
/// JavaScript flavour regardless of the per-type opt-in, and to `number`
/// otherwise.
pub proof fn lemma_huge_integer_policy(
    cfg: &TypeGenerationConfig,
    nm: Seq<char>,
    args: Vec<RustType>,
    fn_output: Option<Box<RustType>>,
)
    requires
        nm == "u128"@ || nm == "i128"@,
    ensures
        spec_from_name_table(cfg, nm, args, fn_output) == (if cfg.js {
            TyM::Keyword(TsKeywordTypeKind::Bigint)
        } else {
            TyM::Keyword(TsKeywordTypeKind::Number)
        }),
{
    reveal_strlit("u8");
    reveal_strlit("u16");
    reveal_strlit("u32");
    reveal_strlit("i8");
    reveal_strlit("i16");
    reveal_strlit("i32");
    reveal_strlit("f64");
    reveal_strlit("f32");
    reveal_strlit("usize");
    reveal_strlit("isize");
    reveal_strlit("u64");
    reveal_strlit("i64");
    reveal_strlit("u128");
    reveal_strlit("i128");
    assert("u128"@.len() == 4 && "i128"@.len() == 4);
    assert("u8"@.len() == 2 && "u16"@.len() == 3 && "u32"@.len() == 3 && "i8"@.len() == 2
        && "i16"@.len() == 3 && "i32"@.len() == 3 && "f64"@.len() == 3 && "f32"@.len() == 3);
    assert("usize"@.len() == 5 && "isize"@.len() == 5 && "u64"@.len() == 3 && "i64"@.len() == 3);
    assert(!(nm == "u8"@ || nm == "u16"@ || nm == "u32"@ || nm == "i8"@ || nm == "i16"@ || nm
        == "i32"@ || nm == "f64"@ || nm == "f32"@));
    assert(!(nm == "usize"@ || nm == "isize"@ || nm == "u64"@ || nm == "i64"@));
}


/// When a commented type literal is spliced into the top-level union of an
/// enum declaration, its member comments are removed, at every depth, so
/// no comment block can appear inside the union expression.
pub proof fn lemma_union_splice_strips_comments(ms: Seq<MemberM>)
    ensures
        forall|i: int|
            0 <= i < crate::comments::clean_members(ms).len() ==> (
            #[trigger] crate::comments::clean_members(ms)[i]).comments == Seq::<Seq<char>>::empty(),
    decreases ms.len(),
{
    if ms.len() > 0 {
        lemma_union_splice_strips_comments(ms.drop_last());
        crate::comments::lemma_clean_members(ms);
    }
}

} // verus!
