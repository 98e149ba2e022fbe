//! The container parser: classifies a structural description, translates
//! its fields and variants, applies the tagging discipline, and assembles
//! the final declaration.

use vstd::prelude::*;

use crate::container::{spec_container_name, Container};
use crate::decl::{
    aliases_view, lemma_aliases_view, lemma_vmembers_view, vmembers_view, AliasM, Decl, DeclM,
    EnumDeclM, IfaceM, TsEnumDecl, TsInterfaceDecl, TsTypeAliasDecl, TsValueEnumDecl, VEnumM,
};
use crate::typescript::basic::{TsValueEnumLit, TsValueEnumMember, VLitM, VMemberM};

use crate::attrs::{
    spec_field_attrs, CAttrsM, TsifyContainerAttrs, TsifyFieldAttrs, TypeGenerationConfig,
};
use crate::error_tracker::{ErrM, ErrorTracker};
use crate::input::{
    strings_contain, CaseRule, ContainerData, DeriveInput, FieldDef, RustType, Style, TagType,
    VariantDef,
};
use crate::rename::{field_case, spec_field_case, spec_variant_case, variant_case};
use crate::typescript::basic::{
    spec_null_type, KeyM, NullType, TsTypeElement, TsTypeElementKey, TsTypeLit,
};
use crate::typescript::ts_type::{
    clone_strings, lemma_members_view, lemma_tys_view, members_view, spec_and, spec_ref_names,
    tys_view, MemberM, TsType, TyM,
};
use crate::typescript::ts_type_from_name::spec_from_source;

verus! {

/// Whether a type expression is the zero-sized marker `PhantomData`.
pub open spec fn spec_is_phantom(t: &RustType) -> bool {
    match t {
        RustType::Named { name, .. } => name@ == "PhantomData"@,
        _ => false,
    }
}

/// Decides whether a type expression is the zero-sized marker.
pub fn is_phantom(t: &RustType) -> (r: bool)
    ensures
        r == spec_is_phantom(t),
{
    match t {
        RustType::Named { name, .. } => {
            let p = String::from_str("PhantomData");
            name.eq(&p)
        },
        _ => false,
    }
}

/// The serialized name of a field: its rename if given, else the field
/// name under the applicable case rule.
pub open spec fn spec_field_name(f: &FieldDef, rule: Option<CaseRule>) -> Seq<char> {
    match f.rename {
        Some(ref r) => r@,
        None => match rule {
            Some(ru) => spec_field_case(ru, f.name@),
            None => f.name@,
        },
    }
}

/// Computes the serialized name of a field.
pub fn field_name(f: &FieldDef, rule: Option<CaseRule>) -> (r: String)
    ensures
        r@ == spec_field_name(f, rule),
{
    match &f.rename {
        Some(r) => r.clone(),
        None => match rule {
            Some(ru) => field_case(ru, &f.name),
            None => f.name.clone(),
        },
    }
}

/// The serialized name of a variant: its rename if given, else the variant
/// name under the applicable case rule.
pub open spec fn spec_variant_name(v: &VariantDef, rule: Option<CaseRule>) -> Seq<char> {
    match v.rename {
        Some(ref r) => r@,
        None => match rule {
            Some(ru) => spec_variant_case(ru, v.name@),
            None => v.name@,
        },
    }
}

/// Computes the serialized name of a variant.
pub fn variant_name(v: &VariantDef, rule: Option<CaseRule>) -> (r: String)
    ensures
        r@ == spec_variant_name(v, rule),
{
    match &v.rename {
        Some(r) => r.clone(),
        None => match rule {
            Some(ru) => variant_case(ru, &v.name),
            None => v.name.clone(),
        },
    }
}

/// Whether `needle` occurs as a contiguous part of `hay`.
pub open spec fn spec_occurs_in(needle: Seq<char>, hay: Seq<char>) -> bool {
    exists|k: int|
        0 <= k <= hay.len() - needle.len() && #[trigger] hay.subrange(k, k + needle.len())
            == needle
}

/// Decides whether `needle` occurs as a contiguous part of `hay`.
pub fn occurs_in(needle: &String, hay: &String) -> (r: bool)
    ensures
        r == spec_occurs_in(needle@, hay@),
{
    let nl = needle.as_str().unicode_len();
    let hl = hay.as_str().unicode_len();
    if nl > hl {
        return false;
    }
    let mut k: usize = 0;
    while k <= hl - nl
        invariant
            0 <= k <= hl - nl + 1,
            nl <= hl,
            nl == needle@.len(),
            hl == hay@.len(),
            forall|j: int| 0 <= j < k ==> #[trigger] hay@.subrange(j, j + needle@.len()) != needle@,
        decreases hl - nl - k + 1,
    {
        let mut m: usize = 0;
        while m < nl && hay.as_str().get_char(k + m) == needle.as_str().get_char(m)
            invariant
                0 <= m <= nl,
                nl == needle@.len(),
                hl == hay@.len(),
                0 <= k <= hl - nl,
                forall|j: int| 0 <= j < m ==> hay@[k + j] == needle@[j],
            decreases nl - m,
        {
            m += 1;
        }
        if m == nl {
            proof {
                assert(hay@.subrange(k as int, k + needle@.len()) =~= needle@);
            }
            return true;
        }
        proof {
            assert(hay@.subrange(k as int, k + needle@.len())[m as int] != needle@[m as int]);
        }
        k += 1;
    }
    false
}

/// The generic parameters attached to a raw override: the explicit list
/// when given, else every container generic whose name occurs in the text.
pub open spec fn spec_override_params(
    explicit: Seq<Seq<char>>,
    generics: Seq<String>,
    text: Seq<char>,
) -> Seq<Seq<char>>
    decreases generics.len(),
{
    if explicit.len() > 0 {
        explicit
    } else {
        occurring_generics(generics, text)
    }
}

/// The container generics whose names occur in the override text, in order.
pub open spec fn occurring_generics(generics: Seq<String>, text: Seq<char>) -> Seq<Seq<char>>
    decreases generics.len(),
{
    if generics.len() == 0 {
        Seq::empty()
    } else {
        let prev = occurring_generics(generics.drop_last(), text);
        if spec_occurs_in(generics.last()@, text) {
            prev.push(generics.last()@)
        } else {
            prev
        }
    }
}

/// A type with its outermost optional wrapper removed, if it has one.
pub open spec fn spec_strip_optional(t: TyM) -> TyM {
    match t {
        TyM::Optional(b, _) => *b,
        _ => t,
    }
}

/// The model of the translated type of one field: the raw override when
/// one is given, else the translation of the field's type, with the
/// optional wrapper stripped when the field is marked optional.
pub open spec fn spec_parse_field_ty(
    cfg: &TypeGenerationConfig,
    f: &FieldDef,
    generics: Seq<String>,
) -> TyM {
    let fa = spec_field_attrs(f, Seq::empty()).0;
    match fa.type_override {
        Some(text) => TyM::Override {
            type_override: text,
            generic_params: spec_override_params(fa.type_params, generics, text),
        },
        None => {
            let t = spec_from_source(cfg, f.ty);
            if fa.optional {
                spec_strip_optional(t)
            } else {
                t
            }
        },
    }
}

/// The configuration errors raised while reading one field's annotations.
pub open spec fn spec_field_errors(f: &FieldDef) -> Seq<ErrM> {
    spec_field_attrs(f, Seq::empty()).1
}

/// Translates the type of one field, recording its annotation errors.
pub fn parse_field(
    cfg: &TypeGenerationConfig,
    f: &FieldDef,
    generics: &Vec<String>,
    errors: &mut ErrorTracker,
) -> (r: (TsType, TsifyFieldAttrs))
    ensures
        r.0@ == spec_parse_field_ty(cfg, f, generics@),
        r.1@ == spec_field_attrs(f, Seq::empty()).0,
        final(errors)@ == old(errors)@ + spec_field_errors(f),
{
    proof {
        crate::attrs::lemma_fold_fattrs_base(f.metas@, old(errors)@);
    }
    let fa = TsifyFieldAttrs::from_serde_field(f, errors);
    let ty = match &fa.type_override {
        Some(text) => {
            let params = if fa.type_params.len() > 0 {
                clone_strings(&fa.type_params)
            } else {
                let mut ps: Vec<String> = Vec::new();
                let n = generics.len();
                let mut i: usize = 0;
                while i < n
                    invariant
                        0 <= i <= n == generics@.len(),
                        ps.deep_view() == occurring_generics(generics@.take(i as int), text@),
                    decreases n - i,
                {
                    let ghost before = ps.deep_view();
                    if occurs_in(&generics[i], text) {
                        ps.push(generics[i].clone());
                        proof {
                            assert(ps.deep_view() =~= before.push(generics@[i as int]@));
                        }
                    }
                    proof {
                        assert(generics@.take(i + 1).drop_last() =~= generics@.take(i as int));
                        assert(generics@.take(i + 1).last() == generics@[i as int]);
                    }
                    i += 1;
                }
                proof {
                    assert(generics@.take(n as int) =~= generics@);
                }
                ps
            };
            TsType::Override { type_override: text.clone(), generic_params: params }
        },
        None => {
            let t = TsType::from_source_type(cfg, &f.ty);
            if fa.optional {
                match t {
                    TsType::Optional(b, _) => *b,
                    other => other,
                }
            } else {
                t
            }
        },
    };
    proof {
        assert(ty@ == spec_parse_field_ty(cfg, f, generics@));
    }
    (ty, fa)
}


/// Whether a field survives filtering: not skipped in either direction
/// and not a zero-sized marker.
pub open spec fn spec_keep_field(f: FieldDef) -> bool {
    &&& !f.skip_serializing
    &&& !f.skip_deserializing
    &&& !spec_is_phantom(&f.ty)
}

/// The fields that survive filtering, in order.
pub open spec fn spec_retained(fields: Seq<FieldDef>) -> Seq<FieldDef>
    decreases fields.len(),
{
    if fields.len() == 0 {
        Seq::empty()
    } else {
        let prev = spec_retained(fields.drop_last());
        if spec_keep_field(fields.last()) {
            prev.push(fields.last())
        } else {
            prev
        }
    }
}

/// The model of one emitted object member for a field.
pub open spec fn spec_member(
    cfg: &TypeGenerationConfig,
    f: FieldDef,
    rule: Option<CaseRule>,
    generics: Seq<String>,
    cdefault: bool,
) -> MemberM {
    let fa = spec_field_attrs(&f, Seq::empty()).0;
    MemberM {
        key: if fa.quote {
            KeyM::Quoted(spec_field_name(&f, rule))
        } else {
            KeyM::Lit(spec_field_name(&f, rule))
        },
        type_ann: spec_parse_field_ty(cfg, &f, generics),
        optional: cdefault || f.default || fa.optional,
        comments: f.comments.deep_view(),
    }
}

/// The model of the type a flattened field contributes: an optional
/// flattened type becomes `T | {}`.
pub open spec fn spec_flatten_ty(cfg: &TypeGenerationConfig, f: FieldDef, generics: Seq<String>) -> TyM {
    let t = spec_parse_field_ty(cfg, &f, generics);
    match t {
        TyM::Optional(b, _) => TyM::Union(seq![*b, TyM::TypeLit(Seq::empty())]),
        _ => t,
    }
}

/// The direct members of the retained fields, in order.
pub open spec fn spec_named_members(
    cfg: &TypeGenerationConfig,
    ret: Seq<FieldDef>,
    rule: Option<CaseRule>,
    generics: Seq<String>,
    cdefault: bool,
) -> Seq<MemberM>
    decreases ret.len(),
{
    if ret.len() == 0 {
        Seq::empty()
    } else {
        let prev = spec_named_members(cfg, ret.drop_last(), rule, generics, cdefault);
        if ret.last().flatten {
            prev
        } else {
            prev.push(spec_member(cfg, ret.last(), rule, generics, cdefault))
        }
    }
}

/// The flattened-in types of the retained fields, in order.
pub open spec fn spec_flatten_tys(
    cfg: &TypeGenerationConfig,
    ret: Seq<FieldDef>,
    generics: Seq<String>,
) -> Seq<TyM>
    decreases ret.len(),
{
    if ret.len() == 0 {
        Seq::empty()
    } else {
        let prev = spec_flatten_tys(cfg, ret.drop_last(), generics);
        if ret.last().flatten {
            prev.push(spec_flatten_ty(cfg, ret.last(), generics))
        } else {
            prev
        }
    }
}

/// The translated types of the retained fields of a tuple, in order.
pub open spec fn spec_unnamed_tys(
    cfg: &TypeGenerationConfig,
    ret: Seq<FieldDef>,
    generics: Seq<String>,
) -> Seq<TyM>
    decreases ret.len(),
{
    if ret.len() == 0 {
        Seq::empty()
    } else {
        spec_unnamed_tys(cfg, ret.drop_last(), generics).push(
            spec_parse_field_ty(cfg, &ret.last(), generics),
        )
    }
}

/// The annotation errors of a list of fields, in order.
pub open spec fn list_field_errors(fs: Seq<FieldDef>) -> Seq<ErrM>
    decreases fs.len(),
{
    if fs.len() == 0 {
        Seq::empty()
    } else {
        list_field_errors(fs.drop_last()) + spec_field_errors(&fs.last())
    }
}

/// The classified fields of one struct or variant.
#[derive(Debug)]
pub enum ParsedFields {
    /// Named members together with the flattened-in types.
    Named(Vec<TsTypeElement>, Vec<TsType>),
    /// The element types of a tuple shape.
    Unnamed(Vec<TsType>),
    /// A shape represented directly by one type.
    Transparent(TsType),
}

/// Mathematical model of classified fields.
pub enum PFieldsM {
    Named(Seq<MemberM>, Seq<TyM>),
    Unnamed(Seq<TyM>),
    Transparent(TyM),
}

impl View for ParsedFields {
    type V = PFieldsM;

    open spec fn view(&self) -> PFieldsM {
        match self {
            ParsedFields::Named(m, e) => PFieldsM::Named(members_view(m@), tys_view(e@)),
            ParsedFields::Unnamed(e) => PFieldsM::Unnamed(tys_view(e@)),
            ParsedFields::Transparent(t) => PFieldsM::Transparent(t@),
        }
    }
}

/// The model of classifying and translating the fields of one shape.
pub open spec fn spec_parse_fields(
    cfg: &TypeGenerationConfig,
    transparent: bool,
    style: Style,
    fields: Seq<FieldDef>,
    rule: Option<CaseRule>,
    generics: Seq<String>,
    cdefault: bool,
) -> PFieldsM {
    match style {
        Style::Unit => PFieldsM::Transparent(crate::typescript::ts_type::spec_nullish(cfg)),
        Style::Newtype => PFieldsM::Transparent(spec_parse_field_ty(cfg, &fields[0], generics)),
        _ => {
            let ret = spec_retained(fields);
            if ret.len() == 1 && transparent {
                PFieldsM::Transparent(spec_parse_field_ty(cfg, &ret[0], generics))
            } else if style is Struct {
                PFieldsM::Named(
                    spec_named_members(cfg, ret, rule, generics, cdefault),
                    spec_flatten_tys(cfg, ret, generics),
                )
            } else {
                PFieldsM::Unnamed(spec_unnamed_tys(cfg, ret, generics))
            }
        },
    }
}

/// The annotation errors raised while classifying one shape's fields.
pub open spec fn spec_pf_errors(transparent: bool, style: Style, fields: Seq<FieldDef>) -> Seq<
    ErrM,
> {
    match style {
        Style::Unit => Seq::empty(),
        Style::Newtype => spec_field_errors(&fields[0]),
        _ => {
            let ret = spec_retained(fields);
            if ret.len() == 1 && transparent {
                spec_field_errors(&ret[0])
            } else {
                list_field_errors(ret)
            }
        },
    }
}

/// The single type a classification denotes when used as a payload.
pub open spec fn spec_payload(pf: PFieldsM) -> TyM {
    match pf {
        PFieldsM::Named(m, e) => if e.len() == 0 {
            TyM::TypeLit(m)
        } else {
            spec_and(TyM::TypeLit(m), TyM::Intersection(e))
        },
        PFieldsM::Unnamed(e) => TyM::Tuple(e),
        PFieldsM::Transparent(t) => t,
    }
}


/// Computes the indices of the fields that survive filtering.
fn retained_indices(fields: &Vec<FieldDef>) -> (r: Vec<usize>)
    ensures
        r@.len() == spec_retained(fields@).len(),
        forall|j: int|
            0 <= j < r@.len() ==> (#[trigger] r@[j]) < fields@.len() && fields@[r@[j] as int]
                == spec_retained(fields@)[j],
{
    let mut r: Vec<usize> = Vec::new();
    let n = fields.len();
    let mut i: usize = 0;
    while i < n
        invariant
            0 <= i <= n == fields@.len(),
            r@.len() == spec_retained(fields@.take(i as int)).len(),
            forall|j: int|
                0 <= j < r@.len() ==> (#[trigger] r@[j]) < i && fields@[r@[j] as int]
                    == spec_retained(fields@.take(i as int))[j],
        decreases n - i,
    {
        let f = &fields[i];
        let keep = !f.skip_serializing && !f.skip_deserializing && !is_phantom(&f.ty);
        proof {
            assert(fields@.take(i + 1).drop_last() =~= fields@.take(i as int));
            assert(fields@.take(i + 1).last() == fields@[i as int]);
        }
        if keep {
            r.push(i);
        }
        i += 1;
    }
    proof {
        assert(fields@.take(n as int) =~= fields@);
    }
    r
}

/// Classifies and translates the fields of one shape, recording the
/// annotation errors of every field it reads.
pub fn parse_fields(
    cfg: &TypeGenerationConfig,
    transparent: bool,
    style: Style,
    fields: &Vec<FieldDef>,
    rule: Option<CaseRule>,
    generics: &Vec<String>,
    errors: &mut ErrorTracker,
    cdefault: bool,
) -> (r: ParsedFields)
    requires
        crate::input::style_fields_wf(style, fields@.len()),
    ensures
        r@ == spec_parse_fields(cfg, transparent, style, fields@, rule, generics@, cdefault),
        final(errors)@ == old(errors)@ + spec_pf_errors(transparent, style, fields@),
{
    match style {
        Style::Unit => {
            let r = ParsedFields::Transparent(TsType::nullish(cfg));
            proof {
                assert(final(errors)@ =~= old(errors)@ + spec_pf_errors(
                    transparent,
                    style,
                    fields@,
                ));
            }
            r
        },
        Style::Newtype => {
            let (t, _) = parse_field(cfg, &fields[0], generics, errors);
            ParsedFields::Transparent(t)
        },
        _ => {
            let ghost ret = spec_retained(fields@);
            let idxs = retained_indices(fields);
            if idxs.len() == 1 && transparent {
                let (t, _) = parse_field(cfg, &fields[idxs[0]], generics, errors);
                ParsedFields::Transparent(t)
            } else if style == Style::Struct {
                let mut members: Vec<TsTypeElement> = Vec::new();
                let mut flats: Vec<TsType> = Vec::new();
                let rn = idxs.len();
                let mut j: usize = 0;
                proof {
                    lemma_members_view(members@);
                    lemma_tys_view(flats@);
                    assert(members_view(members@) =~= spec_named_members(
                        cfg,
                        ret.take(0),
                        rule,
                        generics@,
                        cdefault,
                    ));
                    assert(tys_view(flats@) =~= spec_flatten_tys(cfg, ret.take(0), generics@));
                    assert(old(errors)@ + list_field_errors(ret.take(0)) =~= old(errors)@);
                }
                while j < rn
                    invariant
                        0 <= j <= rn == idxs@.len(),
                        ret == spec_retained(fields@),
                        ret.len() == rn,
                        forall|q: int|
                            0 <= q < rn ==> (#[trigger] idxs@[q]) < fields@.len()
                                && fields@[idxs@[q] as int] == ret[q],
                        members_view(members@) == spec_named_members(
                            cfg,
                            ret.take(j as int),
                            rule,
                            generics@,
                            cdefault,
                        ),
                        tys_view(flats@) == spec_flatten_tys(cfg, ret.take(j as int), generics@),
                        errors@ == old(errors)@ + list_field_errors(ret.take(j as int)),
                    decreases rn - j,
                {
                    let f = &fields[idxs[j]];
                    let ghost fv = ret[j as int];
                    let (t, fa) = parse_field(cfg, f, generics, errors);
                    proof {
                        assert(ret.take(j + 1).drop_last() =~= ret.take(j as int));
                        assert(ret.take(j + 1).last() == fv);
                    }
                    if f.flatten {
                        let ghost prevf = flats@;
                        let wrapped = match t {
                            TsType::Optional(b, _) => {
                                let inner = *b;
                                let empty_lit = TsType::empty_type_lit();
                                let ghost iv = inner@;
                                let u = TsType::Union(vec![inner, empty_lit]);
                                proof {
                                    lemma_tys_view(u->Union_0@);
                                    assert(tys_view(u->Union_0@) =~= seq![
                                        iv,
                                        TyM::TypeLit(Seq::<MemberM>::empty()),
                                    ]);
                                }
                                u
                            },
                            other => other,
                        };
                        let ghost wv = wrapped@;
                        flats.push(wrapped);
                        proof {
                            lemma_tys_view(prevf);
                            lemma_tys_view(flats@);
                            assert(wv == spec_flatten_ty(cfg, fv, generics@));
                            assert(tys_view(flats@) =~= spec_flatten_tys(
                                cfg,
                                ret.take(j + 1),
                                generics@,
                            ));
                            assert(errors@ =~= old(errors)@ + list_field_errors(ret.take(j + 1)));
                        }
                    } else {
                        let name = field_name(f, rule);
                        let key = if fa.quote {
                            TsTypeElementKey::Quoted(name)
                        } else {
                            TsTypeElementKey::Lit(name)
                        };
                        let m = TsTypeElement {
                            key,
                            type_ann: t,
                            optional: cdefault || f.default || fa.optional,
                            comments: clone_strings(&f.comments),
                        };
                        let ghost mv = m@;
                        let ghost prevm = members@;
                        members.push(m);
                        proof {
                            lemma_members_view(prevm);
                            lemma_members_view(members@);
                            assert(mv == spec_member(cfg, fv, rule, generics@, cdefault));
                            assert(members_view(members@) =~= spec_named_members(
                                cfg,
                                ret.take(j + 1),
                                rule,
                                generics@,
                                cdefault,
                            ));
                            assert(errors@ =~= old(errors)@ + list_field_errors(ret.take(j + 1)));
                        }
                    }
                    j += 1;
                }
                proof {
                    assert(ret.take(rn as int) =~= ret);
                }
                ParsedFields::Named(members, flats)
            } else {
                let mut elems: Vec<TsType> = Vec::new();
                let rn = idxs.len();
                let mut j: usize = 0;
                proof {
                    lemma_tys_view(elems@);
                    assert(tys_view(elems@) =~= spec_unnamed_tys(cfg, ret.take(0), generics@));
                    assert(old(errors)@ + list_field_errors(ret.take(0)) =~= old(errors)@);
                }
                while j < rn
                    invariant
                        0 <= j <= rn == idxs@.len(),
                        ret == spec_retained(fields@),
                        ret.len() == rn,
                        forall|q: int|
                            0 <= q < rn ==> (#[trigger] idxs@[q]) < fields@.len()
                                && fields@[idxs@[q] as int] == ret[q],
                        tys_view(elems@) == spec_unnamed_tys(cfg, ret.take(j as int), generics@),
                        errors@ == old(errors)@ + list_field_errors(ret.take(j as int)),
                    decreases rn - j,
                {
                    let f = &fields[idxs[j]];
                    let ghost fv = ret[j as int];
                    let (t, _) = parse_field(cfg, f, generics, errors);
                    let ghost prevt = elems@;
                    elems.push(t);
                    proof {
                        lemma_tys_view(prevt);
                        lemma_tys_view(elems@);
                        assert(ret.take(j + 1).drop_last() =~= ret.take(j as int));
                        assert(ret.take(j + 1).last() == fv);
                        assert(tys_view(elems@) =~= spec_unnamed_tys(
                            cfg,
                            ret.take(j + 1),
                            generics@,
                        ));
                        assert(errors@ =~= old(errors)@ + list_field_errors(ret.take(j + 1)));
                    }
                    j += 1;
                }
                proof {
                    assert(ret.take(rn as int) =~= ret);
                }
                ParsedFields::Unnamed(elems)
            }
        },
    }
}


/// The container generics kept on a declaration: those whose names are
/// referenced, in declaration order.
pub open spec fn filter_generics(gs: Seq<String>, names: Set<Seq<char>>) -> Seq<Seq<char>>
    decreases gs.len(),
{
    if gs.len() == 0 {
        Seq::empty()
    } else {
        let prev = filter_generics(gs.drop_last(), names);
        if names.contains(gs.last()@) {
            prev.push(gs.last()@)
        } else {
            prev
        }
    }
}

/// The referenced names of a list of variant aliases, united.
pub open spec fn aliases_ref_names(ms: Seq<crate::decl::AliasM>) -> Set<Seq<char>>
    decreases ms.len(),
{
    if ms.len() == 0 {
        Set::empty()
    } else {
        aliases_ref_names(ms.drop_last()) + spec_ref_names(ms.last().type_ann)
    }
}

/// The generics referenced by one type.
fn relevant_params_ty(generics: &Vec<String>, t: &TsType) -> (r: Vec<String>)
    ensures
        r.deep_view() == filter_generics(generics@, spec_ref_names(t@)),
{
    let mut r: Vec<String> = Vec::new();
    let n = generics.len();
    let mut i: usize = 0;
    proof {
        assert(r.deep_view() =~= filter_generics(generics@.take(0), spec_ref_names(t@)));
    }
    while i < n
        invariant
            0 <= i <= n == generics@.len(),
            r.deep_view() == filter_generics(generics@.take(i as int), spec_ref_names(t@)),
        decreases n - i,
    {
        let ghost before = r.deep_view();
        if t.references(&generics[i]) {
            r.push(generics[i].clone());
            proof {
                assert(r.deep_view() =~= before.push(generics@[i as int]@));
            }
        }
        proof {
            assert(generics@.take(i + 1).drop_last() =~= generics@.take(i as int));
            assert(generics@.take(i + 1).last() == generics@[i as int]);
        }
        i += 1;
    }
    proof {
        assert(generics@.take(n as int) =~= generics@);
    }
    r
}

/// The generics referenced by an interface's members or extends list.
fn relevant_params_iface(
    generics: &Vec<String>,
    members: &Vec<TsTypeElement>,
    ext: &Vec<TsType>,
) -> (r: Vec<String>)
    ensures
        r.deep_view() == filter_generics(
            generics@,
            crate::typescript::ts_type::ref_names_members(members_view(members@))
                + crate::typescript::ts_type::ref_names_list(tys_view(ext@)),
        ),
{
    let ghost names = crate::typescript::ts_type::ref_names_members(members_view(members@))
        + crate::typescript::ts_type::ref_names_list(tys_view(ext@));
    let mut r: Vec<String> = Vec::new();
    let n = generics.len();
    let mut i: usize = 0;
    proof {
        assert(r.deep_view() =~= filter_generics(generics@.take(0), names));
    }
    while i < n
        invariant
            0 <= i <= n == generics@.len(),
            names == crate::typescript::ts_type::ref_names_members(members_view(members@))
                + crate::typescript::ts_type::ref_names_list(tys_view(ext@)),
            r.deep_view() == filter_generics(generics@.take(i as int), names),
        decreases n - i,
    {
        let ghost before = r.deep_view();
        let hit = crate::typescript::ts_type::members_have_ref_name(members, &generics[i])
            || crate::typescript::ts_type::list_has_ref_name(ext, &generics[i]);
        if hit {
            r.push(generics[i].clone());
            proof {
                assert(names.contains(generics@[i as int]@));
                assert(r.deep_view() =~= before.push(generics@[i as int]@));
            }
        } else {
            proof {
                assert(!names.contains(generics@[i as int]@));
            }
        }
        proof {
            assert(generics@.take(i + 1).drop_last() =~= generics@.take(i as int));
            assert(generics@.take(i + 1).last() == generics@[i as int]);
        }
        i += 1;
    }
    proof {
        assert(generics@.take(n as int) =~= generics@);
    }
    r
}

pub proof fn lemma_aliases_ref_names(ms: Seq<crate::decl::AliasM>)
    ensures
        forall|s: Seq<char>|
            aliases_ref_names(ms).contains(s) <==> exists|i: int|
                0 <= i < ms.len() && (#[trigger] spec_ref_names(ms[i].type_ann)).contains(s),
    decreases ms.len(),
{
    if ms.len() > 0 {
        lemma_aliases_ref_names(ms.drop_last());
        assert forall|s: Seq<char>| #[trigger]
            aliases_ref_names(ms).contains(s) implies exists|i: int|
            0 <= i < ms.len() && (#[trigger] spec_ref_names(ms[i].type_ann)).contains(s) by {
            assert(aliases_ref_names(ms) == aliases_ref_names(ms.drop_last()) + spec_ref_names(
                ms.last().type_ann,
            ));
            if spec_ref_names(ms.last().type_ann).contains(s) {
                assert(spec_ref_names(ms[ms.len() - 1].type_ann).contains(s));
            } else {
                assert(aliases_ref_names(ms.drop_last()).contains(s));
                let i = choose|i: int|
                    0 <= i < ms.drop_last().len() && (#[trigger] spec_ref_names(
                        ms.drop_last()[i].type_ann,
                    )).contains(s);
                assert(ms.drop_last()[i] == ms[i]);
                assert(spec_ref_names(ms[i].type_ann).contains(s));
            }
        }
        assert forall|s: Seq<char>|
            (exists|i: int|
                0 <= i < ms.len() && (#[trigger] spec_ref_names(ms[i].type_ann)).contains(
                    s,
                )) implies #[trigger] aliases_ref_names(ms).contains(s) by {
            let i = choose|i: int|
                0 <= i < ms.len() && (#[trigger] spec_ref_names(ms[i].type_ann)).contains(s);
            assert(aliases_ref_names(ms) == aliases_ref_names(ms.drop_last()) + spec_ref_names(
                ms.last().type_ann,
            ));
            if i == ms.len() - 1 {
                assert(spec_ref_names(ms.last().type_ann).contains(s));
            } else {
                assert(ms.drop_last()[i] == ms[i]);
                assert(spec_ref_names(ms.drop_last()[i].type_ann).contains(s));
                assert(aliases_ref_names(ms.drop_last()).contains(s));
            }
        }
    }
}

/// Decides whether `name` is referenced by any of the variant aliases.
fn aliases_reference(members: &Vec<crate::decl::TsTypeAliasDecl>, name: &String) -> (r: bool)
    ensures
        r == aliases_ref_names(crate::decl::aliases_view(members@)).contains(name@),
{
    let ghost ms = crate::decl::aliases_view(members@);
    proof {
        crate::decl::lemma_aliases_view(members@);
        lemma_aliases_ref_names(ms);
    }
    let mn = members.len();
    let mut q: usize = 0;
    while q < mn
        invariant
            0 <= q <= mn == members@.len(),
            ms == crate::decl::aliases_view(members@),
            ms.len() == mn,
            forall|p: int| 0 <= p < ms.len() ==> ms[p] == (#[trigger] members@[p])@,
            forall|p: int|
                0 <= p < q ==> !(#[trigger] spec_ref_names(ms[p].type_ann)).contains(name@),
        decreases mn - q,
    {
        if members[q].type_ann.references(name) {
            proof {
                lemma_aliases_ref_names(ms);
                assert(spec_ref_names(ms[q as int].type_ann).contains(name@));
            }
            return true;
        }
        q += 1;
    }
    proof {
        lemma_aliases_ref_names(ms);
    }
    false
}

/// The generics referenced by any of the variant aliases.
fn relevant_params_aliases(
    generics: &Vec<String>,
    members: &Vec<crate::decl::TsTypeAliasDecl>,
) -> (r: Vec<String>)
    ensures
        r.deep_view() == filter_generics(
            generics@,
            aliases_ref_names(crate::decl::aliases_view(members@)),
        ),
{
    let ghost names = aliases_ref_names(crate::decl::aliases_view(members@));
    let mut r: Vec<String> = Vec::new();
    let n = generics.len();
    let mut i: usize = 0;
    proof {
        assert(r.deep_view() =~= filter_generics(generics@.take(0), names));
    }
    while i < n
        invariant
            0 <= i <= n == generics@.len(),
            names == aliases_ref_names(crate::decl::aliases_view(members@)),
            r.deep_view() == filter_generics(generics@.take(i as int), names),
        decreases n - i,
    {
        let ghost before = r.deep_view();
        if aliases_reference(members, &generics[i]) {
            r.push(generics[i].clone());
            proof {
                assert(r.deep_view() =~= before.push(generics@[i as int]@));
            }
        }
        proof {
            assert(generics@.take(i + 1).drop_last() =~= generics@.take(i as int));
            assert(generics@.take(i + 1).last() == generics@[i as int]);
        }
        i += 1;
    }
    proof {
        assert(generics@.take(n as int) =~= generics@);
    }
    r
}


/// Whether every element of a list is a plain type reference.
pub open spec fn all_refs(ts: Seq<TyM>) -> bool {
    forall|i: int| 0 <= i < ts.len() ==> (#[trigger] ts[i]) is Ref
}

/// A type alias declaration for a struct body.
pub open spec fn spec_alias_decl(
    name: Seq<char>,
    generics: Seq<String>,
    comments: Seq<Seq<char>>,
    t: TyM,
) -> DeclM {
    DeclM::TsTypeAlias(
        AliasM {
            id: name,
            export: true,
            type_params: filter_generics(generics, spec_ref_names(t)),
            type_ann: t,
            comments,
        },
    )
}

/// The declaration of a struct-shaped container.
pub open spec fn spec_struct_decl(
    cfg: &TypeGenerationConfig,
    type_alias_flag: bool,
    serde: &crate::input::SerdeAttrs,
    name: Seq<char>,
    serde_name: Seq<char>,
    generics: Seq<String>,
    comments: Seq<Seq<char>>,
    style: Style,
    fields: Seq<FieldDef>,
) -> DeclM {
    let pf = spec_parse_fields(
        cfg,
        serde.transparent,
        style,
        fields,
        serde.rename_all,
        generics,
        serde.default,
    );
    match pf {
        PFieldsM::Named(members, ext) => {
            let members2 = match serde.tag {
                TagType::Internal { ref tag } => seq![
                    MemberM {
                        key: KeyM::Lit(tag@),
                        type_ann: TyM::Lit(serde_name),
                        optional: false,
                        comments: Seq::empty(),
                    },
                ] + members,
                _ => members,
            };
            if ext.len() > 0 && all_refs(ext) {
                DeclM::TsInterface(
                    IfaceM {
                        id: name,
                        type_params: filter_generics(
                            generics,
                            crate::typescript::ts_type::ref_names_members(members2)
                                + crate::typescript::ts_type::ref_names_list(ext),
                        ),
                        extends: ext,
                        body: members2,
                        comments,
                        alias_form: false,
                    },
                )
            } else if ext.len() > 0 {
                spec_alias_decl(
                    name,
                    generics,
                    comments,
                    spec_and(TyM::TypeLit(members2), TyM::Intersection(ext)),
                )
            } else {
                DeclM::TsInterface(
                    IfaceM {
                        id: name,
                        type_params: filter_generics(
                            generics,
                            crate::typescript::ts_type::ref_names_members(members2)
                                + crate::typescript::ts_type::ref_names_list(ext),
                        ),
                        extends: ext,
                        body: members2,
                        comments,
                        alias_form: type_alias_flag,
                    },
                )
            }
        },
        PFieldsM::Unnamed(e) => spec_alias_decl(name, generics, comments, TyM::Tuple(e)),
        PFieldsM::Transparent(t) => spec_alias_decl(name, generics, comments, t),
    }
}

/// The variants that survive filtering, in order.
pub open spec fn spec_retained_vars(vs: Seq<VariantDef>) -> Seq<VariantDef>
    decreases vs.len(),
{
    if vs.len() == 0 {
        Seq::empty()
    } else {
        let prev = spec_retained_vars(vs.drop_last());
        if !vs.last().skip_serializing && !vs.last().skip_deserializing {
            prev.push(vs.last())
        } else {
            prev
        }
    }
}

/// The effective shape of a variant: a newtype variant whose sole field is
/// skipped is treated as a unit variant.
pub open spec fn spec_var_style(v: VariantDef) -> Style {
    if v.style is Newtype && v.fields@.len() == 1 && !spec_keep_field(v.fields@[0]) {
        Style::Unit
    } else {
        v.style
    }
}

/// The rename rule applying to a variant's fields.
pub open spec fn spec_var_rule(v: VariantDef, serde: &crate::input::SerdeAttrs) -> Option<
    CaseRule,
> {
    match v.rename_all_fields {
        Some(r) => Some(r),
        None => serde.rename_all_fields,
    }
}

/// The name of the companion discriminant enum.
pub open spec fn spec_disc_name(
    name: Seq<char>,
    serde: &crate::input::SerdeAttrs,
    cat: CAttrsM,
) -> Seq<char> {
    match cat.discriminant_name {
        Some(n) => n,
        None => name + (match serde.tag {
            TagType::Internal { ref tag } => spec_field_case(CaseRule::Pascal, tag@),
            TagType::Adjacent { ref tag, .. } => spec_field_case(CaseRule::Pascal, tag@),
            _ => "Type"@,
        }),
    }
}

/// The serialized name of a variant under the container rule.
pub open spec fn spec_var_sn(v: VariantDef, serde: &crate::input::SerdeAttrs) -> Seq<char> {
    spec_variant_name(&v, serde.rename_all)
}

/// The member name of a variant: the written name under `rename_variants`,
/// the serialized name otherwise.
pub open spec fn spec_var_id(v: VariantDef, serde: &crate::input::SerdeAttrs, cat: CAttrsM) -> Seq<
    char,
> {
    if cat.rename_variants {
        v.name@
    } else {
        spec_var_sn(v, serde)
    }
}

/// The discriminant key of one variant.
pub open spec fn spec_var_key(
    v: VariantDef,
    serde: &crate::input::SerdeAttrs,
    cat: CAttrsM,
    disc: Seq<char>,
) -> KeyM {
    if cat.discriminants {
        KeyM::Var(disc + "."@ + spec_var_id(v, serde, cat))
    } else {
        KeyM::Lit(spec_var_sn(v, serde))
    }
}

/// The tagged type of one variant.
pub open spec fn spec_var_ty(
    cfg: &TypeGenerationConfig,
    v: VariantDef,
    serde: &crate::input::SerdeAttrs,
    cat: CAttrsM,
    disc: Seq<char>,
    generics: Seq<String>,
) -> TyM {
    let st = spec_var_style(v);
    let pf = spec_parse_fields(
        cfg,
        serde.transparent,
        st,
        v.fields@,
        spec_var_rule(v, serde),
        generics,
        serde.default,
    );
    crate::typescript::ts_type::spec_with_tag_type(
        cfg,
        spec_payload(pf),
        spec_var_key(v, serde, cat, disc),
        st,
        &serde.tag,
    )
}

/// The namespace alias of one variant.
pub open spec fn spec_var_alias(
    cfg: &TypeGenerationConfig,
    v: VariantDef,
    serde: &crate::input::SerdeAttrs,
    cat: CAttrsM,
    disc: Seq<char>,
    generics: Seq<String>,
) -> AliasM {
    let vty = spec_var_ty(cfg, v, serde, cat, disc, generics);
    AliasM {
        id: spec_var_id(v, serde, cat),
        export: true,
        type_params: filter_generics(generics, spec_ref_names(vty)),
        type_ann: vty,
        comments: v.comments.deep_view(),
    }
}

/// The namespace aliases of the retained variants, in order.
pub open spec fn spec_var_aliases(
    cfg: &TypeGenerationConfig,
    ret: Seq<VariantDef>,
    serde: &crate::input::SerdeAttrs,
    cat: CAttrsM,
    disc: Seq<char>,
    generics: Seq<String>,
) -> Seq<AliasM>
    decreases ret.len(),
{
    if ret.len() == 0 {
        Seq::empty()
    } else {
        spec_var_aliases(cfg, ret.drop_last(), serde, cat, disc, generics).push(
            spec_var_alias(cfg, ret.last(), serde, cat, disc, generics),
        )
    }
}

/// The value-enum member of one variant.
pub open spec fn spec_vmember(v: VariantDef, serde: &crate::input::SerdeAttrs, cat: CAttrsM) -> VMemberM {
    VMemberM {
        id: spec_var_id(v, serde, cat),
        value: VLitM::StringLit(spec_var_sn(v, serde)),
        comments: v.comments.deep_view(),
    }
}

/// The value-enum members of the retained variants, in order.
pub open spec fn spec_vmembers(ret: Seq<VariantDef>, serde: &crate::input::SerdeAttrs, cat: CAttrsM) -> Seq<VMemberM>
    decreases ret.len(),
{
    if ret.len() == 0 {
        Seq::empty()
    } else {
        spec_vmembers(ret.drop_last(), serde, cat).push(spec_vmember(ret.last(), serde, cat))
    }
}

/// The error raised by a non-unit variant under value-enum mode.
pub open spec fn value_enum_shape_err() -> ErrM {
    ErrM {
        span: 0,
        message: "#[tsify(value_enum)] can only be used on enums with unit variants"@,
    }
}

/// The errors of translating the retained variants, in order.
pub open spec fn spec_vars_errors(ret: Seq<VariantDef>, serde: &crate::input::SerdeAttrs, cat: CAttrsM) -> Seq<ErrM>
    decreases ret.len(),
{
    if ret.len() == 0 {
        Seq::empty()
    } else {
        let v = ret.last();
        let st = spec_var_style(v);
        let pes: Seq<ErrM> = if st is Unit {
            Seq::empty()
        } else {
            spec_pf_errors(serde.transparent, st, v.fields@)
        };
        let shape: Seq<ErrM> = if cat.value_enum && !(st is Unit) {
            seq![value_enum_shape_err()]
        } else {
            Seq::empty()
        };
        spec_vars_errors(ret.drop_last(), serde, cat) + pes + shape
    }
}

/// The declaration of an enum-shaped container.
pub open spec fn spec_enum_decl(
    cfg: &TypeGenerationConfig,
    cat: CAttrsM,
    serde: &crate::input::SerdeAttrs,
    name: Seq<char>,
    generics: Seq<String>,
    comments: Seq<Seq<char>>,
    variants: Seq<VariantDef>,
) -> DeclM {
    let ret = spec_retained_vars(variants);
    let disc = spec_disc_name(name, serde, cat);
    let aliases = spec_var_aliases(cfg, ret, serde, cat, disc, generics);
    let vmembers = spec_vmembers(ret, serde, cat);
    if cat.value_enum {
        DeclM::TsValueEnum(VEnumM { id: name, members: vmembers })
    } else {
        DeclM::TsEnum(
            EnumDeclM {
                id: name,
                type_params: filter_generics(generics, aliases_ref_names(aliases)),
                members: aliases,
                namespace: cat.namespace,
                discriminants: if cat.discriminants {
                    Some(VEnumM { id: disc, members: vmembers })
                } else {
                    None
                },
                comments,
            },
        )
    }
}

/// The declaration of a container, from its configuration and description.
pub open spec fn spec_decl_core(
    cfg: &TypeGenerationConfig,
    cat: CAttrsM,
    input: &DeriveInput,
    name: Seq<char>,
    serde_name: Seq<char>,
) -> DeclM {
    match input.data {
        ContainerData::StructData { style, ref fields } => spec_struct_decl(
            cfg,
            cat.type_alias,
            &input.serde_attrs,
            name,
            serde_name,
            input.generics@,
            input.comments.deep_view(),
            style,
            fields@,
        ),
        ContainerData::EnumData { ref variants } => spec_enum_decl(
            cfg,
            cat,
            &input.serde_attrs,
            name,
            input.generics@,
            input.comments.deep_view(),
            variants@,
        ),
    }
}

/// The errors of translating a container's data.
pub open spec fn spec_data_errors(cat: CAttrsM, input: &DeriveInput) -> Seq<ErrM> {
    match input.data {
        ContainerData::StructData { style, ref fields } => spec_pf_errors(
            input.serde_attrs.transparent,
            style,
            fields@,
        ),
        ContainerData::EnumData { ref variants } => spec_vars_errors(
            spec_retained_vars(variants@),
            &input.serde_attrs,
            cat,
        ),
    }
}


/// Computes the indices of the variants that survive filtering.
fn retained_var_indices(vs: &Vec<VariantDef>) -> (r: Vec<usize>)
    ensures
        r@.len() == spec_retained_vars(vs@).len(),
        forall|j: int|
            0 <= j < r@.len() ==> (#[trigger] r@[j]) < vs@.len() && vs@[r@[j] as int]
                == spec_retained_vars(vs@)[j],
{
    let mut r: Vec<usize> = Vec::new();
    let n = vs.len();
    let mut i: usize = 0;
    while i < n
        invariant
            0 <= i <= n == vs@.len(),
            r@.len() == spec_retained_vars(vs@.take(i as int)).len(),
            forall|j: int|
                0 <= j < r@.len() ==> (#[trigger] r@[j]) < i && vs@[r@[j] as int]
                    == spec_retained_vars(vs@.take(i as int))[j],
        decreases n - i,
    {
        let v = &vs[i];
        proof {
            assert(vs@.take(i + 1).drop_last() =~= vs@.take(i as int));
            assert(vs@.take(i + 1).last() == vs@[i as int]);
        }
        if !v.skip_serializing && !v.skip_deserializing {
            r.push(i);
        }
        i += 1;
    }
    proof {
        assert(vs@.take(n as int) =~= vs@);
    }
    r
}

/// One container being translated.
pub struct Parser<'a> {
    /// The container under translation.
    pub container: &'a Container,
}

impl<'a> Parser<'a> {
    /// A parser over one container.
    pub fn new(container: &'a Container) -> (r: Self)
        ensures
            r.container == container,
    {
        Parser { container }
    }

    /// A type alias declaration for the container with the given body.
    fn alias_decl(&self, t: TsType) -> (r: Decl)
        ensures
            r@ == spec_alias_decl(
                self.container.ident_str@,
                self.container.input.generics@,
                self.container.input.comments.deep_view(),
                t@,
            ),
    {
        let params = relevant_params_ty(&self.container.input.generics, &t);
        Decl::TsTypeAlias(
            TsTypeAliasDecl {
                id: self.container.ident_str(),
                export: true,
                type_params: params,
                type_ann: t,
                comments: clone_strings(&self.container.input.comments),
            },
        )
    }

    /// Translates a struct-shaped container into its declaration.
    #[verifier::rlimit(100)]
    pub fn parse_struct(&self, style: Style, fields: &Vec<FieldDef>, errors: &mut ErrorTracker) -> (r: Decl)
        requires
            crate::input::style_fields_wf(style, fields@.len()),
        ensures
            r@ == spec_struct_decl(
                &self.container.attrs.ty_config,
                self.container.attrs.type_alias,
                &self.container.input.serde_attrs,
                self.container.ident_str@,
                self.container.name@,
                self.container.input.generics@,
                self.container.input.comments.deep_view(),
                style,
                fields@,
            ),
            final(errors)@ == old(errors)@ + spec_pf_errors(
                self.container.input.serde_attrs.transparent,
                style,
                fields@,
            ),
    {
        let cfg = &self.container.attrs.ty_config;
        let serde = &self.container.input.serde_attrs;
        let generics = &self.container.input.generics;
        let pf = parse_fields(
            cfg,
            serde.transparent,
            style,
            fields,
            serde.rename_all,
            generics,
            errors,
            serde.default,
        );
        let ghost pfv = pf@;
        match pf {
            ParsedFields::Named(members, ext) => {
                let ghost mv0 = members_view(members@);
                let ghost extv = tys_view(ext@);
                let members2 = match &serde.tag {
                    TagType::Internal { tag } => {
                        let tm = TsTypeElement {
                            key: TsTypeElementKey::Lit(tag.clone()),
                            type_ann: TsType::Lit(self.container.name()),
                            optional: false,
                            comments: Vec::new(),
                        };
                        let ghost tmv = tm@;
                        let ghost mseq = members@;
                        let mut v2: Vec<TsTypeElement> = Vec::new();
                        v2.push(tm);
                        let mut rest = members;
                        v2.append(&mut rest);
                        proof {
                            lemma_members_view(v2@);
                            lemma_members_view(mseq);
                            assert(tmv.comments =~= Seq::<Seq<char>>::empty());
                            assert(members_view(v2@) =~= seq![tmv] + mv0) by {
                                assert(v2@.len() == 1 + mseq.len());
                                assert(v2@[0]@ == tmv);
                                assert(forall|q: int|
                                    0 <= q < mseq.len() ==> v2@[q + 1] == mseq[q]);
                            }
                        }
                        v2
                    },
                    _ => members,
                };
                let ghost m2v = members_view(members2@);
                let n = ext.len();
                let mut allref = true;
                let mut i: usize = 0;
                proof {
                    lemma_tys_view(ext@);
                }
                while i < n
                    invariant
                        0 <= i <= n == ext@.len(),
                        extv == tys_view(ext@),
                        extv.len() == n,
                        forall|j: int| 0 <= j < n ==> extv[j] == (#[trigger] ext@[j])@,
                        allref == (forall|j: int| 0 <= j < i ==> (#[trigger] extv[j]) is Ref),
                    decreases n - i,
                {
                    if !ext[i].is_ref() {
                        allref = false;
                    }
                    i += 1;
                }
                proof {
                    assert(allref == all_refs(extv));
                }
                if ext.len() > 0 && allref {
                    let params = relevant_params_iface(generics, &members2, &ext);
                    Decl::TsInterface(
                        TsInterfaceDecl {
                            id: self.container.ident_str(),
                            type_params: params,
                            extends: ext,
                            body: members2,
                            comments: clone_strings(&self.container.input.comments),
                            alias_form: false,
                        },
                    )
                } else if ext.len() > 0 {
                    let t = TsType::TypeLit(TsTypeLit { members: members2 }).and(
                        TsType::Intersection(ext),
                    );
                    self.alias_decl(t)
                } else {
                    let params = relevant_params_iface(generics, &members2, &ext);
                    Decl::TsInterface(
                        TsInterfaceDecl {
                            id: self.container.ident_str(),
                            type_params: params,
                            extends: ext,
                            body: members2,
                            comments: clone_strings(&self.container.input.comments),
                            alias_form: self.container.attrs.type_alias,
                        },
                    )
                }
            },
            ParsedFields::Unnamed(e) => {
                self.alias_decl(TsType::Tuple(e))
            },
            ParsedFields::Transparent(t) => {
                self.alias_decl(t)
            },
        }
    }

    /// Translates an enum-shaped container into its declaration.
    #[verifier::rlimit(100)]
    pub fn parse_enum(&self, variants: &Vec<VariantDef>, errors: &mut ErrorTracker) -> (r: Decl)
        requires
            forall|i: int|
                0 <= i < variants@.len() ==> crate::input::style_fields_wf(
                    (#[trigger] variants@[i]).style,
                    variants@[i].fields@.len(),
                ),
        ensures
            r@ == spec_enum_decl(
                &self.container.attrs.ty_config,
                self.container.attrs@,
                &self.container.input.serde_attrs,
                self.container.ident_str@,
                self.container.input.generics@,
                self.container.input.comments.deep_view(),
                variants@,
            ),
            final(errors)@ == old(errors)@ + spec_vars_errors(
                spec_retained_vars(variants@),
                &self.container.input.serde_attrs,
                self.container.attrs@,
            ),
    {
        let cfg = &self.container.attrs.ty_config;
        let serde = &self.container.input.serde_attrs;
        let generics = &self.container.input.generics;
        let attrs = &self.container.attrs;
        let ghost cat = self.container.attrs@;
        // The discriminant enum name, whether or not it is used.
        let disc = match &attrs.discriminant_name {
            Some(n) => n.clone(),
            None => {
                let mut d = self.container.ident_str();
                match &serde.tag {
                    TagType::Internal { tag } => {
                        let pt = field_case(CaseRule::Pascal, tag);
                        d.append(pt.as_str());
                    },
                    TagType::Adjacent { tag, .. } => {
                        let pt = field_case(CaseRule::Pascal, tag);
                        d.append(pt.as_str());
                    },
                    _ => {
                        d.append("Type");
                    },
                }
                d
            },
        };
        proof {
            assert(disc@ == spec_disc_name(self.container.ident_str@, serde, cat));
        }
        let ghost dn = disc@;
        let ghost ret = spec_retained_vars(variants@);
        let idxs = retained_var_indices(variants);
        let mut aliases: Vec<TsTypeAliasDecl> = Vec::new();
        let mut vmembers: Vec<TsValueEnumMember> = Vec::new();
        let rn = idxs.len();
        let mut j: usize = 0;
        proof {
            lemma_aliases_view(aliases@);
            lemma_vmembers_view(vmembers@);
            assert(aliases_view(aliases@) =~= spec_var_aliases(
                cfg,
                ret.take(0),
                serde,
                cat,
                dn,
                generics@,
            ));
            assert(vmembers_view(vmembers@) =~= spec_vmembers(ret.take(0), serde, cat));
            assert(old(errors)@ + spec_vars_errors(ret.take(0), serde, cat) =~= old(errors)@);
        }
        while j < rn
            invariant
                0 <= j <= rn == idxs@.len(),
                ret == spec_retained_vars(variants@),
                ret.len() == rn,
                forall|q: int|
                    0 <= q < rn ==> (#[trigger] idxs@[q]) < variants@.len()
                        && variants@[idxs@[q] as int] == ret[q],
                forall|i: int|
                    0 <= i < variants@.len() ==> crate::input::style_fields_wf(
                        (#[trigger] variants@[i]).style,
                        variants@[i].fields@.len(),
                    ),
                cfg == &self.container.attrs.ty_config,
                serde == &self.container.input.serde_attrs,
                generics == &self.container.input.generics,
                attrs == &self.container.attrs,
                cat == self.container.attrs@,
                dn == disc@,
                dn == spec_disc_name(self.container.ident_str@, serde, cat),
                aliases_view(aliases@) == spec_var_aliases(
                    cfg,
                    ret.take(j as int),
                    serde,
                    cat,
                    dn,
                    generics@,
                ),
                vmembers_view(vmembers@) == spec_vmembers(ret.take(j as int), serde, cat),
                errors@ == old(errors)@ + spec_vars_errors(ret.take(j as int), serde, cat),
            decreases rn - j,
        {
            let v = &variants[idxs[j]];
            let ghost vv = ret[j as int];
            let sn = variant_name(v, serde.rename_all);
            let member_id = if attrs.rename_variants {
                v.name.clone()
            } else {
                sn.clone()
            };
            let st = if v.style == Style::Newtype {
                let f0 = &v.fields[0];
                if f0.skip_serializing || f0.skip_deserializing || is_phantom(&f0.ty) {
                    Style::Unit
                } else {
                    Style::Newtype
                }
            } else {
                v.style
            };
            proof {
                assert(st == spec_var_style(vv));
            }
            let rule = match v.rename_all_fields {
                Some(ru) => Some(ru),
                None => serde.rename_all_fields,
            };
            proof {
                assert(member_id@ == spec_var_id(vv, serde, cat));
                assert(sn@ == spec_var_sn(vv, serde));
            }
            let key = if attrs.discriminants {
                let mut ks = disc.clone();
                ks.append(".");
                ks.append(member_id.as_str());
                proof {
                    assert(ks@ =~= dn + "."@ + spec_var_id(vv, serde, cat));
                }
                TsTypeElementKey::Var(ks)
            } else {
                TsTypeElementKey::Lit(sn.clone())
            };
            proof {
                assert(key@ == spec_var_key(vv, serde, cat, dn));
            }
            let pf = if st == Style::Unit {
                let ef: Vec<FieldDef> = Vec::new();
                parse_fields(cfg, serde.transparent, Style::Unit, &ef, rule, generics, errors, serde.default)
            } else {
                parse_fields(cfg, serde.transparent, st, &v.fields, rule, generics, errors, serde.default)
            };
            let ghost pfv = pf@;
            proof {
                assert(pfv == spec_parse_fields(
                    cfg,
                    serde.transparent,
                    st,
                    vv.fields@,
                    spec_var_rule(vv, serde),
                    generics@,
                    serde.default,
                ));
            }
            let payload = match pf {
                ParsedFields::Named(m, e) => {
                    proof {
                        lemma_tys_view(e@);
                    }
                    if e.len() == 0 {
                        TsType::TypeLit(TsTypeLit { members: m })
                    } else {
                        TsType::TypeLit(TsTypeLit { members: m }).and(TsType::Intersection(e))
                    }
                },
                ParsedFields::Unnamed(e) => TsType::Tuple(e),
                ParsedFields::Transparent(t) => t,
            };
            proof {
                assert(payload@ == spec_payload(pfv));
            }
            let vty = payload.with_tag_type(cfg, key, st, &serde.tag);
            proof {
                assert(vty@ == spec_var_ty(cfg, vv, serde, cat, dn, generics@));
            }
            let params = relevant_params_ty(generics, &vty);
            let alias = TsTypeAliasDecl {
                id: member_id.clone(),
                export: true,
                type_params: params,
                type_ann: vty,
                comments: clone_strings(&v.comments),
            };
            let ghost av = alias@;
            let ghost prev_a = aliases@;
            aliases.push(alias);
            let vm = TsValueEnumMember {
                id: member_id,
                value: TsValueEnumLit::StringLit(sn),
                comments: clone_strings(&v.comments),
            };
            let ghost vmv = vm@;
            let ghost prev_v = vmembers@;
            vmembers.push(vm);
            if attrs.value_enum && st != Style::Unit {
                errors.add_error(
                    0,
                    "#[tsify(value_enum)] can only be used on enums with unit variants",
                );
            }
            proof {
                lemma_aliases_view(prev_a);
                lemma_aliases_view(aliases@);
                lemma_vmembers_view(prev_v);
                lemma_vmembers_view(vmembers@);
                assert(ret.take(j + 1).drop_last() =~= ret.take(j as int));
                assert(ret.take(j + 1).last() == vv);
                assert(av == spec_var_alias(cfg, vv, serde, cat, dn, generics@));
                assert(vmv == spec_vmember(vv, serde, cat));
                assert(spec_var_aliases(cfg, ret.take(j + 1), serde, cat, dn, generics@)
                    == spec_var_aliases(cfg, ret.take(j as int), serde, cat, dn, generics@).push(
                    av,
                ));
                assert(spec_vmembers(ret.take(j + 1), serde, cat) == spec_vmembers(
                    ret.take(j as int),
                    serde,
                    cat,
                ).push(vmv));
                assert(aliases@.len() == prev_a.len() + 1);
                assert forall|q: int| 0 <= q < aliases@.len() implies aliases_view(aliases@)[q]
                    == spec_var_aliases(cfg, ret.take(j + 1), serde, cat, dn, generics@)[q] by {
                    if q < prev_a.len() {
                        assert(aliases@[q] == prev_a[q]);
                        assert(aliases_view(aliases@)[q] == (aliases@[q])@);
                        assert(aliases_view(prev_a)[q] == (prev_a[q])@);
                    } else {
                        assert(aliases_view(aliases@)[q] == (aliases@[q])@);
                        assert((aliases@[q])@ == av);
                    }
                }
                assert(aliases_view(aliases@) =~= spec_var_aliases(
                    cfg,
                    ret.take(j + 1),
                    serde,
                    cat,
                    dn,
                    generics@,
                ));
                assert(vmembers@.len() == prev_v.len() + 1);
                assert forall|q: int| 0 <= q < vmembers@.len() implies vmembers_view(vmembers@)[q]
                    == spec_vmembers(ret.take(j + 1), serde, cat)[q] by {
                    if q < prev_v.len() {
                        assert(vmembers@[q] == prev_v[q]);
                        assert(vmembers_view(vmembers@)[q] == (vmembers@[q])@);
                        assert(vmembers_view(prev_v)[q] == (prev_v[q])@);
                    } else {
                        assert(vmembers_view(vmembers@)[q] == (vmembers@[q])@);
                        assert((vmembers@[q])@ == vmv);
                    }
                }
                assert(vmembers_view(vmembers@) =~= spec_vmembers(ret.take(j + 1), serde, cat));
                assert(errors@ =~= old(errors)@ + spec_vars_errors(ret.take(j + 1), serde, cat));
            }
            j += 1;
        }
        proof {
            assert(ret.take(rn as int) =~= ret);
        }
        if attrs.value_enum {
            Decl::TsValueEnum(TsValueEnumDecl { id: self.container.ident_str(), members: vmembers })
        } else {
            let params = relevant_params_aliases(generics, &aliases);
            Decl::TsEnum(
                TsEnumDecl {
                    id: self.container.ident_str(),
                    type_params: params,
                    members: aliases,
                    namespace: attrs.namespace,
                    discriminants: if attrs.discriminants {
                        Some(TsValueEnumDecl { id: disc, members: vmembers })
                    } else {
                        None
                    },
                    comments: clone_strings(&self.container.input.comments),
                },
            )
        }
    }

    /// Translates the container into its declaration, recording every
    /// configuration error raised by its fields and variants.
    pub fn parse(&self, errors: &mut ErrorTracker) -> (r: Decl)
        requires
            self.container.input.wf(),
        ensures
            r@ == spec_decl_core(
                &self.container.attrs.ty_config,
                self.container.attrs@,
                &self.container.input,
                self.container.ident_str@,
                self.container.name@,
            ),
            final(errors)@ == old(errors)@ + spec_data_errors(
                self.container.attrs@,
                &self.container.input,
            ),
    {
        match &self.container.input.data {
            ContainerData::StructData { style, fields } => self.parse_struct(
                *style,
                fields,
                errors,
            ),
            ContainerData::EnumData { variants } => self.parse_enum(variants, errors),
        }
    }
}

} // verus!
