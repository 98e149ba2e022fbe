//! The TypeScript type expression tree and its algebraic combinators.

use vstd::prelude::*;

use crate::attrs::TypeGenerationConfig;
use crate::input::{Style, TagType};
use crate::typescript::basic::{
    spec_null_type, KeyM, NullType, TsKeywordTypeKind, TsTypeElement, TsTypeElementKey, TsTypeLit,
};

verus! {

/// A TypeScript type expression.
#[derive(Debug)]
pub enum TsType {
    /// A keyword type like `number` or `string`.
    Keyword(TsKeywordTypeKind),
    /// A string literal type like `"foo"`.
    Lit(String),
    /// A computed type reference emitted verbatim, like `MyEnum.Variant`.
    Computed(String),
    /// An array type like `number[]`.
    Array(Box<TsType>),
    /// A tuple type like `[number, string]`.
    Tuple(Vec<TsType>),
    /// An optional type together with its missing-value representation.
    Optional(Box<TsType>, NullType),
    /// A reference to a named type like `Foo` or `Bar<T>`.
    Ref { name: String, type_params: Vec<TsType> },
    /// A function type like `(arg0: string) => number`.
    Func { params: Vec<TsType>, type_ann: Box<TsType> },
    /// A type literal like `{ foo: number; bar: string }`.
    TypeLit(TsTypeLit),
    /// An intersection type like `A & B`.
    Intersection(Vec<TsType>),
    /// A union type like `A | B`.
    Union(Vec<TsType>),
    /// A user-specified type emitted verbatim.
    Override { type_override: String, generic_params: Vec<String> },
}

/// Mathematical model of a type expression, over sequences of characters.
pub enum TyM {
    Keyword(TsKeywordTypeKind),
    Lit(Seq<char>),
    Computed(Seq<char>),
    Array(Box<TyM>),
    Tuple(Seq<TyM>),
    Optional(Box<TyM>, NullType),
    Ref { name: Seq<char>, type_params: Seq<TyM> },
    Func { params: Seq<TyM>, type_ann: Box<TyM> },
    TypeLit(Seq<MemberM>),
    Intersection(Seq<TyM>),
    Union(Seq<TyM>),
    Override { type_override: Seq<char>, generic_params: Seq<Seq<char>> },
}

/// Mathematical model of one object-literal member.
pub struct MemberM {
    pub key: KeyM,
    pub type_ann: TyM,
    pub optional: bool,
    pub comments: Seq<Seq<char>>,
}

/// The model of a type expression tree.
pub open spec fn ty_view(t: TsType) -> TyM
    decreases t,
{
    match t {
        TsType::Keyword(k) => TyM::Keyword(k),
        TsType::Lit(s) => TyM::Lit(s@),
        TsType::Computed(s) => TyM::Computed(s@),
        TsType::Array(b) => TyM::Array(Box::new(ty_view(*b))),
        TsType::Tuple(v) => TyM::Tuple(tys_view(v@)),
        TsType::Optional(b, n) => TyM::Optional(Box::new(ty_view(*b)), n),
        TsType::Ref { name, type_params } => TyM::Ref {
            name: name@,
            type_params: tys_view(type_params@),
        },
        TsType::Func { params, type_ann } => TyM::Func {
            params: tys_view(params@),
            type_ann: Box::new(ty_view(*type_ann)),
        },
        TsType::TypeLit(lit) => TyM::TypeLit(members_view(lit.members@)),
        TsType::Intersection(v) => TyM::Intersection(tys_view(v@)),
        TsType::Union(v) => TyM::Union(tys_view(v@)),
        TsType::Override { type_override, generic_params } => TyM::Override {
            type_override: type_override@,
            generic_params: generic_params.deep_view(),
        },
    }
}

/// The models of a sequence of type expressions, element by element.
pub open spec fn tys_view(s: Seq<TsType>) -> Seq<TyM>
    decreases s,
{
    if s.len() == 0 {
        Seq::empty()
    } else {
        tys_view(s.drop_last()).push(ty_view(s.last()))
    }
}

/// The model of one object-literal member.
pub open spec fn member_view(m: TsTypeElement) -> MemberM
    decreases m,
{
    MemberM {
        key: m.key@,
        type_ann: ty_view(m.type_ann),
        optional: m.optional,
        comments: m.comments.deep_view(),
    }
}

/// The models of a sequence of members, element by element.
pub open spec fn members_view(s: Seq<TsTypeElement>) -> Seq<MemberM>
    decreases s,
{
    if s.len() == 0 {
        Seq::empty()
    } else {
        members_view(s.drop_last()).push(member_view(s.last()))
    }
}

pub broadcast proof fn lemma_tys_view(s: Seq<TsType>)
    ensures
        (#[trigger] tys_view(s)).len() == s.len(),
        forall|i: int| 0 <= i < s.len() ==> tys_view(s)[i] == ty_view(s[i]),
    decreases s.len(),
{
    if s.len() > 0 {
        lemma_tys_view(s.drop_last());
    }
}

pub broadcast proof fn lemma_members_view(s: Seq<TsTypeElement>)
    ensures
        (#[trigger] members_view(s)).len() == s.len(),
        forall|i: int| 0 <= i < s.len() ==> members_view(s)[i] == member_view(s[i]),
    decreases s.len(),
{
    if s.len() > 0 {
        lemma_members_view(s.drop_last());
    }
}

impl View for TsType {
    type V = TyM;

    open spec fn view(&self) -> TyM {
        ty_view(*self)
    }
}

/// Height of a model tree, used as a termination measure for combinators.
pub open spec fn ty_height(t: TyM) -> nat
    decreases t,
{
    match t {
        TyM::Array(b) => ty_height(*b) + 1,
        TyM::Tuple(v) => tys_height(v) + 1,
        TyM::Optional(b, _) => ty_height(*b) + 1,
        TyM::Ref { type_params, .. } => tys_height(type_params) + 1,
        TyM::Func { params, type_ann } => {
            let h1 = tys_height(params);
            let h2 = ty_height(*type_ann);
            (if h1 > h2 {
                h1
            } else {
                h2
            }) + 1
        },
        TyM::TypeLit(ms) => members_height(ms) + 1,
        TyM::Intersection(v) => tys_height(v) + 1,
        TyM::Union(v) => tys_height(v) + 1,
        _ => 0,
    }
}

/// The largest height among a sequence of model trees.
pub open spec fn tys_height(s: Seq<TyM>) -> nat
    decreases s,
{
    if s.len() == 0 {
        0
    } else {
        let h1 = ty_height(s.first());
        let h2 = tys_height(s.drop_first());
        if h1 > h2 {
            h1
        } else {
            h2
        }
    }
}

pub proof fn lemma_tys_height(s: Seq<TyM>)
    ensures
        forall|i: int| 0 <= i < s.len() ==> ty_height(#[trigger] s[i]) <= tys_height(s),
    decreases s.len(),
{
    if s.len() > 0 {
        lemma_tys_height(s.drop_first());
        assert forall|i: int| 0 <= i < s.len() implies ty_height(#[trigger] s[i]) <= tys_height(
            s,
        ) by {
            if i > 0 {
                assert(s.drop_first()[i - 1] == s[i]);
            }
        }
    }
}

/// The largest height among the annotations of a sequence of members.
pub open spec fn members_height(s: Seq<MemberM>) -> nat
    decreases s,
{
    if s.len() == 0 {
        0
    } else {
        let h1 = ty_height(s.first().type_ann);
        let h2 = members_height(s.drop_first());
        if h1 > h2 {
            h1
        } else {
            h2
        }
    }
}

/// The first index among `ms` whose key has name `name`, or -1.
pub open spec fn find_key_index(ms: Seq<MemberM>, name: Seq<char>) -> int
    decreases ms.len(),
{
    if ms.len() == 0 {
        -1
    } else if ms.first().key.name() == name {
        0
    } else {
        let r = find_key_index(ms.drop_first(), name);
        if r == -1 {
            -1
        } else {
            r + 1
        }
    }
}

pub proof fn lemma_find_key_index(ms: Seq<MemberM>, name: Seq<char>)
    ensures
        find_key_index(ms, name) == -1 ==> forall|j: int|
            0 <= j < ms.len() ==> (#[trigger] ms[j].key).name() != name,
        find_key_index(ms, name) != -1 ==> {
            let i = find_key_index(ms, name);
            &&& 0 <= i < ms.len()
            &&& ms[i].key.name() == name
            &&& forall|j: int| 0 <= j < i ==> (#[trigger] ms[j].key).name() != name
        },
    decreases ms.len(),
{
    if ms.len() > 0 && ms.first().key.name() != name {
        lemma_find_key_index(ms.drop_first(), name);
        let rest = ms.drop_first();
        assert(forall|j: int| 1 <= j < ms.len() ==> ms[j] == rest[j - 1]);
        if find_key_index(ms, name) != -1 {
            let i = find_key_index(ms, name);
            assert(rest[i - 1].key.name() == name);
        }
    }
}

/// Structural merge of two type models, as performed by `TsType::and`:
/// two type literals merge member-wise, intersections concatenate, and any
/// other pair becomes a two-element intersection.
pub open spec fn spec_and(a: TyM, b: TyM) -> TyM
    decreases ty_height(b), 1int, 0int,
{
    match (a, b) {
        (TyM::TypeLit(x), TyM::TypeLit(y)) => TyM::TypeLit(spec_merge_members(x, y)),
        (TyM::Intersection(x), TyM::Intersection(y)) => TyM::Intersection(x + y),
        (TyM::Intersection(x), yy) => TyM::Intersection(x.push(yy)),
        (xx, TyM::Intersection(y)) => TyM::Intersection(seq![xx] + y),
        (xx, yy) => TyM::Intersection(seq![xx, yy]),
    }
}

/// Merges the members `ys` into `acc`, left to right: a member whose key is
/// already present combines the annotations via `spec_and`, a new key is
/// appended.
pub open spec fn spec_merge_members(acc: Seq<MemberM>, ys: Seq<MemberM>) -> Seq<MemberM>
    decreases members_height(ys) + 1, 0int, ys.len(),
    via spec_merge_members_decreases
{
    if ys.len() == 0 {
        acc
    } else {
        let m = ys.first();
        let i = find_key_index(acc, m.key.name());
        let acc1 = if i == -1 {
            acc.push(m)
        } else {
            let old_m = acc[i];
            acc.update(
                i,
                MemberM {
                    key: old_m.key,
                    type_ann: spec_and_bounded(old_m.type_ann, m.type_ann),
                    optional: old_m.optional,
                    comments: old_m.comments,
                },
            )
        };
        spec_merge_members(acc1, ys.drop_first())
    }
}

pub proof fn lemma_members_height(s: Seq<MemberM>)
    ensures
        forall|i: int| 0 <= i < s.len() ==> ty_height(#[trigger] s[i].type_ann) <= members_height(s),
    decreases s.len(),
{
    if s.len() > 0 {
        lemma_members_height(s.drop_first());
        assert forall|i: int| 0 <= i < s.len() implies ty_height(#[trigger] s[i].type_ann)
            <= members_height(s) by {
            if i > 0 {
                assert(s.drop_first()[i - 1] == s[i]);
            }
        }
    }
}

#[via_fn]
proof fn spec_merge_members_decreases(acc: Seq<MemberM>, ys: Seq<MemberM>) {
    if ys.len() > 0 {
        assert(ty_height(ys.first().type_ann) <= members_height(ys));
        assert(members_height(ys.drop_first()) <= members_height(ys));
    }
}

/// Helper equal to `spec_and`, carried through the member merge so the
/// mutual recursion has a decreasing measure.
pub open spec fn spec_and_bounded(a: TyM, b: TyM) -> TyM
    decreases ty_height(b), 2int, 0int,
{
    spec_and(a, b)
}

impl TsType {
    /// The nullish unit sentinel for `config`: `undefined` or `null`.
    pub fn nullish(config: &TypeGenerationConfig) -> (r: TsType)
        ensures
            r@ == spec_nullish(config),
    {
        NullType::new(config).to_type()
    }

    /// An empty type literal `{}`.
    pub fn empty_type_lit() -> (r: TsType)
        ensures
            r@ == TyM::TypeLit(Seq::<MemberM>::empty()),
    {
        let r = TsType::TypeLit(TsTypeLit { members: Vec::new() });
        proof {
            lemma_members_view(r->TypeLit_0.members@);
            assert(r@->TypeLit_0 =~= Seq::<MemberM>::empty());
        }
        r
    }

    /// Whether this node is a plain reference to a named type.
    pub fn is_ref(&self) -> (r: bool)
        ensures
            r == (self@ is Ref),
    {
        match self {
            TsType::Ref { .. } => true,
            _ => false,
        }
    }

    /// Merges two nodes structurally: two type literals merge member-wise,
    /// intersections concatenate, and any other pair becomes an intersection.
    pub fn and(self, other: Self) -> (r: Self)
        ensures
            r@ == spec_and(self@, other@),
        decreases ty_height(other@), 1int, 0int,
    {
        let ghost av = self@;
        let ghost bv = other@;
        match (self, other) {
            (TsType::TypeLit(x), TsType::TypeLit(y)) => TsType::TypeLit(x.and(y)),
            (TsType::Intersection(x), TsType::Intersection(y)) => {
                let mut v = x;
                let ghost xv = v@;
                let n = y.len();
                let mut i: usize = 0;
                proof {
                    lemma_tys_view(y@);
                }
                while i < n
                    invariant
                        0 <= i <= n == y@.len(),
                        v@.len() == xv.len() + i,
                        forall|j: int| 0 <= j < xv.len() ==> v@[j] == xv[j],
                        forall|j: int|
                            0 <= j < i ==> (#[trigger] v@[xv.len() + j])@ == y@[j]@,
                    decreases n - i,
                {
                    v.push(y[i].duplicate());
                    i += 1;
                }
                let r = TsType::Intersection(v);
                proof {
                    lemma_tys_view(r->Intersection_0@);
                    lemma_tys_view(xv);
                    lemma_tys_view(y@);
                    assert forall|j: int| 0 <= j < r->Intersection_0@.len() implies tys_view(
                        r->Intersection_0@,
                    )[j] == (av->Intersection_0 + bv->Intersection_0)[j] by {
                        if j >= xv.len() {
                            assert((r->Intersection_0@[xv.len() as int + (j - xv.len())])@ == y@[j
                                - xv.len()]@);
                        }
                    }
                    assert(tys_view(r->Intersection_0@) =~= av->Intersection_0
                        + bv->Intersection_0);
                }
                r
            },
            (TsType::Intersection(x), y) => {
                let mut v = x;
                let ghost xv = v@;
                v.push(y);
                let r = TsType::Intersection(v);
                proof {
                    lemma_tys_view(r->Intersection_0@);
                    lemma_tys_view(xv);
                    assert(tys_view(r->Intersection_0@) =~= av->Intersection_0.push(bv));
                }
                r
            },
            (x, TsType::Intersection(y)) => {
                let mut v: Vec<TsType> = Vec::new();
                v.push(x);
                let ghost xv = v@;
                let n = y.len();
                let mut i: usize = 0;
                proof {
                    lemma_tys_view(y@);
                }
                while i < n
                    invariant
                        0 <= i <= n == y@.len(),
                        v@.len() == 1 + i,
                        v@[0] == xv[0],
                        xv.len() == 1,
                        forall|j: int| 0 <= j < i ==> (#[trigger] v@[1 + j])@ == y@[j]@,
                    decreases n - i,
                {
                    v.push(y[i].duplicate());
                    i += 1;
                }
                let r = TsType::Intersection(v);
                proof {
                    lemma_tys_view(r->Intersection_0@);
                    lemma_tys_view(y@);
                    assert forall|j: int| 0 <= j < r->Intersection_0@.len() implies tys_view(
                        r->Intersection_0@,
                    )[j] == (seq![av] + bv->Intersection_0)[j] by {
                        if j >= 1 {
                            assert((r->Intersection_0@[1 + (j - 1)])@ == y@[j - 1]@);
                        }
                    }
                    assert(tys_view(r->Intersection_0@) =~= seq![av] + bv->Intersection_0);
                }
                r
            },
            (x, y) => {
                let mut v: Vec<TsType> = Vec::new();
                v.push(x);
                v.push(y);
                let r = TsType::Intersection(v);
                proof {
                    lemma_tys_view(r->Intersection_0@);
                    assert(tys_view(r->Intersection_0@) =~= seq![av, bv]);
                }
                r
            },
        }
    }

    /// Whether this node is exactly the nullish sentinel of `config`.
    pub fn is_nullish(&self, config: &TypeGenerationConfig) -> (r: bool)
        ensures
            r == (self@ == spec_nullish(config)),
    {
        match self {
            TsType::Keyword(k) => *k == NullType::new(config).to_kind(),
            _ => false,
        }
    }
}

/// The model of the nullish unit sentinel for `config`.
pub open spec fn spec_nullish(config: &TypeGenerationConfig) -> TyM {
    TyM::Keyword(spec_null_type(config).spec_kind())
}

impl TsType {
    /// A structural copy of this node, equal to it in the model.
    pub fn duplicate(&self) -> (r: TsType)
        ensures
            r@ == self@,
        decreases *self,
    {
        match self {
            TsType::Keyword(k) => TsType::Keyword(*k),
            TsType::Lit(s) => TsType::Lit(s.clone()),
            TsType::Computed(s) => TsType::Computed(s.clone()),
            TsType::Array(b) => TsType::Array(Box::new(b.duplicate())),
            TsType::Tuple(v) => {
                let r = TsType::Tuple(duplicate_tys(v));
                proof {
                    assert(r@->Tuple_0 =~= self@->Tuple_0) by {
                        lemma_tys_views_eq(r->Tuple_0@, v@);
                    }
                }
                r
            },
            TsType::Optional(b, n) => TsType::Optional(Box::new(b.duplicate()), *n),
            TsType::Ref { name, type_params } => {
                let ps = duplicate_tys(type_params);
                let r = TsType::Ref { name: name.clone(), type_params: ps };
                proof {
                    lemma_tys_views_eq(r->Ref_type_params@, type_params@);
                    assert(r@ =~= self@);
                }
                r
            },
            TsType::Func { params, type_ann } => {
                let ps = duplicate_tys(params);
                let r = TsType::Func { params: ps, type_ann: Box::new(type_ann.duplicate()) };
                proof {
                    lemma_tys_views_eq(r->Func_params@, params@);
                    assert(r@ =~= self@);
                }
                r
            },
            TsType::TypeLit(lit) => TsType::TypeLit(lit.duplicate()),
            TsType::Intersection(v) => {
                let r = TsType::Intersection(duplicate_tys(v));
                proof {
                    lemma_tys_views_eq(r->Intersection_0@, v@);
                    assert(r@ =~= self@);
                }
                r
            },
            TsType::Union(v) => {
                let r = TsType::Union(duplicate_tys(v));
                proof {
                    lemma_tys_views_eq(r->Union_0@, v@);
                    assert(r@ =~= self@);
                }
                r
            },
            TsType::Override { type_override, generic_params } => {
                let mut ps: Vec<String> = Vec::new();
                let mut i: usize = 0;
                let n = generic_params.len();
                while i < n
                    invariant
                        0 <= i <= n == generic_params@.len(),
                        ps@.len() == i,
                        forall|j: int| 0 <= j < i ==> ps@[j]@ == generic_params@[j]@,
                    decreases n - i,
                {
                    ps.push(generic_params[i].clone());
                    i += 1;
                }
                let r = TsType::Override { type_override: type_override.clone(), generic_params: ps };
                proof {
                    assert(r@->Override_generic_params =~= self@->Override_generic_params);
                    assert(r@ =~= self@);
                }
                r
            },
        }
    }
}

/// Proves that element-wise equal views give equal sequence views.
proof fn lemma_tys_views_eq(a: Seq<TsType>, b: Seq<TsType>)
    requires
        a.len() == b.len(),
        forall|i: int| 0 <= i < a.len() ==> a[i]@ == b[i]@,
    ensures
        tys_view(a) == tys_view(b),
{
    lemma_tys_view(a);
    lemma_tys_view(b);
    assert(tys_view(a) =~= tys_view(b));
}

/// Proves that element-wise equal member views give equal sequence views.
pub proof fn lemma_members_views_eq(a: Seq<TsTypeElement>, b: Seq<TsTypeElement>)
    requires
        a.len() == b.len(),
        forall|i: int| 0 <= i < a.len() ==> (#[trigger] a[i])@ == b[i]@,
    ensures
        members_view(a) == members_view(b),
{
    lemma_members_view(a);
    lemma_members_view(b);
    assert(members_view(a) =~= members_view(b));
}

/// Structural copies of a list of nodes, equal to it in the model.
fn duplicate_tys(v: &Vec<TsType>) -> (r: Vec<TsType>)
    ensures
        r@.len() == v@.len(),
        forall|i: int| 0 <= i < v@.len() ==> (#[trigger] r@[i])@ == v@[i]@,
    decreases *v,
{
    let mut r: Vec<TsType> = Vec::new();
    let mut i: usize = 0;
    let n = v.len();
    while i < n
        invariant
            0 <= i <= n == v@.len(),
            r@.len() == i,
            forall|j: int| 0 <= j < i ==> (#[trigger] r@[j])@ == v@[j]@,
        decreases n - i,
    {
        r.push(v[i].duplicate());
        i += 1;
    }
    r
}

impl Clone for TsType {
    /// Clones the node; the copy has the same model.
    fn clone(&self) -> (r: Self)
        ensures
            r@ == self@,
    {
        self.duplicate()
    }
}


/// The model of wrapping a variant payload in a tagging discipline.
pub open spec fn spec_with_tag_type(
    cfg: &TypeGenerationConfig,
    t: TyM,
    key: KeyM,
    style: Style,
    tag_type: &TagType,
) -> TyM {
    match tag_type {
        TagType::External => {
            if style is Unit {
                key.spec_type()
            } else {
                TyM::TypeLit(
                    seq![
                        MemberM {
                            key: key,
                            type_ann: t,
                            optional: false,
                            comments: Seq::empty(),
                        },
                    ],
                )
            }
        },
        TagType::Internal { tag } => {
            let tag_member = MemberM {
                key: KeyM::Lit(tag@),
                type_ann: key.spec_type(),
                optional: false,
                comments: Seq::empty(),
            };
            if t == spec_nullish(cfg) {
                TyM::TypeLit(seq![tag_member])
            } else {
                spec_and(TyM::TypeLit(seq![tag_member]), t)
            }
        },
        TagType::Adjacent { tag, content } => {
            let tag_member = MemberM {
                key: KeyM::Lit(tag@),
                type_ann: key.spec_type(),
                optional: false,
                comments: Seq::empty(),
            };
            if style is Unit {
                TyM::TypeLit(seq![tag_member])
            } else {
                TyM::TypeLit(
                    seq![
                        tag_member,
                        MemberM {
                            key: KeyM::Lit(content@),
                            type_ann: t,
                            optional: false,
                            comments: Seq::empty(),
                        },
                    ],
                )
            }
        },
        TagType::Untagged => t,
    }
}

impl TsType {
    /// Wraps a variant payload into the textual convention of the given
    /// tagging discipline, keyed by the variant's serialized name.
    pub fn with_tag_type(
        self,
        config: &TypeGenerationConfig,
        key: TsTypeElementKey,
        style: Style,
        tag_type: &TagType,
    ) -> (r: TsType)
        ensures
            r@ == spec_with_tag_type(config, self@, key@, style, tag_type),
    {
        let ghost tv = self@;
        let ghost kv = key@;
        match tag_type {
            TagType::External => {
                if style == Style::Unit {
                    key.into_type()
                } else {
                    let m = TsTypeElement {
                        key,
                        type_ann: self,
                        optional: false,
                        comments: Vec::new(),
                    };
                    proof {
                        assert(m@.comments =~= Seq::<Seq<char>>::empty());
                    }
                    m.into_type()
                }
            },
            TagType::Internal { tag } => {
                let tag_member = TsTypeElement {
                    key: TsTypeElementKey::Lit(tag.clone()),
                    type_ann: key.into_type(),
                    optional: false,
                    comments: Vec::new(),
                };
                proof {
                    assert(tag_member@.comments =~= Seq::<Seq<char>>::empty());
                }
                if self.is_nullish(config) {
                    tag_member.into_type()
                } else {
                    let tag_lit = tag_member.into_type();
                    tag_lit.and(self)
                }
            },
            TagType::Adjacent { tag, content } => {
                let tag_member = TsTypeElement {
                    key: TsTypeElementKey::Lit(tag.clone()),
                    type_ann: key.into_type(),
                    optional: false,
                    comments: Vec::new(),
                };
                proof {
                    assert(tag_member@.comments =~= Seq::<Seq<char>>::empty());
                }
                if style == Style::Unit {
                    tag_member.into_type()
                } else {
                    let content_member = TsTypeElement {
                        key: TsTypeElementKey::Lit(content.clone()),
                        type_ann: self,
                        optional: false,
                        comments: Vec::new(),
                    };
                    let ghost tmv = tag_member@;
                    let ghost cmv = content_member@;
                    let r = TsType::TypeLit(TsTypeLit { members: vec![tag_member, content_member] });
                    proof {
                        lemma_members_view(r->TypeLit_0.members@);
                        assert(cmv.comments =~= Seq::<Seq<char>>::empty());
                        assert(r@->TypeLit_0 =~= seq![tmv, cmv]);
                    }
                    r
                }
            },
            TagType::Untagged => self,
        }
    }
}

/// The set of type names referenced anywhere in a model tree: names of
/// plain references, and the generic parameters of raw overrides.
pub open spec fn spec_ref_names(t: TyM) -> Set<Seq<char>>
    decreases t,
{
    match t {
        TyM::Array(b) => spec_ref_names(*b),
        TyM::Optional(b, _) => spec_ref_names(*b),
        TyM::Tuple(v) => ref_names_list(v),
        TyM::Ref { name, type_params } => ref_names_list(type_params).insert(name),
        TyM::Func { params, type_ann } => ref_names_list(params) + spec_ref_names(*type_ann),
        TyM::TypeLit(ms) => ref_names_members(ms),
        TyM::Intersection(v) => ref_names_list(v),
        TyM::Union(v) => ref_names_list(v),
        TyM::Override { generic_params, .. } => generic_params.to_set(),
        _ => Set::empty(),
    }
}

/// The union of the referenced names of a list of model trees.
pub open spec fn ref_names_list(ts: Seq<TyM>) -> Set<Seq<char>>
    decreases ts,
{
    if ts.len() == 0 {
        Set::empty()
    } else {
        spec_ref_names(ts.first()) + ref_names_list(ts.drop_first())
    }
}

/// The union of the referenced names of the annotations of members.
pub open spec fn ref_names_members(ms: Seq<MemberM>) -> Set<Seq<char>>
    decreases ms,
{
    if ms.len() == 0 {
        Set::empty()
    } else {
        spec_ref_names(ms.first().type_ann) + ref_names_members(ms.drop_first())
    }
}

pub proof fn lemma_ref_names_list(ts: Seq<TyM>)
    ensures
        forall|s: Seq<char>|
            ref_names_list(ts).contains(s) <==> exists|i: int|
                0 <= i < ts.len() && (#[trigger] spec_ref_names(ts[i])).contains(s),
    decreases ts.len(),
{
    if ts.len() > 0 {
        lemma_ref_names_list(ts.drop_first());
        assert forall|s: Seq<char>| #[trigger]
            ref_names_list(ts).contains(s) implies exists|i: int|
            0 <= i < ts.len() && (#[trigger] spec_ref_names(ts[i])).contains(s) by {
            if spec_ref_names(ts.first()).contains(s) {
                assert(spec_ref_names(ts[0]).contains(s));
            } else {
                assert(ref_names_list(ts.drop_first()).contains(s));
                let i = choose|i: int|
                    0 <= i < ts.drop_first().len() && (#[trigger] spec_ref_names(
                        ts.drop_first()[i],
                    )).contains(s);
                assert(ts.drop_first()[i] == ts[i + 1]);
                assert(spec_ref_names(ts[i + 1]).contains(s));
            }
        }
        assert forall|s: Seq<char>|
            (exists|i: int|
                0 <= i < ts.len() && (#[trigger] spec_ref_names(ts[i])).contains(
                    s,
                )) implies #[trigger] ref_names_list(ts).contains(s) by {
            let i = choose|i: int|
                0 <= i < ts.len() && (#[trigger] spec_ref_names(ts[i])).contains(s);
            assert(ref_names_list(ts) == spec_ref_names(ts.first()) + ref_names_list(
                ts.drop_first(),
            ));
            if i == 0 {
                assert(spec_ref_names(ts.first()).contains(s));
            } else {
                assert(ts.drop_first()[i - 1] == ts[i]);
                assert(spec_ref_names(ts.drop_first()[i - 1]).contains(s));
                assert(ref_names_list(ts.drop_first()).contains(s));
            }
        }
    }
}

pub proof fn lemma_ref_names_members(ms: Seq<MemberM>)
    ensures
        forall|s: Seq<char>|
            ref_names_members(ms).contains(s) <==> exists|i: int|
                0 <= i < ms.len() && (#[trigger] spec_ref_names(ms[i].type_ann)).contains(s),
    decreases ms.len(),
{
    if ms.len() > 0 {
        lemma_ref_names_members(ms.drop_first());
        assert forall|s: Seq<char>| #[trigger]
            ref_names_members(ms).contains(s) implies exists|i: int|
            0 <= i < ms.len() && (#[trigger] spec_ref_names(ms[i].type_ann)).contains(s) by {
            if spec_ref_names(ms.first().type_ann).contains(s) {
                assert(spec_ref_names(ms[0].type_ann).contains(s));
            } else {
                assert(ref_names_members(ms.drop_first()).contains(s));
                let i = choose|i: int|
                    0 <= i < ms.drop_first().len() && (#[trigger] spec_ref_names(
                        ms.drop_first()[i].type_ann,
                    )).contains(s);
                assert(ms.drop_first()[i] == ms[i + 1]);
                assert(spec_ref_names(ms[i + 1].type_ann).contains(s));
            }
        }
        assert forall|s: Seq<char>|
            (exists|i: int|
                0 <= i < ms.len() && (#[trigger] spec_ref_names(ms[i].type_ann)).contains(
                    s,
                )) implies #[trigger] ref_names_members(ms).contains(s) by {
            let i = choose|i: int|
                0 <= i < ms.len() && (#[trigger] spec_ref_names(ms[i].type_ann)).contains(s);
            assert(ref_names_members(ms) == spec_ref_names(ms.first().type_ann)
                + ref_names_members(ms.drop_first()));
            if i == 0 {
                assert(spec_ref_names(ms.first().type_ann).contains(s));
            } else {
                assert(ms.drop_first()[i - 1] == ms[i]);
                assert(spec_ref_names(ms.drop_first()[i - 1].type_ann).contains(s));
                assert(ref_names_members(ms.drop_first()).contains(s));
            }
        }
    }
}

/// Appends every name referenced in `t` to `out`; entries may repeat.
fn collect_ref_names(t: &TsType, out: &mut Vec<String>)
    ensures
        final(out)@.len() >= old(out)@.len(),
        forall|i: int| 0 <= i < old(out)@.len() ==> final(out)@[i] == old(out)@[i],
        forall|i: int|
            old(out)@.len() <= i < final(out)@.len() ==> spec_ref_names(t@).contains(
                (#[trigger] final(out)@[i])@,
            ),
    decreases *t,
{
    match t {
        TsType::Array(b) => collect_ref_names(&**b, out),
        TsType::Optional(b, _) => collect_ref_names(&**b, out),
        TsType::Tuple(v) => collect_ref_names_list(v, out),
        TsType::Ref { name, type_params } => {
            out.push(name.clone());
            collect_ref_names_list(type_params, out);
        },
        TsType::Func { params, type_ann } => {
            collect_ref_names_list(params, out);
            collect_ref_names(&**type_ann, out);
        },
        TsType::TypeLit(lit) => {
            collect_ref_names_members(&lit.members, out);
        },
        TsType::Intersection(v) => collect_ref_names_list(v, out),
        TsType::Union(v) => collect_ref_names_list(v, out),
        TsType::Override { generic_params, .. } => {
            let n = generic_params.len();
            let mut i: usize = 0;
            while i < n
                invariant
                    0 <= i <= n == generic_params@.len(),
                    out@.len() >= old(out)@.len(),
                    forall|j: int| 0 <= j < old(out)@.len() ==> out@[j] == old(out)@[j],
                    forall|j: int|
                        old(out)@.len() <= j < out@.len() ==> generic_params.deep_view().contains(
                            (#[trigger] out@[j])@,
                        ),
                decreases n - i,
            {
                out.push(generic_params[i].clone());
                proof {
                    assert(generic_params.deep_view()[i as int] == generic_params@[i as int]@);
                    assert(generic_params.deep_view().contains(generic_params@[i as int]@));
                }
                i += 1;
            }
        },
        _ => {},
    }
}

/// Appends the referenced names of every element of `v` to `out`.
fn collect_ref_names_list(v: &Vec<TsType>, out: &mut Vec<String>)
    ensures
        final(out)@.len() >= old(out)@.len(),
        forall|i: int| 0 <= i < old(out)@.len() ==> final(out)@[i] == old(out)@[i],
        forall|i: int|
            old(out)@.len() <= i < final(out)@.len() ==> ref_names_list(tys_view(v@)).contains(
                (#[trigger] final(out)@[i])@,
            ),
    decreases *v,
{
    let ghost ts = tys_view(v@);
    proof {
        lemma_tys_view(v@);
        lemma_ref_names_list(ts);
    }
    let n = v.len();
    let mut i: usize = 0;
    while i < n
        invariant
            0 <= i <= n == v@.len(),
            ts == tys_view(v@),
            ts.len() == n,
            forall|j: int| 0 <= j < n ==> ts[j] == (#[trigger] v@[j])@,
            out@.len() >= old(out)@.len(),
            forall|j: int| 0 <= j < old(out)@.len() ==> out@[j] == old(out)@[j],
            forall|j: int|
                old(out)@.len() <= j < out@.len() ==> ref_names_list(ts).contains(
                    (#[trigger] out@[j])@,
                ),
        decreases n - i,
    {
        let ghost before = out@;
        collect_ref_names(&v[i], out);
        proof {
            lemma_ref_names_list(ts);
            assert forall|j: int|
                old(out)@.len() <= j < out@.len() implies ref_names_list(ts).contains(
                (#[trigger] out@[j])@,
            ) by {
                if j >= before.len() {
                    assert(spec_ref_names(ts[i as int]).contains(out@[j]@));
                }
            }
        }
        i += 1;
    }
}

/// Appends the referenced names of every member annotation to `out`.
fn collect_ref_names_members(v: &Vec<TsTypeElement>, out: &mut Vec<String>)
    ensures
        final(out)@.len() >= old(out)@.len(),
        forall|i: int| 0 <= i < old(out)@.len() ==> final(out)@[i] == old(out)@[i],
        forall|i: int|
            old(out)@.len() <= i < final(out)@.len() ==> ref_names_members(
                members_view(v@),
            ).contains((#[trigger] final(out)@[i])@),
    decreases *v,
{
    let ghost ms = members_view(v@);
    proof {
        lemma_members_view(v@);
        lemma_ref_names_members(ms);
    }
    let n = v.len();
    let mut i: usize = 0;
    while i < n
        invariant
            0 <= i <= n == v@.len(),
            ms == members_view(v@),
            ms.len() == n,
            forall|j: int| 0 <= j < n ==> ms[j] == (#[trigger] v@[j])@,
            out@.len() >= old(out)@.len(),
            forall|j: int| 0 <= j < old(out)@.len() ==> out@[j] == old(out)@[j],
            forall|j: int|
                old(out)@.len() <= j < out@.len() ==> ref_names_members(ms).contains(
                    (#[trigger] out@[j])@,
                ),
        decreases n - i,
    {
        let ghost before = out@;
        collect_ref_names(&v[i].type_ann, out);
        proof {
            lemma_ref_names_members(ms);
            assert forall|j: int|
                old(out)@.len() <= j < out@.len() implies ref_names_members(ms).contains(
                (#[trigger] out@[j])@,
            ) by {
                if j >= before.len() {
                    assert(spec_ref_names(ms[i as int].type_ann).contains(out@[j]@));
                }
            }
        }
        i += 1;
    }
}

/// Decides whether `name` is referenced anywhere in `t`.
pub fn has_ref_name(t: &TsType, name: &String) -> (r: bool)
    ensures
        r == spec_ref_names(t@).contains(name@),
    decreases *t,
{
    match t {
        TsType::Array(b) => has_ref_name(&**b, name),
        TsType::Optional(b, _) => has_ref_name(&**b, name),
        TsType::Tuple(v) => list_has_ref_name(v, name),
        TsType::Ref { name: rname, type_params } => {
            if rname.eq(name) {
                true
            } else {
                list_has_ref_name(type_params, name)
            }
        },
        TsType::Func { params, type_ann } => {
            if list_has_ref_name(params, name) {
                true
            } else {
                has_ref_name(&**type_ann, name)
            }
        },
        TsType::TypeLit(lit) => members_have_ref_name(&lit.members, name),
        TsType::Intersection(v) => list_has_ref_name(v, name),
        TsType::Union(v) => list_has_ref_name(v, name),
        TsType::Override { generic_params, .. } => {
            let found = crate::input::strings_contain(generic_params, name);
            proof {
                assert(t@->Override_generic_params == generic_params.deep_view());
                assert(generic_params.deep_view().to_set().contains(name@)
                    == generic_params.deep_view().contains(name@));
            }
            found
        },
        _ => false,
    }
}

/// Decides whether `name` is referenced in any element of `v`.
pub fn list_has_ref_name(v: &Vec<TsType>, name: &String) -> (r: bool)
    ensures
        r == ref_names_list(tys_view(v@)).contains(name@),
    decreases *v,
{
    let ghost ts = tys_view(v@);
    proof {
        lemma_tys_view(v@);
        lemma_ref_names_list(ts);
    }
    let n = v.len();
    let mut i: usize = 0;
    while i < n
        invariant
            0 <= i <= n == v@.len(),
            ts == tys_view(v@),
            ts.len() == n,
            forall|j: int| 0 <= j < n ==> ts[j] == (#[trigger] v@[j])@,
            forall|j: int| 0 <= j < i ==> !(#[trigger] spec_ref_names(ts[j])).contains(name@),
        decreases n - i,
    {
        if has_ref_name(&v[i], name) {
            proof {
                lemma_ref_names_list(ts);
                assert(spec_ref_names(ts[i as int]).contains(name@));
            }
            return true;
        }
        i += 1;
    }
    proof {
        lemma_ref_names_list(ts);
    }
    false
}

/// Decides whether `name` is referenced in any member annotation of `v`.
pub fn members_have_ref_name(v: &Vec<TsTypeElement>, name: &String) -> (r: bool)
    ensures
        r == ref_names_members(members_view(v@)).contains(name@),
    decreases *v,
{
    let ghost ms = members_view(v@);
    proof {
        lemma_members_view(v@);
        lemma_ref_names_members(ms);
    }
    let n = v.len();
    let mut i: usize = 0;
    while i < n
        invariant
            0 <= i <= n == v@.len(),
            ms == members_view(v@),
            ms.len() == n,
            forall|j: int| 0 <= j < n ==> ms[j] == (#[trigger] v@[j])@,
            forall|j: int|
                0 <= j < i ==> !(#[trigger] spec_ref_names(ms[j].type_ann)).contains(name@),
        decreases n - i,
    {
        if has_ref_name(&v[i].type_ann, name) {
            proof {
                lemma_ref_names_members(ms);
                assert(spec_ref_names(ms[i as int].type_ann).contains(name@));
            }
            return true;
        }
        i += 1;
    }
    proof {
        lemma_ref_names_members(ms);
    }
    false
}

impl TsType {
    /// The names of every type referenced in this tree: reference names and
    /// the generic parameters of raw overrides. Entries may repeat.
    pub fn type_ref_names(&self) -> (r: Vec<String>)
        ensures
            forall|i: int|
                0 <= i < r@.len() ==> spec_ref_names(self@).contains((#[trigger] r@[i])@),
    {
        let mut out: Vec<String> = Vec::new();
        collect_ref_names(self, &mut out);
        out
    }

    /// Decides whether `name` is referenced anywhere in this tree.
    pub fn references(&self, name: &String) -> (r: bool)
        ensures
            r == spec_ref_names(self@).contains(name@),
    {
        has_ref_name(self, name)
    }
}


/// The model of prefixing every referenced type name that is not listed in
/// `exc` with `pre`.
pub open spec fn spec_prefix_refs(t: TyM, pre: Seq<char>, exc: Seq<Seq<char>>) -> TyM
    decreases t,
{
    match t {
        TyM::Array(b) => TyM::Array(Box::new(spec_prefix_refs(*b, pre, exc))),
        TyM::Tuple(v) => TyM::Tuple(prefix_refs_list(v, pre, exc)),
        TyM::Optional(b, n) => TyM::Optional(Box::new(spec_prefix_refs(*b, pre, exc)), n),
        TyM::Ref { name, type_params } => TyM::Ref {
            name: if exc.contains(name) {
                name
            } else {
                pre + name
            },
            type_params: prefix_refs_list(type_params, pre, exc),
        },
        TyM::Func { params, type_ann } => TyM::Func {
            params: prefix_refs_list(params, pre, exc),
            type_ann: Box::new(spec_prefix_refs(*type_ann, pre, exc)),
        },
        TyM::TypeLit(ms) => TyM::TypeLit(prefix_refs_members(ms, pre, exc)),
        TyM::Intersection(v) => TyM::Intersection(prefix_refs_list(v, pre, exc)),
        TyM::Union(v) => TyM::Union(prefix_refs_list(v, pre, exc)),
        _ => t,
    }
}

/// Element-wise prefixing of a list of model trees.
pub open spec fn prefix_refs_list(ts: Seq<TyM>, pre: Seq<char>, exc: Seq<Seq<char>>) -> Seq<TyM>
    decreases ts,
{
    if ts.len() == 0 {
        Seq::empty()
    } else {
        prefix_refs_list(ts.drop_last(), pre, exc).push(spec_prefix_refs(ts.last(), pre, exc))
    }
}

/// Member-wise prefixing of the annotations of members.
pub open spec fn prefix_refs_members(ms: Seq<MemberM>, pre: Seq<char>, exc: Seq<Seq<char>>) -> Seq<
    MemberM,
>
    decreases ms,
{
    if ms.len() == 0 {
        Seq::empty()
    } else {
        prefix_refs_members(ms.drop_last(), pre, exc).push(
            MemberM {
                key: ms.last().key,
                type_ann: spec_prefix_refs(ms.last().type_ann, pre, exc),
                optional: ms.last().optional,
                comments: ms.last().comments,
            },
        )
    }
}

pub proof fn lemma_prefix_refs_list(ts: Seq<TyM>, pre: Seq<char>, exc: Seq<Seq<char>>)
    ensures
        prefix_refs_list(ts, pre, exc).len() == ts.len(),
        forall|i: int|
            0 <= i < ts.len() ==> prefix_refs_list(ts, pre, exc)[i] == spec_prefix_refs(
                #[trigger] ts[i],
                pre,
                exc,
            ),
    decreases ts.len(),
{
    if ts.len() > 0 {
        lemma_prefix_refs_list(ts.drop_last(), pre, exc);
        assert forall|i: int|
            0 <= i < ts.len() implies prefix_refs_list(ts, pre, exc)[i] == spec_prefix_refs(
            #[trigger] ts[i],
            pre,
            exc,
        ) by {
            if i < ts.len() - 1 {
                assert(ts.drop_last()[i] == ts[i]);
            }
        }
    }
}

pub proof fn lemma_prefix_refs_members(ms: Seq<MemberM>, pre: Seq<char>, exc: Seq<Seq<char>>)
    ensures
        prefix_refs_members(ms, pre, exc).len() == ms.len(),
        forall|i: int|
            0 <= i < ms.len() ==> prefix_refs_members(ms, pre, exc)[i] == (MemberM {
                key: (#[trigger] ms[i]).key,
                type_ann: spec_prefix_refs(ms[i].type_ann, pre, exc),
                optional: ms[i].optional,
                comments: ms[i].comments,
            }),
    decreases ms.len(),
{
    if ms.len() > 0 {
        lemma_prefix_refs_members(ms.drop_last(), pre, exc);
        assert forall|i: int|
            0 <= i < ms.len() implies prefix_refs_members(ms, pre, exc)[i] == (MemberM {
            key: (#[trigger] ms[i]).key,
            type_ann: spec_prefix_refs(ms[i].type_ann, pre, exc),
            optional: ms[i].optional,
            comments: ms[i].comments,
        }) by {
            if i < ms.len() - 1 {
                assert(ms.drop_last()[i] == ms[i]);
            }
        }
    }
}

impl TsType {
    /// A copy of this tree in which every referenced type name not listed
    /// in `exceptions` carries the prefix.
    pub fn prefix_type_refs(&self, prefix: &String, exceptions: &Vec<String>) -> (r: TsType)
        ensures
            r@ == spec_prefix_refs(self@, prefix@, exceptions.deep_view()),
        decreases *self,
    {
        match self {
            TsType::Array(b) => TsType::Array(
                Box::new(b.prefix_type_refs(prefix, exceptions)),
            ),
            TsType::Tuple(v) => {
                TsType::Tuple(prefix_tys(v, prefix, exceptions))
            },
            TsType::Optional(b, n) => TsType::Optional(
                Box::new(b.prefix_type_refs(prefix, exceptions)),
                *n,
            ),
            TsType::Ref { name, type_params } => {
                let new_name = if crate::input::strings_contain(exceptions, name) {
                    name.clone()
                } else {
                    let mut nn = String::new();
                    nn.append(prefix.as_str());
                    nn.append(name.as_str());
                    nn
                };
                let ps = prefix_tys(type_params, prefix, exceptions);
                TsType::Ref { name: new_name, type_params: ps }
            },
            TsType::Func { params, type_ann } => {
                let ps = prefix_tys(params, prefix, exceptions);
                let ret = type_ann.prefix_type_refs(prefix, exceptions);
                TsType::Func { params: ps, type_ann: Box::new(ret) }
            },
            TsType::TypeLit(lit) => {
                TsType::TypeLit(TsTypeLit { members: prefix_members(&lit.members, prefix, exceptions) })
            },
            TsType::Intersection(v) => {
                TsType::Intersection(prefix_tys(v, prefix, exceptions))
            },
            TsType::Union(v) => {
                TsType::Union(prefix_tys(v, prefix, exceptions))
            },
            _ => self.duplicate(),
        }
    }
}

/// Clones a list of strings, preserving its model.
pub fn clone_strings(v: &Vec<String>) -> (r: Vec<String>)
    ensures
        r.deep_view() == v.deep_view(),
{
    let mut r: Vec<String> = Vec::new();
    let n = v.len();
    let mut i: usize = 0;
    while i < n
        invariant
            0 <= i <= n == v@.len(),
            r@.len() == i,
            forall|j: int| 0 <= j < i ==> r@[j]@ == v@[j]@,
        decreases n - i,
    {
        r.push(v[i].clone());
        i += 1;
    }
    proof {
        assert(r.deep_view() =~= v.deep_view());
    }
    r
}

/// Element-wise prefixing of a list of type expressions.
fn prefix_tys(v: &Vec<TsType>, prefix: &String, exceptions: &Vec<String>) -> (r: Vec<TsType>)
    ensures
        r@.len() == v@.len(),
        tys_view(r@) == prefix_refs_list(tys_view(v@), prefix@, exceptions.deep_view()),
    decreases *v,
{
    let mut r: Vec<TsType> = Vec::new();
    let n = v.len();
    let mut i: usize = 0;
    while i < n
        invariant
            0 <= i <= n == v@.len(),
            r@.len() == i,
            forall|j: int|
                0 <= j < i ==> (#[trigger] r@[j])@ == spec_prefix_refs(
                    v@[j]@,
                    prefix@,
                    exceptions.deep_view(),
                ),
        decreases n - i,
    {
        let e = v[i].prefix_type_refs(prefix, exceptions);
        r.push(e);
        i += 1;
    }
    proof {
        lemma_tys_view(r@);
        lemma_tys_view(v@);
        lemma_prefix_refs_list(tys_view(v@), prefix@, exceptions.deep_view());
        assert forall|i: int| 0 <= i < v@.len() implies tys_view(r@)[i] == prefix_refs_list(
            tys_view(v@),
            prefix@,
            exceptions.deep_view(),
        )[i] by {
            assert(tys_view(v@)[i] == v@[i]@);
            assert(tys_view(r@)[i] == r@[i]@);
            assert(r@[i]@ == spec_prefix_refs(v@[i]@, prefix@, exceptions.deep_view()));
        }
        assert(tys_view(r@) =~= prefix_refs_list(tys_view(v@), prefix@, exceptions.deep_view()));
    }
    r
}

/// Member-wise prefixing of the annotations of members.
fn prefix_members(v: &Vec<TsTypeElement>, prefix: &String, exceptions: &Vec<String>) -> (r: Vec<
    TsTypeElement,
>)
    ensures
        members_view(r@) == prefix_refs_members(
            members_view(v@),
            prefix@,
            exceptions.deep_view(),
        ),
    decreases *v,
{
    let mut r: Vec<TsTypeElement> = Vec::new();
    let n = v.len();
    let mut i: usize = 0;
    while i < n
        invariant
            0 <= i <= n == v@.len(),
            r@.len() == i,
            forall|j: int|
                0 <= j < i ==> (#[trigger] r@[j])@ == (MemberM {
                    key: v@[j]@.key,
                    type_ann: spec_prefix_refs(v@[j]@.type_ann, prefix@, exceptions.deep_view()),
                    optional: v@[j]@.optional,
                    comments: v@[j]@.comments,
                }),
        decreases n - i,
    {
        let m = &v[i];
        let nm = TsTypeElement {
            key: m.key.clone(),
            type_ann: m.type_ann.prefix_type_refs(prefix, exceptions),
            optional: m.optional,
            comments: clone_strings(&m.comments),
        };
        r.push(nm);
        i += 1;
    }
    proof {
        lemma_members_view(r@);
        lemma_members_view(v@);
        lemma_prefix_refs_members(members_view(v@), prefix@, exceptions.deep_view());
        assert forall|i: int| 0 <= i < v@.len() implies members_view(r@)[i] == prefix_refs_members(
            members_view(v@),
            prefix@,
            exceptions.deep_view(),
        )[i] by {
            assert(members_view(v@)[i] == v@[i]@);
            assert(members_view(r@)[i] == r@[i]@);
            assert(r@[i]@ == (MemberM {
                key: v@[i]@.key,
                type_ann: spec_prefix_refs(v@[i]@.type_ann, prefix@, exceptions.deep_view()),
                optional: v@[i]@.optional,
                comments: v@[i]@.comments,
            }));
        }
        assert(members_view(r@) =~= prefix_refs_members(
            members_view(v@),
            prefix@,
            exceptions.deep_view(),
        ));
    }
    r
}


/// The model of one collected type reference: a name and its arguments.
pub open spec fn pair_view(p: (String, Vec<TsType>)) -> (Seq<char>, Seq<TyM>) {
    (p.0@, tys_view(p.1@))
}

/// The models of a list of collected type references.
pub open spec fn pairs_view(s: Seq<(String, Vec<TsType>)>) -> Seq<(Seq<char>, Seq<TyM>)> {
    s.map_values(|p: (String, Vec<TsType>)| pair_view(p))
}

/// Every plain type reference in a model tree with its arguments, in
/// pre-order: a reference is listed before the references inside its own
/// arguments.
pub open spec fn spec_type_refs(t: TyM) -> Seq<(Seq<char>, Seq<TyM>)>
    decreases t,
{
    match t {
        TyM::Array(b) => spec_type_refs(*b),
        TyM::Optional(b, _) => spec_type_refs(*b),
        TyM::Tuple(v) => type_refs_list(v),
        TyM::Ref { name, type_params } => seq![(name, type_params)] + type_refs_list(type_params),
        TyM::Func { params, type_ann } => type_refs_list(params) + spec_type_refs(*type_ann),
        TyM::TypeLit(ms) => type_refs_members(ms),
        TyM::Intersection(v) => type_refs_list(v),
        TyM::Union(v) => type_refs_list(v),
        _ => Seq::empty(),
    }
}

/// The collected references of a list of model trees, in order.
pub open spec fn type_refs_list(ts: Seq<TyM>) -> Seq<(Seq<char>, Seq<TyM>)>
    decreases ts,
{
    if ts.len() == 0 {
        Seq::empty()
    } else {
        spec_type_refs(ts.first()) + type_refs_list(ts.drop_first())
    }
}

/// The collected references of the annotations of members, in order.
pub open spec fn type_refs_members(ms: Seq<MemberM>) -> Seq<(Seq<char>, Seq<TyM>)>
    decreases ms,
{
    if ms.len() == 0 {
        Seq::empty()
    } else {
        spec_type_refs(ms.first().type_ann) + type_refs_members(ms.drop_first())
    }
}

proof fn lemma_type_refs_list_push(ts: Seq<TyM>, e: TyM)
    ensures
        type_refs_list(ts.push(e)) == type_refs_list(ts) + spec_type_refs(e),
    decreases ts.len(),
{
    if ts.len() == 0 {
        reveal_with_fuel(type_refs_list, 2);
        assert(ts.push(e).first() == e);
        assert(ts.push(e).drop_first() =~= Seq::<TyM>::empty());
        assert(type_refs_list(ts.push(e)) =~= type_refs_list(ts) + spec_type_refs(e));
    } else {
        assert(ts.push(e).first() == ts.first());
        assert(ts.push(e).drop_first() =~= ts.drop_first().push(e));
        lemma_type_refs_list_push(ts.drop_first(), e);
        assert(type_refs_list(ts.push(e)) =~= type_refs_list(ts) + spec_type_refs(e));
    }
}

proof fn lemma_type_refs_members_push(ms: Seq<MemberM>, e: MemberM)
    ensures
        type_refs_members(ms.push(e)) == type_refs_members(ms) + spec_type_refs(e.type_ann),
    decreases ms.len(),
{
    if ms.len() == 0 {
        reveal_with_fuel(type_refs_members, 2);
        assert(ms.push(e).first() == e);
        assert(ms.push(e).drop_first() =~= Seq::<MemberM>::empty());
        assert(type_refs_members(ms.push(e)) =~= type_refs_members(ms) + spec_type_refs(
            e.type_ann,
        ));
    } else {
        assert(ms.push(e).first() == ms.first());
        assert(ms.push(e).drop_first() =~= ms.drop_first().push(e));
        lemma_type_refs_members_push(ms.drop_first(), e);
        assert(type_refs_members(ms.push(e)) =~= type_refs_members(ms) + spec_type_refs(
            e.type_ann,
        ));
    }
}

/// Appends every collected reference of `t` to `out`, in pre-order.
fn collect_type_refs(t: &TsType, out: &mut Vec<(String, Vec<TsType>)>)
    ensures
        pairs_view(final(out)@) == pairs_view(old(out)@) + spec_type_refs(t@),
    decreases *t,
{
    let ghost base = out@;
    match t {
        TsType::Array(b) => {
            collect_type_refs(&**b, out);
        },
        TsType::Optional(b, _) => {
            collect_type_refs(&**b, out);
        },
        TsType::Tuple(v) => {
            collect_type_refs_list(v, out);
        },
        TsType::Ref { name, type_params } => {
            let args = duplicate_tys(type_params);
            let p = (name.clone(), args);
            proof {
                lemma_tys_view(p.1@);
                lemma_tys_view(type_params@);
                assert(tys_view(p.1@) =~= tys_view(type_params@));
                assert(pair_view(p) == (name@, tys_view(type_params@)));
            }
            out.push(p);
            proof {
                assert(pairs_view(out@) =~= pairs_view(base) + seq![
                    (name@, tys_view(type_params@)),
                ]);
            }
            collect_type_refs_list(type_params, out);
            proof {
                assert(pairs_view(final(out)@) =~= pairs_view(base) + spec_type_refs(t@));
            }
        },
        TsType::Func { params, type_ann } => {
            collect_type_refs_list(params, out);
            collect_type_refs(&**type_ann, out);
            proof {
                assert(pairs_view(final(out)@) =~= pairs_view(base) + spec_type_refs(t@));
            }
        },
        TsType::TypeLit(lit) => {
            collect_type_refs_members(&lit.members, out);
        },
        TsType::Intersection(v) => {
            collect_type_refs_list(v, out);
        },
        TsType::Union(v) => {
            collect_type_refs_list(v, out);
        },
        _ => {
            proof {
                assert(pairs_view(final(out)@) =~= pairs_view(base) + spec_type_refs(t@));
            }
        },
    }
}

/// Appends the collected references of every element of `v` to `out`.
fn collect_type_refs_list(v: &Vec<TsType>, out: &mut Vec<(String, Vec<TsType>)>)
    ensures
        pairs_view(final(out)@) == pairs_view(old(out)@) + type_refs_list(tys_view(v@)),
    decreases *v,
{
    let ghost ts = tys_view(v@);
    let ghost base = out@;
    proof {
        lemma_tys_view(v@);
    }
    let n = v.len();
    let mut i: usize = 0;
    proof {
        assert(pairs_view(out@) =~= pairs_view(base) + type_refs_list(ts.take(0)));
    }
    while i < n
        invariant
            0 <= i <= n == v@.len(),
            ts == tys_view(v@),
            ts.len() == n,
            forall|j: int| 0 <= j < n ==> ts[j] == (#[trigger] v@[j])@,
            pairs_view(out@) == pairs_view(base) + type_refs_list(ts.take(i as int)),
        decreases n - i,
    {
        collect_type_refs(&v[i], out);
        proof {
            lemma_type_refs_list_push(ts.take(i as int), ts[i as int]);
            assert(ts.take(i + 1) =~= ts.take(i as int).push(ts[i as int]));
            assert(pairs_view(out@) =~= pairs_view(base) + type_refs_list(ts.take(i + 1)));
        }
        i += 1;
    }
    proof {
        assert(ts.take(n as int) =~= ts);
    }
}

/// Appends the collected references of every member annotation to `out`.
fn collect_type_refs_members(v: &Vec<TsTypeElement>, out: &mut Vec<(String, Vec<TsType>)>)
    ensures
        pairs_view(final(out)@) == pairs_view(old(out)@) + type_refs_members(members_view(v@)),
    decreases *v,
{
    let ghost ms = members_view(v@);
    let ghost base = out@;
    proof {
        lemma_members_view(v@);
    }
    let n = v.len();
    let mut i: usize = 0;
    proof {
        assert(pairs_view(out@) =~= pairs_view(base) + type_refs_members(ms.take(0)));
    }
    while i < n
        invariant
            0 <= i <= n == v@.len(),
            ms == members_view(v@),
            ms.len() == n,
            forall|j: int| 0 <= j < n ==> ms[j] == (#[trigger] v@[j])@,
            pairs_view(out@) == pairs_view(base) + type_refs_members(ms.take(i as int)),
        decreases n - i,
    {
        collect_type_refs(&v[i].type_ann, out);
        proof {
            lemma_type_refs_members_push(ms.take(i as int), ms[i as int]);
            assert(ms.take(i + 1) =~= ms.take(i as int).push(ms[i as int]));
            assert(pairs_view(out@) =~= pairs_view(base) + type_refs_members(ms.take(i + 1)));
        }
        i += 1;
    }
    proof {
        assert(ms.take(n as int) =~= ms);
    }
}

impl TsType {
    /// Appends every plain type reference of this tree with its arguments
    /// to `type_refs`, in pre-order.
    pub fn type_refs(&self, type_refs: &mut Vec<(String, Vec<TsType>)>)
        ensures
            pairs_view(final(type_refs)@) == pairs_view(old(type_refs)@) + spec_type_refs(self@),
    {
        collect_type_refs(self, type_refs);
    }
}

} // verus!
