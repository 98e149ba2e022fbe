//! Basic building blocks of TypeScript type expressions: keywords, object
//! member keys, object members and object literals.

use vstd::prelude::*;

use crate::attrs::TypeGenerationConfig;
use crate::typescript::ts_type::{members_view, MemberM, TsType, TyM};

verus! {

/// Built-in TypeScript keyword types.
#[derive(Debug, Clone, Copy, PartialEq, Eq, Structural)]
pub enum TsKeywordTypeKind {
    /// The `number` type.
    Number,
    /// The `bigint` type.
    Bigint,
    /// The `boolean` type.
    Boolean,
    /// The `string` type.
    StringKind,
    /// The `void` type.
    Void,
    /// The `undefined` type.
    Undefined,
    /// The `null` type.
    Null,
    /// The `never` type.
    Never,
}

/// How a missing value is represented in the target language.
#[derive(Debug, Clone, Copy, PartialEq, Eq, Structural)]
pub enum NullType {
    Null,
    Undefined,
}

impl NullType {
    /// The null representation selected by `config`: `undefined` for the
    /// JavaScript flavour unless `missing_as_null` is set, else `null`.
    pub fn new(config: &TypeGenerationConfig) -> (r: Self)
        ensures
            r == spec_null_type(config),
    {
        if config.js && !config.missing_as_null {
            NullType::Undefined
        } else {
            NullType::Null
        }
    }

    /// The keyword kind that renders this null representation.
    pub fn to_kind(&self) -> (r: TsKeywordTypeKind)
        ensures
            r == self.spec_kind(),
    {
        match self {
            NullType::Null => TsKeywordTypeKind::Null,
            NullType::Undefined => TsKeywordTypeKind::Undefined,
        }
    }

    /// The type node rendering this null representation.
    pub fn to_type(&self) -> (r: TsType)
        ensures
            r@ == TyM::Keyword(self.spec_kind()),
    {
        TsType::Keyword(self.to_kind())
    }

    pub open spec fn spec_kind(&self) -> TsKeywordTypeKind {
        match self {
            NullType::Null => TsKeywordTypeKind::Null,
            NullType::Undefined => TsKeywordTypeKind::Undefined,
        }
    }
}

/// The null representation selected by a configuration.
pub open spec fn spec_null_type(config: &TypeGenerationConfig) -> NullType {
    if config.js && !config.missing_as_null {
        NullType::Undefined
    } else {
        NullType::Null
    }
}

/// The key of one object-literal or interface member.
#[derive(Debug)]
pub enum TsTypeElementKey {
    /// A plain member key, quoted only when it is not a valid identifier.
    Lit(String),
    /// A plain member key that is always quoted.
    Quoted(String),
    /// A computed member key such as `[MyEnum.Variant]`.
    Var(String),
}

/// Mathematical model of a member key.
pub enum KeyM {
    Lit(Seq<char>),
    Quoted(Seq<char>),
    Var(Seq<char>),
}

impl View for TsTypeElementKey {
    type V = KeyM;

    open spec fn view(&self) -> KeyM {
        match self {
            TsTypeElementKey::Lit(s) => KeyM::Lit(s@),
            TsTypeElementKey::Quoted(s) => KeyM::Quoted(s@),
            TsTypeElementKey::Var(s) => KeyM::Var(s@),
        }
    }
}

impl TsTypeElementKey {
    /// The type node that a key denotes when used in a type position: a
    /// string literal type for a plain key, a computed reference otherwise.
    pub fn into_type(self) -> (r: TsType)
        ensures
            r@ == self@.spec_type(),
    {
        match self {
            TsTypeElementKey::Lit(s) => TsType::Lit(s),
            TsTypeElementKey::Quoted(s) => TsType::Lit(s),
            TsTypeElementKey::Var(s) => TsType::Computed(s),
        }
    }
}

impl KeyM {
    pub open spec fn spec_type(self) -> TyM {
        match self {
            KeyM::Lit(s) => TyM::Lit(s),
            KeyM::Quoted(s) => TyM::Lit(s),
            KeyM::Var(s) => TyM::Computed(s),
        }
    }

    pub open spec fn name(self) -> Seq<char> {
        match self {
            KeyM::Lit(s) => s,
            KeyM::Quoted(s) => s,
            KeyM::Var(s) => s,
        }
    }
}

/// Whether `s` is a plain JavaScript identifier: non-empty, not starting
/// with an ASCII digit, containing only ASCII alphanumerics, `_` and `$`.
pub open spec fn spec_is_js_ident(s: Seq<char>) -> bool {
    &&& s.len() > 0
    &&& !('0' <= s[0] <= '9')
    &&& forall|i: int|
        0 <= i < s.len() ==> ('a' <= #[trigger] s[i] <= 'z' || 'A' <= s[i] <= 'Z' || '0' <= s[i]
            <= '9' || s[i] == '_' || s[i] == '$')
}

/// Decides whether a member key can be emitted without quotes.
pub fn is_js_ident(s: &String) -> (r: bool)
    ensures
        r == spec_is_js_ident(s@),
{
    let len = s.as_str().unicode_len();
    if len == 0 {
        return false;
    }
    let first = s.as_str().get_char(0);
    if '0' <= first && first <= '9' {
        return false;
    }
    let mut i: usize = 0;
    while i < len
        invariant
            0 < len == s@.len(),
            0 <= i <= len,
            forall|j: int|
                0 <= j < i ==> ('a' <= #[trigger] s@[j] <= 'z' || 'A' <= s@[j] <= 'Z' || '0'
                    <= s@[j] <= '9' || s@[j] == '_' || s@[j] == '$'),
            !('0' <= s@[0] <= '9'),
        decreases len - i,
    {
        let c = s.as_str().get_char(i);
        let ok = ('a' <= c && c <= 'z') || ('A' <= c && c <= 'Z') || ('0' <= c && c <= '9') || c
            == '_' || c == '$';
        if !ok {
            return false;
        }
        i += 1;
    }
    true
}

impl Clone for TsTypeElementKey {
    /// Clones the key; the copy has the same model.
    fn clone(&self) -> (r: Self)
        ensures
            r@ == self@,
    {
        match self {
            TsTypeElementKey::Lit(s) => TsTypeElementKey::Lit(s.clone()),
            TsTypeElementKey::Quoted(s) => TsTypeElementKey::Quoted(s.clone()),
            TsTypeElementKey::Var(s) => TsTypeElementKey::Var(s.clone()),
        }
    }
}

/// One member of an object literal or interface body.
#[derive(Debug)]
pub struct TsTypeElement {
    pub key: TsTypeElementKey,
    pub type_ann: TsType,
    pub optional: bool,
    pub comments: Vec<String>,
}

impl View for TsTypeElement {
    type V = MemberM;

    open spec fn view(&self) -> MemberM {
        MemberM {
            key: self.key@,
            type_ann: self.type_ann@,
            optional: self.optional,
            comments: self.comments.deep_view(),
        }
    }
}

impl TsTypeElement {
    /// Wraps this member alone into a type-literal node.
    pub fn into_type(self) -> (r: TsType)
        ensures
            r@ == TyM::TypeLit(seq![self@]),
    {
        let ghost m = self@;
        let r = TsType::TypeLit(TsTypeLit { members: vec![self] });
        proof {
            crate::typescript::ts_type::lemma_members_view(r->TypeLit_0.members@);
            assert(r@->TypeLit_0 =~= seq![m]);
        }
        r
    }
}

impl TsTypeElement {
    /// A structural copy of this member, equal to it in the model.
    pub fn duplicate(&self) -> (r: TsTypeElement)
        ensures
            r@ == self@,
        decreases *self,
    {
        let mut comments: Vec<String> = Vec::new();
        let mut i: usize = 0;
        let n = self.comments.len();
        while i < n
            invariant
                0 <= i <= n == self.comments@.len(),
                comments@.len() == i,
                forall|j: int| 0 <= j < i ==> comments@[j]@ == self.comments@[j]@,
            decreases n - i,
        {
            comments.push(self.comments[i].clone());
            i += 1;
        }
        let r = TsTypeElement {
            key: self.key.clone(),
            type_ann: self.type_ann.duplicate(),
            optional: self.optional,
            comments,
        };
        proof {
            assert(r@.comments =~= self@.comments);
        }
        r
    }
}

/// An object literal type: an ordered list of members.
#[derive(Debug)]
pub struct TsTypeLit {
    pub members: Vec<TsTypeElement>,
}

impl View for TsTypeLit {
    type V = Seq<MemberM>;

    open spec fn view(&self) -> Seq<MemberM> {
        members_view(self.members@)
    }
}

impl TsTypeLit {
    /// A structural copy of this literal, equal to it in the model.
    pub fn duplicate(&self) -> (r: TsTypeLit)
        ensures
            r@ == self@,
        decreases *self,
    {
        let mut members: Vec<TsTypeElement> = Vec::new();
        let mut i: usize = 0;
        let n = self.members.len();
        while i < n
            invariant
                0 <= i <= n == self.members@.len(),
                members@.len() == i,
                forall|j: int| 0 <= j < i ==> (#[trigger] members@[j])@ == self.members@[j]@,
            decreases n - i,
        {
            members.push(self.members[i].duplicate());
            i += 1;
        }
        let r = TsTypeLit { members };
        proof {
            crate::typescript::ts_type::lemma_members_views_eq(r.members@, self.members@);
        }
        r
    }

    /// Merges the members of `other` into this literal, left to right.
    /// A member whose key is already present combines the two annotations
    /// with `TsType::and`; a member with a new key is appended.
    pub fn and(self, other: Self) -> (r: Self)
        ensures
            r@ == crate::typescript::ts_type::spec_merge_members(self@, other@),
        decreases crate::typescript::ts_type::members_height(other@) + 1, 0int, 0int,
    {
        let ghost orig_acc = self@;
        let ghost ys = other@;
        let mut acc = self;
        let n = other.members.len();
        proof {
            crate::typescript::ts_type::lemma_members_view(other.members@);
        }
        proof {
            assert(ys.skip(0) =~= ys);
        }
        let mut i: usize = 0;
        while i < n
            invariant
                0 <= i <= n == other.members@.len(),
                ys == members_view(other.members@),
                ys.len() == n,
                forall|j: int| 0 <= j < n ==> ys[j] == crate::typescript::ts_type::member_view(other.members@[j]),
                crate::typescript::ts_type::spec_merge_members(acc@, ys.skip(i as int))
                    == crate::typescript::ts_type::spec_merge_members(orig_acc, ys),
            decreases n - i,
        {
            let ghost acc0 = acc@;
            let ghost rest = ys.skip(i as int);
            proof {
                crate::typescript::ts_type::lemma_members_view(acc.members@);
                assert(rest.len() == n - i);
                assert(rest.first() == ys[i as int]);
                assert(rest.drop_first() =~= ys.skip(i as int + 1));
            }
            let m = other.members[i].duplicate();
            let ghost mvv = m@;
            proof {
                assert(mvv == ys[i as int]);
                assert(rest.first() == mvv);
            }
            match acc.key_index(&m.key) {
                Some(k) => {
                    proof {
                        crate::typescript::ts_type::lemma_find_key_index(acc0, m@.key.name());
                        assert(crate::typescript::ts_type::find_key_index(acc0, m@.key.name())
                            == k as int);
                    }
                    let old_m = acc.members.remove(k);
                    proof {
                        assert(old_m@ == acc0[k as int]);
                    }
                    let TsTypeElement { key, type_ann, optional, comments } = old_m;
                    proof {
                        crate::typescript::ts_type::lemma_members_height(ys);
                        assert(crate::typescript::ts_type::ty_height(ys[i as int].type_ann)
                            <= crate::typescript::ts_type::members_height(ys));
                    }
                    let combined = type_ann.and(m.type_ann);
                    let new_m = TsTypeElement { key, type_ann: combined, optional, comments };
                    let ghost new_mv = new_m@;
                    acc.members.insert(k, new_m);
                    proof {
                        crate::typescript::ts_type::lemma_members_view(acc.members@);
                        assert(acc@ =~= acc0.update(k as int, new_mv));
                        assert(new_mv == MemberM {
                            key: acc0[k as int].key,
                            type_ann: crate::typescript::ts_type::spec_and_bounded(
                                acc0[k as int].type_ann,
                                rest.first().type_ann,
                            ),
                            optional: acc0[k as int].optional,
                            comments: acc0[k as int].comments,
                        });
                    }
                },
                None => {
                    proof {
                        crate::typescript::ts_type::lemma_find_key_index(acc0, m@.key.name());
                        assert(crate::typescript::ts_type::find_key_index(acc0, m@.key.name())
                            == -1);
                    }
                    let ghost mv = m@;
                    acc.members.push(m);
                    proof {
                        crate::typescript::ts_type::lemma_members_view(acc.members@);
                        assert(acc@ =~= acc0.push(mv));
                    }
                },
            }
            proof {
                assert(crate::typescript::ts_type::spec_merge_members(acc0, rest)
                    == crate::typescript::ts_type::spec_merge_members(acc@, rest.drop_first()));
            }
            i += 1;
        }
        proof {
            assert(ys.skip(n as int) =~= Seq::<MemberM>::empty());
        }
        acc
    }

    /// The index of the member with key `key`, if one is present.
    pub fn key_index(&self, key: &TsTypeElementKey) -> (r: Option<usize>)
        ensures
            match r {
                Some(i) => 0 <= i < self@.len() && self@[i as int].key.name() == key@.name()
                    && forall|j: int| 0 <= j < i ==> self@[j].key.name() != key@.name(),
                None => forall|j: int| 0 <= j < self@.len() ==> self@[j].key.name() != key@.name(),
            },
{
        proof {
            crate::typescript::ts_type::lemma_members_view(self.members@);
        }
        let key_name = match key {
            TsTypeElementKey::Lit(s) => s,
            TsTypeElementKey::Quoted(s) => s,
            TsTypeElementKey::Var(s) => s,
        };
        let n = self.members.len();
        let mut i: usize = 0;
        while i < n
            invariant
                0 <= i <= n == self@.len(),
                self@.len() == self.members@.len(),
                key_name@ == key@.name(),
                forall|j: int| 0 <= j < i ==> self@[j].key.name() != key@.name(),
            decreases n - i,
        {
            proof {
                crate::typescript::ts_type::lemma_members_view(self.members@);
            }
            let m_name = match &self.members[i].key {
                TsTypeElementKey::Lit(s) => s,
                TsTypeElementKey::Quoted(s) => s,
                TsTypeElementKey::Var(s) => s,
            };
            if m_name.eq(key_name) {
                assert(self@[i as int].key.name() == key@.name());
                return Some(i);
            }
            assert(self@[i as int].key.name() != key@.name());
            i += 1;
        }
        None
    }
}


/// The literal value of one member of a value enum.
#[derive(Debug, Clone)]
pub enum TsValueEnumLit {
    /// No explicit value.
    Absent,
    /// A string value, `= "..."`.
    StringLit(String),
    /// A numeric value, `= n`.
    NumberLit(String),
}

/// Mathematical model of a value-enum literal.
pub enum VLitM {
    Absent,
    StringLit(Seq<char>),
    NumberLit(Seq<char>),
}

impl View for TsValueEnumLit {
    type V = VLitM;

    open spec fn view(&self) -> VLitM {
        match self {
            TsValueEnumLit::Absent => VLitM::Absent,
            TsValueEnumLit::StringLit(s) => VLitM::StringLit(s@),
            TsValueEnumLit::NumberLit(s) => VLitM::NumberLit(s@),
        }
    }
}

/// One member of a value enum, e.g. `Foo = "foo",`.
#[derive(Debug, Clone)]
pub struct TsValueEnumMember {
    pub id: String,
    pub value: TsValueEnumLit,
    pub comments: Vec<String>,
}

/// Mathematical model of a value-enum member.
pub struct VMemberM {
    pub id: Seq<char>,
    pub value: VLitM,
    pub comments: Seq<Seq<char>>,
}

impl View for TsValueEnumMember {
    type V = VMemberM;

    open spec fn view(&self) -> VMemberM {
        VMemberM { id: self.id@, value: self.value@, comments: self.comments.deep_view() }
    }
}

} // verus!
