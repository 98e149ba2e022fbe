//! TypeScript declarations — type aliases, interfaces, enums of variant
//! aliases, and value enums — and their exact textual rendering.

use vstd::prelude::*;

use crate::comments::{comments_text, spec_clean_comments, clean_comments, write_doc_comments};
use crate::typescript::basic::{
    is_js_ident, spec_is_js_ident, TsTypeElement, TsValueEnumLit, TsValueEnumMember, VLitM,
    VMemberM,
};
use crate::typescript::ts_type::{
    lemma_members_view, lemma_tys_view, members_view, pair_view, pairs_view, spec_prefix_refs,
    spec_type_refs, tys_view, MemberM, TsType, TyM,
};
use crate::typescript::to_string_with_indent::{indent_text, ToStringWithIndent};
use crate::typescript::ts_type_display::{
    comma_list_text, dec_digits, key_text, quoted, type_text, write_dec, write_key, write_type,
    TextMode,
};

verus! {

/// A type alias declaration, `type Id<P> = T;`.
#[derive(Debug)]
pub struct TsTypeAliasDecl {
    pub id: String,
    pub export: bool,
    pub type_params: Vec<String>,
    pub type_ann: TsType,
    pub comments: Vec<String>,
}

/// Mathematical model of a type alias declaration.
pub struct AliasM {
    pub id: Seq<char>,
    pub export: bool,
    pub type_params: Seq<Seq<char>>,
    pub type_ann: TyM,
    pub comments: Seq<Seq<char>>,
}

impl View for TsTypeAliasDecl {
    type V = AliasM;

    open spec fn view(&self) -> AliasM {
        AliasM {
            id: self.id@,
            export: self.export,
            type_params: self.type_params.deep_view(),
            type_ann: self.type_ann@,
            comments: self.comments.deep_view(),
        }
    }
}

/// The models of a list of alias declarations, element by element.
pub open spec fn aliases_view(s: Seq<TsTypeAliasDecl>) -> Seq<AliasM>
    decreases s,
{
    if s.len() == 0 {
        Seq::empty()
    } else {
        aliases_view(s.drop_last()).push(s.last()@)
    }
}

pub proof fn lemma_aliases_view(s: Seq<TsTypeAliasDecl>)
    ensures
        aliases_view(s).len() == s.len(),
        forall|i: int| 0 <= i < s.len() ==> aliases_view(s)[i] == (#[trigger] s[i])@,
    decreases s.len(),
{
    if s.len() > 0 {
        lemma_aliases_view(s.drop_last());
        assert forall|i: int| 0 <= i < s.len() implies aliases_view(s)[i] == (#[trigger] s[i])@ by {
            if i < s.len() - 1 {
                assert(s.drop_last()[i] == s[i]);
            }
        }
    }
}

/// An interface declaration, or the alias-bodied form `type Id = { .. }`.
#[derive(Debug)]
pub struct TsInterfaceDecl {
    pub id: String,
    pub type_params: Vec<String>,
    pub extends: Vec<TsType>,
    pub body: Vec<TsTypeElement>,
    pub comments: Vec<String>,
    /// Emit `export type Id = { .. }` instead of `export interface Id { .. }`.
    pub alias_form: bool,
}

/// Mathematical model of an interface declaration.
pub struct IfaceM {
    pub id: Seq<char>,
    pub type_params: Seq<Seq<char>>,
    pub extends: Seq<TyM>,
    pub body: Seq<MemberM>,
    pub comments: Seq<Seq<char>>,
    pub alias_form: bool,
}

impl View for TsInterfaceDecl {
    type V = IfaceM;

    open spec fn view(&self) -> IfaceM {
        IfaceM {
            id: self.id@,
            type_params: self.type_params.deep_view(),
            extends: tys_view(self.extends@),
            body: members_view(self.body@),
            comments: self.comments.deep_view(),
            alias_form: self.alias_form,
        }
    }
}

/// A value enum declaration, `export enum Id { A = "a", .. }`.
#[derive(Debug, Clone)]
pub struct TsValueEnumDecl {
    pub id: String,
    pub members: Vec<TsValueEnumMember>,
}

/// Mathematical model of a value enum declaration.
pub struct VEnumM {
    pub id: Seq<char>,
    pub members: Seq<VMemberM>,
}

impl View for TsValueEnumDecl {
    type V = VEnumM;

    open spec fn view(&self) -> VEnumM {
        VEnumM { id: self.id@, members: vmembers_view(self.members@) }
    }
}

/// The models of a list of value-enum members, element by element.
pub open spec fn vmembers_view(s: Seq<TsValueEnumMember>) -> Seq<VMemberM>
    decreases s,
{
    if s.len() == 0 {
        Seq::empty()
    } else {
        vmembers_view(s.drop_last()).push(s.last()@)
    }
}

/// An enum declaration: one alias per retained variant, an optional
/// namespace wrapper, and an optional companion discriminant enum.
#[derive(Debug)]
pub struct TsEnumDecl {
    pub id: String,
    pub type_params: Vec<String>,
    pub members: Vec<TsTypeAliasDecl>,
    pub namespace: bool,
    pub discriminants: Option<TsValueEnumDecl>,
    pub comments: Vec<String>,
}

/// Mathematical model of an enum declaration.
pub struct EnumDeclM {
    pub id: Seq<char>,
    pub type_params: Seq<Seq<char>>,
    pub members: Seq<AliasM>,
    pub namespace: bool,
    pub discriminants: Option<VEnumM>,
    pub comments: Seq<Seq<char>>,
}

impl View for TsEnumDecl {
    type V = EnumDeclM;

    open spec fn view(&self) -> EnumDeclM {
        EnumDeclM {
            id: self.id@,
            type_params: self.type_params.deep_view(),
            members: aliases_view(self.members@),
            namespace: self.namespace,
            discriminants: match self.discriminants {
                Some(ref d) => Some(d@),
                None => None,
            },
            comments: self.comments.deep_view(),
        }
    }
}

/// One emitted declaration.
#[derive(Debug)]
pub enum Decl {
    TsTypeAlias(TsTypeAliasDecl),
    TsInterface(TsInterfaceDecl),
    TsEnum(TsEnumDecl),
    TsValueEnum(TsValueEnumDecl),
}

/// Mathematical model of one declaration.
pub enum DeclM {
    TsTypeAlias(AliasM),
    TsInterface(IfaceM),
    TsEnum(EnumDeclM),
    TsValueEnum(VEnumM),
}

impl View for Decl {
    type V = DeclM;

    open spec fn view(&self) -> DeclM {
        match self {
            Decl::TsTypeAlias(d) => DeclM::TsTypeAlias(d@),
            Decl::TsInterface(d) => DeclM::TsInterface(d@),
            Decl::TsEnum(d) => DeclM::TsEnum(d@),
            Decl::TsValueEnum(d) => DeclM::TsValueEnum(d@),
        }
    }
}

// ------------------------------------------------------------------
// Rendering, specification side.
// ------------------------------------------------------------------
/// Names joined by `", "`.
pub open spec fn join_names(ps: Seq<Seq<char>>) -> Seq<char>
    decreases ps.len(),
{
    if ps.len() == 0 {
        Seq::empty()
    } else if ps.len() == 1 {
        ps.first()
    } else {
        ps.first() + ", "@ + join_names(ps.drop_first())
    }
}

/// A generic parameter list `<A, B>`, empty when there are no parameters.
pub open spec fn params_text(ps: Seq<Seq<char>>) -> Seq<char> {
    if ps.len() == 0 {
        Seq::empty()
    } else {
        "<"@ + join_names(ps) + ">"@
    }
}

/// The text of a type alias declaration.
pub open spec fn alias_text(a: AliasM, mode: TextMode) -> Seq<char> {
    comments_text(a.comments) + (if a.export {
        "export "@
    } else {
        Seq::<char>::empty()
    }) + "type "@ + a.id + params_text(a.type_params) + " = "@ + type_text(a.type_ann, mode, true)
        + ";"@
}

/// One interface member, before indentation.
pub open spec fn iface_member_text(m: MemberM) -> Seq<char> {
    comments_text(m.comments) + key_text(m.key) + (if m.optional {
        "?"@
    } else {
        Seq::<char>::empty()
    }) + ": "@ + type_text(m.type_ann, TextMode::Inline, true)
}

/// Interface members, each on its own indented line ending in `;`.
pub open spec fn iface_body_text(ms: Seq<MemberM>) -> Seq<char>
    decreases ms.len(),
{
    if ms.len() == 0 {
        Seq::empty()
    } else {
        iface_body_text(ms.drop_last()) + "\n"@ + indent_text(iface_member_text(ms.last()), 4)
            + ";"@
    }
}

/// The text of an interface declaration (or of its alias-bodied form).
pub open spec fn iface_text(d: IfaceM) -> Seq<char> {
    let head = if d.alias_form {
        "export type "@ + d.id + params_text(d.type_params) + " = "@
    } else {
        "export interface "@ + d.id + params_text(d.type_params) + (if d.extends.len() > 0 {
            " extends "@ + comma_list_text(d.extends, TextMode::Inline)
        } else {
            Seq::<char>::empty()
        }) + " "@
    };
    let body = if d.body.len() == 0 {
        "{}"@
    } else {
        "{"@ + iface_body_text(d.body) + "\n}"@
    };
    comments_text(d.comments) + head + body
}

/// The value suffix of one value-enum member.
pub open spec fn vlit_text(v: VLitM) -> Seq<char> {
    match v {
        VLitM::Absent => Seq::empty(),
        VLitM::StringLit(s) => " = "@ + quoted(s),
        VLitM::NumberLit(s) => " = "@ + s,
    }
}

/// One value-enum member, before indentation.
pub open spec fn vmember_text(m: VMemberM) -> Seq<char> {
    comments_text(m.comments) + (if spec_is_js_ident(m.id) {
        m.id
    } else {
        quoted(m.id)
    }) + vlit_text(m.value)
}

/// Value-enum members, each on its own indented line ending in `,`.
pub open spec fn vmembers_text(ms: Seq<VMemberM>) -> Seq<char>
    decreases ms.len(),
{
    if ms.len() == 0 {
        Seq::empty()
    } else {
        vmembers_text(ms.drop_last()) + "\n"@ + indent_text(vmember_text(ms.last()), 4) + ","@
    }
}

/// The text of a value enum declaration.
pub open spec fn venum_text(d: VEnumM) -> Seq<char> {
    "export enum "@ + d.id + (if d.members.len() == 0 {
        " {}"@
    } else {
        " {"@ + vmembers_text(d.members) + "\n}"@
    })
}

/// The name of the `i`-th generic parameter of an auxiliary alias.
pub open spec fn gp_name(i: nat) -> Seq<char> {
    if i < 26 {
        seq![(('A' as u8) + i) as char]
    } else {
        seq!['P'] + dec_digits(i)
    }
}

/// The generic parameter names of an auxiliary alias of the given arity.
pub open spec fn gp_names(n: nat) -> Seq<Seq<char>> {
    Seq::new(n, |i: int| gp_name(i as nat))
}

/// Lexicographic order on names, by character code.
pub open spec fn str_le(a: Seq<char>, b: Seq<char>) -> bool
    decreases a.len(),
{
    if a.len() == 0 {
        true
    } else if b.len() == 0 {
        false
    } else if a.first() != b.first() {
        a.first() < b.first()
    } else {
        str_le(a.drop_first(), b.drop_first())
    }
}

/// Keeps the pairs whose name is not a generic parameter of the enum.
pub open spec fn filter_pairs(ps: Seq<(Seq<char>, nat)>, exc: Seq<Seq<char>>) -> Seq<
    (Seq<char>, nat),
>
    decreases ps.len(),
{
    if ps.len() == 0 {
        Seq::empty()
    } else {
        let prev = filter_pairs(ps.drop_last(), exc);
        if exc.contains(ps.last().0) {
            prev
        } else {
            prev.push(ps.last())
        }
    }
}

/// Whether some pair in `ps` carries the name `n`.
pub open spec fn pairs_contain(ps: Seq<(Seq<char>, nat)>, n: Seq<char>) -> bool {
    exists|i: int| 0 <= i < ps.len() && (#[trigger] ps[i]).0 == n
}

/// Keeps the first pair of each name, in first-occurrence order.
pub open spec fn dedup_pairs(ps: Seq<(Seq<char>, nat)>) -> Seq<(Seq<char>, nat)>
    decreases ps.len(),
{
    if ps.len() == 0 {
        Seq::empty()
    } else {
        let prev = dedup_pairs(ps.drop_last());
        if pairs_contain(prev, ps.last().0) {
            prev
        } else {
            prev.push(ps.last())
        }
    }
}

/// Inserts a pair into a name-sorted list, keeping it sorted.
pub open spec fn insert_pair(p: (Seq<char>, nat), s: Seq<(Seq<char>, nat)>) -> Seq<
    (Seq<char>, nat),
>
    decreases s.len(),
{
    if s.len() == 0 {
        seq![p]
    } else if str_le(p.0, s.first().0) {
        seq![p] + s
    } else {
        seq![s.first()] + insert_pair(p, s.drop_first())
    }
}

/// Sorts pairs by name, by insertion.
pub open spec fn sort_pairs(ps: Seq<(Seq<char>, nat)>) -> Seq<(Seq<char>, nat)>
    decreases ps.len(),
{
    if ps.len() == 0 {
        Seq::empty()
    } else {
        insert_pair(ps.last(), sort_pairs(ps.drop_last()))
    }
}

/// Every type reference collected from the members' types, in order.
pub open spec fn members_refs_full(ms: Seq<AliasM>) -> Seq<(Seq<char>, Seq<TyM>)>
    decreases ms.len(),
{
    if ms.len() == 0 {
        Seq::empty()
    } else {
        members_refs_full(ms.drop_last()) + spec_type_refs(ms.last().type_ann)
    }
}

/// The collected references reduced to a name and an argument count.
pub open spec fn members_ref_pairs(ms: Seq<AliasM>) -> Seq<(Seq<char>, nat)> {
    members_refs_full(ms).map_values(|p: (Seq<char>, Seq<TyM>)| (p.0, p.1.len()))
}

/// The auxiliary aliases of a namespace: one per referenced outside name,
/// sorted by name.
pub open spec fn aux_pairs(e: EnumDeclM) -> Seq<(Seq<char>, nat)> {
    sort_pairs(dedup_pairs(filter_pairs(members_ref_pairs(e.members), e.type_params)))
}

/// One auxiliary alias line, `type __IdName<A> = Name<A>;` and a newline.
pub open spec fn aux_line_text(enum_id: Seq<char>, p: (Seq<char>, nat)) -> Seq<char> {
    "type __"@ + enum_id + p.0 + params_text(gp_names(p.1)) + " = "@ + p.0 + params_text(
        gp_names(p.1),
    ) + ";\n"@
}

/// The auxiliary alias lines of a namespace.
pub open spec fn aux_lines_text(enum_id: Seq<char>, ps: Seq<(Seq<char>, nat)>) -> Seq<char>
    decreases ps.len(),
{
    if ps.len() == 0 {
        Seq::empty()
    } else {
        aux_lines_text(enum_id, ps.drop_last()) + aux_line_text(enum_id, ps.last())
    }
}

/// The namespace body: one indented alias per member, its type references
/// prefixed with `__Id` except for the enum's generic parameters.
pub open spec fn ns_body_text(ms: Seq<AliasM>, pre: Seq<char>, exc: Seq<Seq<char>>, mode: TextMode) -> Seq<char>
    decreases ms.len(),
{
    if ms.len() == 0 {
        Seq::empty()
    } else {
        let m = ms.last();
        let pm = AliasM {
            id: m.id,
            export: true,
            type_params: m.type_params,
            type_ann: spec_prefix_refs(m.type_ann, pre, exc),
            comments: m.comments,
        };
        ns_body_text(ms.drop_last(), pre, exc, mode) + "\n"@ + indent_text(alias_text(pm, mode), 4)
    }
}

/// The alternatives of the top-level union when the namespace is
/// referenced: `Id.Member` for every member.
pub open spec fn ns_union_list(ms: Seq<AliasM>, enum_id: Seq<char>) -> Seq<TyM>
    decreases ms.len(),
{
    if ms.len() == 0 {
        Seq::empty()
    } else {
        ns_union_list(ms.drop_last(), enum_id).push(
            TyM::Ref { name: enum_id + "."@ + ms.last().id, type_params: Seq::empty() },
        )
    }
}

/// The alternatives of the top-level union over the raw member types, with
/// member comments stripped.
pub open spec fn cleaned_union_list(ms: Seq<AliasM>) -> Seq<TyM>
    decreases ms.len(),
{
    if ms.len() == 0 {
        Seq::empty()
    } else {
        cleaned_union_list(ms.drop_last()).push(spec_clean_comments(ms.last().type_ann))
    }
}

/// The top-level union alias body of an enum declaration.
pub open spec fn enum_union(e: EnumDeclM) -> TyM {
    if e.namespace && e.discriminants is Some {
        TyM::Union(ns_union_list(e.members, e.id))
    } else {
        TyM::Union(cleaned_union_list(e.members))
    }
}

/// The layout style of an enum declaration: block when a discriminant enum
/// is generated, inline otherwise.
pub open spec fn enum_mode(e: EnumDeclM) -> TextMode {
    if e.discriminants is Some {
        TextMode::Block
    } else {
        TextMode::Inline
    }
}

/// The full text of an enum declaration.
pub open spec fn enum_text(e: EnumDeclM) -> Seq<char> {
    let disc_part = match e.discriminants {
        Some(de) => venum_text(de) + "\n\n"@,
        None => Seq::<char>::empty(),
    };
    let ns_part = if e.namespace {
        aux_lines_text(e.id, aux_pairs(e)) + comments_text(e.comments) + "declare namespace "@
            + e.id + (if e.members.len() == 0 {
            " {}"@
        } else {
            " {"@ + ns_body_text(e.members, "__"@ + e.id, e.type_params, enum_mode(e)) + "\n}"@
        }) + "\n\n"@
    } else {
        Seq::<char>::empty()
    };
    let top = AliasM {
        id: e.id,
        export: true,
        type_params: e.type_params,
        type_ann: enum_union(e),
        comments: e.comments,
    };
    disc_part + ns_part + alias_text(top, enum_mode(e))
}

/// The full text of one declaration.
pub open spec fn decl_text(d: DeclM) -> Seq<char> {
    match d {
        DeclM::TsTypeAlias(a) => alias_text(a, TextMode::Inline),
        DeclM::TsInterface(i) => iface_text(i),
        DeclM::TsEnum(e) => enum_text(e),
        DeclM::TsValueEnum(v) => venum_text(v),
    }
}


// ------------------------------------------------------------------
// Rendering, executable side.
// ------------------------------------------------------------------
proof fn lemma_join_names_push(ps: Seq<Seq<char>>, e: Seq<char>)
    ensures
        join_names(ps.push(e)) == if ps.len() == 0 {
            e
        } else {
            join_names(ps) + ", "@ + e
        },
    decreases ps.len(),
{
    if ps.len() == 0 {
        assert(ps.push(e).first() == e);
        assert(join_names(ps.push(e)) =~= e);
    } else {
        assert(ps.push(e).first() == ps.first());
        assert(ps.push(e).drop_first() =~= ps.drop_first().push(e));
        lemma_join_names_push(ps.drop_first(), e);
        assert(join_names(ps.push(e)) =~= join_names(ps) + ", "@ + e);
    }
}

/// Appends names joined by `", "`.
fn write_join_names(out: &mut String, ps: &Vec<String>)
    ensures
        final(out)@ == old(out)@ + join_names(ps.deep_view()),
{
    let ghost names = ps.deep_view();
    let n = ps.len();
    if n == 0 {
        proof {
            assert(final(out)@ =~= old(out)@ + join_names(names));
        }
        return ;
    }
    out.append(ps[0].as_str());
    proof {
        assert(names.take(1) =~= Seq::<Seq<char>>::empty().push(names[0]));
        lemma_join_names_push(Seq::<Seq<char>>::empty(), names[0]);
        assert(names[0] == ps@[0]@);
        assert(out@ =~= old(out)@ + join_names(names.take(1)));
    }
    let mut i: usize = 1;
    while i < n
        invariant
            1 <= i <= n == ps@.len(),
            names == ps.deep_view(),
            names.len() == n,
            forall|j: int| 0 <= j < n ==> names[j] == ps@[j]@,
            out@ == old(out)@ + join_names(names.take(i as int)),
        decreases n - i,
    {
        out.append(", ");
        out.append(ps[i].as_str());
        proof {
            lemma_join_names_push(names.take(i as int), names[i as int]);
            assert(names.take(i + 1) =~= names.take(i as int).push(names[i as int]));
            assert(out@ =~= old(out)@ + join_names(names.take(i + 1)));
        }
        i += 1;
    }
    proof {
        assert(names.take(n as int) =~= names);
    }
}

/// Appends a generic parameter list `<A, B>`, empty when `ps` is empty.
fn write_params(out: &mut String, ps: &Vec<String>)
    ensures
        final(out)@ == old(out)@ + params_text(ps.deep_view()),
{
    if ps.len() == 0 {
        proof {
            assert(final(out)@ =~= old(out)@ + params_text(ps.deep_view()));
        }
        return ;
    }
    out.append("<");
    write_join_names(out, ps);
    out.append(">");
    proof {
        assert(final(out)@ =~= old(out)@ + params_text(ps.deep_view()));
    }
}

impl TsTypeAliasDecl {
    /// Appends the text of this alias declaration in the given style.
    pub fn write(&self, out: &mut String, mode: TextMode)
        ensures
            final(out)@ == old(out)@ + alias_text(self@, mode),
    {
        write_doc_comments(out, &self.comments);
        if self.export {
            out.append("export ");
        }
        out.append("type ");
        out.append(self.id.as_str());
        write_params(out, &self.type_params);
        out.append(" = ");
        write_type(out, &self.type_ann, mode, true);
        out.append(";");
        proof {
            assert(final(out)@ =~= old(out)@ + alias_text(self@, mode));
        }
    }

    /// The rendered text of this alias declaration in the given style.
    pub fn text(&self, mode: TextMode) -> (r: String)
        ensures
            r@ == alias_text(self@, mode),
    {
        let mut out = String::new();
        self.write(&mut out, mode);
        proof {
            assert(out@ =~= alias_text(self@, mode));
        }
        out
    }
}

/// Renders one interface member, before indentation.
fn iface_member_string(m: &TsTypeElement) -> (r: String)
    ensures
        r@ == iface_member_text(m@),
{
    let mut out = String::new();
    write_doc_comments(&mut out, &m.comments);
    write_key(&mut out, &m.key);
    if m.optional {
        out.append("?");
    }
    out.append(": ");
    write_type(&mut out, &m.type_ann, TextMode::Inline, true);
    proof {
        assert(out@ =~= iface_member_text(m@));
    }
    out
}

/// Appends interface members, each on its own indented line ending in `;`.
fn write_iface_body(out: &mut String, v: &Vec<TsTypeElement>)
    ensures
        final(out)@ == old(out)@ + iface_body_text(members_view(v@)),
{
    let ghost ms = members_view(v@);
    proof {
        lemma_members_view(v@);
    }
    let n = v.len();
    let mut i: usize = 0;
    proof {
        assert(out@ =~= old(out)@ + iface_body_text(ms.take(0)));
    }
    while i < n
        invariant
            0 <= i <= n == v@.len(),
            ms == members_view(v@),
            ms.len() == n,
            forall|j: int| 0 <= j < n ==> ms[j] == (#[trigger] v@[j])@,
            out@ == old(out)@ + iface_body_text(ms.take(i as int)),
        decreases n - i,
    {
        out.append("\n");
        let s = iface_member_string(&v[i]);
        let ind = s.to_string_with_indent(4);
        out.append(ind.as_str());
        out.append(";");
        proof {
            assert(ms.take(i + 1).drop_last() =~= ms.take(i as int));
            assert(ms.take(i + 1).last() == ms[i as int]);
            assert(out@ =~= old(out)@ + iface_body_text(ms.take(i + 1)));
        }
        i += 1;
    }
    proof {
        assert(ms.take(n as int) =~= ms);
    }
}

impl TsInterfaceDecl {
    /// Appends the text of this interface declaration.
    #[verifier::rlimit(100)]
    pub fn write(&self, out: &mut String)
        ensures
            final(out)@ == old(out)@ + iface_text(self@),
    {
        write_doc_comments(out, &self.comments);
        if self.alias_form {
            out.append("export type ");
            out.append(self.id.as_str());
            write_params(out, &self.type_params);
            out.append(" = ");
        } else {
            out.append("export interface ");
            out.append(self.id.as_str());
            write_params(out, &self.type_params);
            if self.extends.len() > 0 {
                out.append(" extends ");
                crate::typescript::ts_type_display::write_comma_list(
                    out,
                    &self.extends,
                    TextMode::Inline,
                );
            }
            out.append(" ");
        }
        if self.body.len() == 0 {
            out.append("{}");
            proof {
                lemma_members_view(self.body@);
            }
        } else {
            out.append("{");
            write_iface_body(out, &self.body);
            out.append("\n}");
        }
        proof {
            assert(final(out)@ =~= old(out)@ + iface_text(self@));
        }
    }

    /// The rendered text of this interface declaration.
    pub fn text(&self) -> (r: String)
        ensures
            r@ == iface_text(self@),
    {
        let mut out = String::new();
        self.write(&mut out);
        proof {
            assert(out@ =~= iface_text(self@));
        }
        out
    }
}

/// Renders one value-enum member, before indentation.
fn vmember_string(m: &TsValueEnumMember) -> (r: String)
    ensures
        r@ == vmember_text(m@),
{
    let mut out = String::new();
    write_doc_comments(&mut out, &m.comments);
    if is_js_ident(&m.id) {
        out.append(m.id.as_str());
    } else {
        out.append("\"");
        out.append(m.id.as_str());
        out.append("\"");
    }
    match &m.value {
        TsValueEnumLit::Absent => {},
        TsValueEnumLit::StringLit(v) => {
            out.append(" = ");
            out.append("\"");
            out.append(v.as_str());
            out.append("\"");
        },
        TsValueEnumLit::NumberLit(v) => {
            out.append(" = ");
            out.append(v.as_str());
        },
    }
    proof {
        assert(out@ =~= vmember_text(m@));
    }
    out
}

impl TsValueEnumDecl {
    /// Appends the text of this value enum declaration.
    pub fn write(&self, out: &mut String)
        ensures
            final(out)@ == old(out)@ + venum_text(self@),
    {
        let ghost ms = vmembers_view(self.members@);
        proof {
            lemma_vmembers_view(self.members@);
        }
        out.append("export enum ");
        out.append(self.id.as_str());
        if self.members.len() == 0 {
            out.append(" {}");
            proof {
                assert(final(out)@ =~= old(out)@ + venum_text(self@));
            }
            return ;
        }
        out.append(" {");
        let ghost mid = out@;
        let n = self.members.len();
        let mut i: usize = 0;
        proof {
            assert(out@ =~= mid + vmembers_text(ms.take(0)));
        }
        while i < n
            invariant
                0 <= i <= n == self.members@.len(),
                ms == vmembers_view(self.members@),
                ms.len() == n,
                forall|j: int| 0 <= j < n ==> ms[j] == (#[trigger] self.members@[j])@,
                out@ == mid + vmembers_text(ms.take(i as int)),
            decreases n - i,
        {
            out.append("\n");
            let s = vmember_string(&self.members[i]);
            let ind = s.to_string_with_indent(4);
            out.append(ind.as_str());
            out.append(",");
            proof {
                assert(ms.take(i + 1).drop_last() =~= ms.take(i as int));
                assert(ms.take(i + 1).last() == ms[i as int]);
                assert(out@ =~= mid + vmembers_text(ms.take(i + 1)));
            }
            i += 1;
        }
        out.append("\n}");
        proof {
            assert(ms.take(n as int) =~= ms);
            assert(final(out)@ =~= old(out)@ + venum_text(self@));
        }
    }

    /// The rendered text of this value enum declaration.
    pub fn text(&self) -> (r: String)
        ensures
            r@ == venum_text(self@),
    {
        let mut out = String::new();
        self.write(&mut out);
        proof {
            assert(out@ =~= venum_text(self@));
        }
        out
    }
}

pub proof fn lemma_vmembers_view(s: Seq<TsValueEnumMember>)
    ensures
        vmembers_view(s).len() == s.len(),
        forall|i: int| 0 <= i < s.len() ==> vmembers_view(s)[i] == (#[trigger] s[i])@,
    decreases s.len(),
{
    if s.len() > 0 {
        lemma_vmembers_view(s.drop_last());
        assert forall|i: int| 0 <= i < s.len() implies vmembers_view(s)[i] == (
        #[trigger] s[i])@ by {
            if i < s.len() - 1 {
                assert(s.drop_last()[i] == s[i]);
            }
        }
    }
}


proof fn lemma_str_le_skip(a: Seq<char>, b: Seq<char>, i: int)
    requires
        0 <= i <= a.len(),
        0 <= i <= b.len(),
        forall|j: int| 0 <= j < i ==> a[j] == b[j],
    ensures
        str_le(a, b) == str_le(a.skip(i), b.skip(i)),
    decreases i,
{
    if i > 0 {
        assert(a.first() == b.first());
        lemma_str_le_skip(a.drop_first(), b.drop_first(), i - 1);
        assert(a.drop_first().skip(i - 1) =~= a.skip(i));
        assert(b.drop_first().skip(i - 1) =~= b.skip(i));
    } else {
        assert(a.skip(0) =~= a);
        assert(b.skip(0) =~= b);
    }
}

/// Decides the lexicographic order on two names.
fn str_le_exec(a: &String, b: &String) -> (r: bool)
    ensures
        r == str_le(a@, b@),
{
    let la = a.as_str().unicode_len();
    let lb = b.as_str().unicode_len();
    let mut i: usize = 0;
    while i < la && i < lb && a.as_str().get_char(i) == b.as_str().get_char(i)
        invariant
            0 <= i <= la == a@.len(),
            i <= lb == b@.len(),
            forall|j: int| 0 <= j < i ==> a@[j] == b@[j],
        decreases la - i,
    {
        i += 1;
    }
    proof {
        lemma_str_le_skip(a@, b@, i as int);
    }
    if i == la {
        true
    } else if i == lb {
        proof {
            assert(a@.skip(i as int).len() > 0);
            assert(b@.skip(i as int).len() == 0);
        }
        false
    } else {
        let ca = a.as_str().get_char(i);
        let cb = b.as_str().get_char(i);
        proof {
            assert(a@.skip(i as int).first() == a@[i as int]);
            assert(b@.skip(i as int).first() == b@[i as int]);
        }
        ca < cb
    }
}

/// The model of one executable reference pair.
pub open spec fn pview(p: (String, usize)) -> (Seq<char>, nat) {
    (p.0@, p.1 as nat)
}

/// The models of a list of executable reference pairs.
pub open spec fn pviews(s: Seq<(String, usize)>) -> Seq<(Seq<char>, nat)> {
    s.map_values(|p: (String, usize)| pview(p))
}

/// Decides whether some pair in `v` carries the name `n`.
fn pairs_have_name(v: &Vec<(String, usize)>, n: &String) -> (r: bool)
    ensures
        r == pairs_contain(pviews(v@), n@),
{
    let ln = v.len();
    let mut i: usize = 0;
    while i < ln
        invariant
            0 <= i <= ln == v@.len(),
            forall|j: int| 0 <= j < i ==> (#[trigger] pviews(v@)[j]).0 != n@,
        decreases ln - i,
    {
        if v[i].0.eq(n) {
            proof {
                assert(pviews(v@)[i as int].0 == n@);
            }
            return true;
        }
        proof {
            assert(pviews(v@)[i as int].0 != n@);
        }
        i += 1;
    }
    false
}

proof fn lemma_insert_pair_at(p: (Seq<char>, nat), s: Seq<(Seq<char>, nat)>, k: int)
    requires
        0 <= k <= s.len(),
        forall|j: int| 0 <= j < k ==> !str_le(p.0, (#[trigger] s[j]).0),
        k < s.len() ==> str_le(p.0, s[k].0),
    ensures
        insert_pair(p, s) == s.take(k) + seq![p] + s.skip(k),
    decreases s.len(),
{
    if s.len() == 0 {
        assert(insert_pair(p, s) =~= s.take(0) + seq![p] + s.skip(0));
    } else if k == 0 {
        assert(str_le(p.0, s.first().0));
        assert(insert_pair(p, s) =~= s.take(0) + seq![p] + s.skip(0));
    } else {
        assert(!str_le(p.0, s[0].0));
        assert(forall|j: int| 0 <= j < k - 1 ==> !str_le(p.0, (#[trigger] s.drop_first()[j]).0));
        assert(k - 1 < s.drop_first().len() ==> str_le(p.0, s.drop_first()[k - 1].0));
        lemma_insert_pair_at(p, s.drop_first(), k - 1);
        assert(insert_pair(p, s) =~= s.take(k) + seq![p] + s.skip(k));
    }
}

/// The position at which a name inserts into a name-sorted pair list.
fn find_insert_pos(v: &Vec<(String, usize)>, name: &String) -> (r: usize)
    ensures
        r <= v@.len(),
        forall|j: int| 0 <= j < r ==> !str_le(name@, (#[trigger] pviews(v@)[j]).0),
        r < v@.len() ==> str_le(name@, pviews(v@)[r as int].0),
{
    let n = v.len();
    let mut k: usize = 0;
    while k < n
        invariant
            0 <= k <= n == v@.len(),
            forall|j: int| 0 <= j < k ==> !str_le(name@, (#[trigger] pviews(v@)[j]).0),
        decreases n - k,
    {
        if str_le_exec(name, &v[k].0) {
            proof {
                assert(pviews(v@)[k as int].0 == v@[k as int].0@);
            }
            return k;
        }
        proof {
            assert(pviews(v@)[k as int].0 == v@[k as int].0@);
        }
        k += 1;
    }
    k
}

/// Inserts a pair into a name-sorted list, keeping it sorted.
fn insert_pair_exec(out: &mut Vec<(String, usize)>, p: (String, usize))
    ensures
        pviews(final(out)@) == insert_pair(pview(p), pviews(old(out)@)),
{
    let ghost s = pviews(out@);
    let ghost pm = pview(p);
    let k = find_insert_pos(out, &p.0);
    proof {
        lemma_insert_pair_at(pm, s, k as int);
    }
    out.insert(k, p);
    proof {
        assert(pviews(out@) =~= s.take(k as int) + seq![pm] + s.skip(k as int));
    }
}

/// The letter name of the `i`-th auxiliary generic parameter.
fn gp_name_string(i: usize) -> (r: String)
    ensures
        r@ == gp_name(i as nat),
{
    let mut out = String::new();
    if i < 26 {
        out.push((('A' as u8) + (i as u8)) as char);
        proof {
            assert(out@ =~= gp_name(i as nat));
        }
    } else {
        out.append("P");
        write_dec(&mut out, i);
        proof {
            reveal_strlit("P");
            assert("P"@ =~= seq!['P']);
            assert(out@ =~= gp_name(i as nat));
        }
    }
    out
}

/// The letter names of the auxiliary generic parameters of arity `n`.
fn gp_name_strings(n: usize) -> (r: Vec<String>)
    ensures
        r.deep_view() == gp_names(n as nat),
{
    let mut r: Vec<String> = Vec::new();
    let mut i: usize = 0;
    while i < n
        invariant
            0 <= i <= n,
            r@.len() == i,
            forall|j: int| 0 <= j < i ==> r@[j]@ == gp_name(j as nat),
        decreases n - i,
    {
        r.push(gp_name_string(i));
        i += 1;
    }
    proof {
        assert(r.deep_view() =~= gp_names(n as nat));
    }
    r
}

impl TsEnumDecl {
    /// The sorted auxiliary alias pairs of this enum: every outside
    /// referenced name with the arity of its first occurrence.
    fn aux_pairs_exec(&self) -> (r: Vec<(String, usize)>)
        ensures
            pviews(r@) == aux_pairs(self@),
    {
        let ghost ms = aliases_view(self.members@);
        proof {
            lemma_aliases_view(self.members@);
        }
        // Collect every reference of every member type, in order.
        let mut raw: Vec<(String, Vec<TsType>)> = Vec::new();
        let n = self.members.len();
        let mut i: usize = 0;
        proof {
            assert(pairs_view(raw@) =~= members_refs_full(ms.take(0)));
        }
        while i < n
            invariant
                0 <= i <= n == self.members@.len(),
                ms == aliases_view(self.members@),
                ms.len() == n,
                forall|j: int| 0 <= j < n ==> ms[j] == (#[trigger] self.members@[j])@,
                pairs_view(raw@) == members_refs_full(ms.take(i as int)),
            decreases n - i,
        {
            self.members[i].type_ann.type_refs(&mut raw);
            proof {
                assert(ms.take(i + 1).drop_last() =~= ms.take(i as int));
                assert(ms.take(i + 1).last() == ms[i as int]);
                assert(pairs_view(raw@) =~= members_refs_full(ms.take(i + 1)));
            }
            i += 1;
        }
        proof {
            assert(ms.take(n as int) =~= ms);
        }
        // Reduce each reference to its name and argument count.
        let mut arr: Vec<(String, usize)> = Vec::new();
        let rn = raw.len();
        let mut i2: usize = 0;
        while i2 < rn
            invariant
                0 <= i2 <= rn == raw@.len(),
                arr@.len() == i2,
                forall|j: int|
                    0 <= j < i2 ==> pview(#[trigger] arr@[j]) == (
                    pairs_view(raw@)[j].0,
                    pairs_view(raw@)[j].1.len(),
                ),
            decreases rn - i2,
        {
            let name = raw[i2].0.clone();
            let arity = raw[i2].1.len();
            arr.push((name, arity));
            proof {
                assert(pairs_view(raw@)[i2 as int] == pair_view(raw@[i2 as int]));
                crate::typescript::ts_type::lemma_tys_view(raw@[i2 as int].1@);
            }
            i2 += 1;
        }
        proof {
            assert(pviews(arr@) =~= members_ref_pairs(ms));
        }
        // Drop names that are generic parameters of the enum.
        let ghost all = pviews(arr@);
        let mut kept: Vec<(String, usize)> = Vec::new();
        let an = arr.len();
        let mut i3: usize = 0;
        proof {
            assert(pviews(kept@) =~= filter_pairs(all.take(0), self.type_params.deep_view()));
        }
        while i3 < an
            invariant
                0 <= i3 <= an == arr@.len(),
                all == pviews(arr@),
                all.len() == an,
                forall|j: int| 0 <= j < an ==> pview(#[trigger] arr@[j]) == all[j],
                pviews(kept@) == filter_pairs(all.take(i3 as int), self.type_params.deep_view()),
            decreases an - i3,
        {
            let keep = !crate::input::strings_contain(&self.type_params, &arr[i3].0);
            if keep {
                let q = (arr[i3].0.clone(), arr[i3].1);
                kept.push(q);
            }
            proof {
                assert(all.take(i3 + 1).drop_last() =~= all.take(i3 as int));
                assert(all.take(i3 + 1).last() == all[i3 as int]);
                assert(pviews(kept@) =~= filter_pairs(
                    all.take(i3 + 1),
                    self.type_params.deep_view(),
                ));
            }
            i3 += 1;
        }
        proof {
            assert(all.take(an as int) =~= all);
        }
        // Keep the first occurrence of each name.
        let ghost fl = pviews(kept@);
        let mut uniq: Vec<(String, usize)> = Vec::new();
        let kn = kept.len();
        let mut i4: usize = 0;
        proof {
            assert(pviews(uniq@) =~= dedup_pairs(fl.take(0)));
        }
        while i4 < kn
            invariant
                0 <= i4 <= kn == kept@.len(),
                fl == pviews(kept@),
                fl.len() == kn,
                forall|j: int| 0 <= j < kn ==> pview(#[trigger] kept@[j]) == fl[j],
                pviews(uniq@) == dedup_pairs(fl.take(i4 as int)),
            decreases kn - i4,
        {
            let dup = pairs_have_name(&uniq, &kept[i4].0);
            if !dup {
                let q = (kept[i4].0.clone(), kept[i4].1);
                uniq.push(q);
            }
            proof {
                assert(fl.take(i4 + 1).drop_last() =~= fl.take(i4 as int));
                assert(fl.take(i4 + 1).last() == fl[i4 as int]);
                assert(pviews(uniq@) =~= dedup_pairs(fl.take(i4 + 1)));
            }
            i4 += 1;
        }
        proof {
            assert(fl.take(kn as int) =~= fl);
        }
        // Sort by name.
        let ghost dd = pviews(uniq@);
        let mut sorted: Vec<(String, usize)> = Vec::new();
        let un = uniq.len();
        let mut i5: usize = 0;
        proof {
            assert(pviews(sorted@) =~= sort_pairs(dd.take(0)));
        }
        while i5 < un
            invariant
                0 <= i5 <= un == uniq@.len(),
                dd == pviews(uniq@),
                dd.len() == un,
                forall|j: int| 0 <= j < un ==> pview(#[trigger] uniq@[j]) == dd[j],
                pviews(sorted@) == sort_pairs(dd.take(i5 as int)),
            decreases un - i5,
        {
            let q = (uniq[i5].0.clone(), uniq[i5].1);
            insert_pair_exec(&mut sorted, q);
            proof {
                assert(dd.take(i5 + 1).drop_last() =~= dd.take(i5 as int));
                assert(dd.take(i5 + 1).last() == dd[i5 as int]);
            }
            i5 += 1;
        }
        proof {
            assert(dd.take(un as int) =~= dd);
        }
        sorted
    }

    /// Appends the auxiliary alias lines of the namespace.
    #[verifier::rlimit(100)]
    fn write_aux(&self, out: &mut String)
        ensures
            final(out)@ == old(out)@ + aux_lines_text(self@.id, aux_pairs(self@)),
    {
        let ghost e = self@;
        let pairs = self.aux_pairs_exec();
        let ghost ap = aux_pairs(e);
        let pn = pairs.len();
        let mut i: usize = 0;
        proof {
            assert(out@ =~= old(out)@ + aux_lines_text(e.id, ap.take(0)));
        }
        while i < pn
            invariant
                0 <= i <= pn == pairs@.len(),
                ap == pviews(pairs@),
                ap.len() == pn,
                forall|j: int| 0 <= j < pn ==> pview(#[trigger] pairs@[j]) == ap[j],
                self@ == e,
                out@ == old(out)@ + aux_lines_text(e.id, ap.take(i as int)),
            decreases pn - i,
        {
            out.append("type __");
            out.append(self.id.as_str());
            out.append(pairs[i].0.as_str());
            let letters = gp_name_strings(pairs[i].1);
            write_params(out, &letters);
            out.append(" = ");
            out.append(pairs[i].0.as_str());
            write_params(out, &letters);
            out.append(";\n");
            proof {
                assert(ap.take(i + 1).drop_last() =~= ap.take(i as int));
                assert(ap.take(i + 1).last() == ap[i as int]);
                assert(out@ =~= old(out)@ + aux_lines_text(e.id, ap.take(i + 1)));
            }
            i += 1;
        }
        proof {
            assert(ap.take(pn as int) =~= ap);
        }
    }

    /// Appends the namespace block: auxiliary aliases, the commented
    /// `declare namespace` body, and the separating blank line.
    #[verifier::rlimit(100)]
    fn write_namespace(&self, out: &mut String, mode: TextMode)
        requires
            mode == enum_mode(self@),
        ensures
            final(out)@ == old(out)@ + aux_lines_text(self@.id, aux_pairs(self@)) + comments_text(
                self@.comments,
            ) + "declare namespace "@ + self@.id + (if self@.members.len() == 0 {
                " {}"@
            } else {
                " {"@ + ns_body_text(
                    self@.members,
                    "__"@ + self@.id,
                    self@.type_params,
                    enum_mode(self@),
                ) + "\n}"@
            }) + "\n\n"@,
    {
        let ghost e = self@;
        let ghost ms = aliases_view(self.members@);
        proof {
            lemma_aliases_view(self.members@);
        }
        self.write_aux(out);
        write_doc_comments(out, &self.comments);
        out.append("declare namespace ");
        out.append(self.id.as_str());
        if self.members.len() == 0 {
            out.append(" {}");
        } else {
            out.append(" {");
            let ghost mid = out@;
            let mut pre = String::new();
            pre.append("__");
            pre.append(self.id.as_str());
            let mn = self.members.len();
            let mut i6: usize = 0;
            proof {
                assert(out@ =~= mid + ns_body_text(ms.take(0), "__"@ + e.id, e.type_params, mode));
            }
            while i6 < mn
                invariant
                    0 <= i6 <= mn == self.members@.len(),
                    ms == aliases_view(self.members@),
                    ms.len() == mn,
                    forall|j: int| 0 <= j < mn ==> ms[j] == (#[trigger] self.members@[j])@,
                    pre@ == "__"@ + e.id,
                    e.type_params == self.type_params.deep_view(),
                    self@ == e,
                    out@ == mid + ns_body_text(ms.take(i6 as int), pre@, e.type_params, mode),
                decreases mn - i6,
            {
                out.append("\n");
                let m = &self.members[i6];
                let pm = TsTypeAliasDecl {
                    id: m.id.clone(),
                    export: true,
                    type_params: crate::typescript::ts_type::clone_strings(&m.type_params),
                    type_ann: m.type_ann.prefix_type_refs(&pre, &self.type_params),
                    comments: crate::typescript::ts_type::clone_strings(&m.comments),
                };
                let txt = pm.text(mode);
                let ind = txt.to_string_with_indent(4);
                out.append(ind.as_str());
                proof {
                    assert(ms.take(i6 + 1).drop_last() =~= ms.take(i6 as int));
                    assert(ms.take(i6 + 1).last() == ms[i6 as int]);
                    assert(pm@ == (AliasM {
                        id: ms[i6 as int].id,
                        export: true,
                        type_params: ms[i6 as int].type_params,
                        type_ann: spec_prefix_refs(ms[i6 as int].type_ann, pre@, e.type_params),
                        comments: ms[i6 as int].comments,
                    }));
                    assert(out@ =~= mid + ns_body_text(ms.take(i6 + 1), pre@, e.type_params, mode));
                }
                i6 += 1;
            }
            proof {
                assert(ms.take(mn as int) =~= ms);
            }
            out.append("\n}");
        }
        out.append("\n\n");
        proof {
            assert(final(out)@ =~= old(out)@ + aux_lines_text(e.id, aux_pairs(e)) + comments_text(
                e.comments,
            ) + "declare namespace "@ + e.id + (if e.members.len() == 0 {
                " {}"@
            } else {
                " {"@ + ns_body_text(e.members, "__"@ + e.id, e.type_params, enum_mode(e)) + "\n}"@
            }) + "\n\n"@);
        }
    }

    /// Builds the body of the top-level union alias.
    #[verifier::rlimit(100)]
    fn build_union(&self) -> (r: TsType)
        ensures
            r@ == enum_union(self@),
    {
        let ghost e = self@;
        let ghost ms = aliases_view(self.members@);
        proof {
            lemma_aliases_view(self.members@);
        }
        let use_refs = self.namespace && match self.discriminants {
            Some(_) => true,
            None => false,
        };
        let mut alts: Vec<TsType> = Vec::new();
        let mn2 = self.members.len();
        let mut i7: usize = 0;
        if use_refs {
            while i7 < mn2
                invariant
                    0 <= i7 <= mn2 == self.members@.len(),
                    ms == aliases_view(self.members@),
                    ms.len() == mn2,
                    forall|j: int| 0 <= j < mn2 ==> ms[j] == (#[trigger] self.members@[j])@,
                    self@ == e,
                    alts@.len() == i7,
                    tys_view(alts@) == ns_union_list(ms.take(i7 as int), e.id),
                decreases mn2 - i7,
            {
                let mut rn = String::new();
                rn.append(self.id.as_str());
                rn.append(".");
                rn.append(self.members[i7].id.as_str());
                let tp: Vec<TsType> = Vec::new();
                proof {
                    crate::typescript::ts_type::lemma_tys_view(tp@);
                    assert(tys_view(tp@) =~= Seq::<TyM>::empty());
                }
                let alt = TsType::Ref { name: rn, type_params: tp };
                let ghost altv = alt@;
                let ghost prev = alts@;
                alts.push(alt);
                proof {
                    crate::typescript::ts_type::lemma_tys_view(prev);
                    crate::typescript::ts_type::lemma_tys_view(alts@);
                    assert(ms.take(i7 + 1).drop_last() =~= ms.take(i7 as int));
                    assert(ms.take(i7 + 1).last() == ms[i7 as int]);
                    assert(altv->Ref_name =~= e.id + "."@ + ms[i7 as int].id);
                    assert(altv->Ref_type_params =~= Seq::<TyM>::empty());
                    assert(altv == TyM::Ref {
                        name: e.id + "."@ + ms[i7 as int].id,
                        type_params: Seq::empty(),
                    });
                    assert(tys_view(alts@) =~= ns_union_list(ms.take(i7 + 1), e.id));
                }
                i7 += 1;
            }
        } else {
            while i7 < mn2
                invariant
                    0 <= i7 <= mn2 == self.members@.len(),
                    ms == aliases_view(self.members@),
                    ms.len() == mn2,
                    forall|j: int| 0 <= j < mn2 ==> ms[j] == (#[trigger] self.members@[j])@,
                    self@ == e,
                    alts@.len() == i7,
                    tys_view(alts@) == cleaned_union_list(ms.take(i7 as int)),
                decreases mn2 - i7,
            {
                let alt = clean_comments(&self.members[i7].type_ann);
                let ghost altv = alt@;
                let ghost prev = alts@;
                alts.push(alt);
                proof {
                    crate::typescript::ts_type::lemma_tys_view(prev);
                    crate::typescript::ts_type::lemma_tys_view(alts@);
                    assert(ms.take(i7 + 1).drop_last() =~= ms.take(i7 as int));
                    assert(ms.take(i7 + 1).last() == ms[i7 as int]);
                    assert(altv == spec_clean_comments(ms[i7 as int].type_ann));
                    assert(tys_view(alts@) =~= cleaned_union_list(ms.take(i7 + 1)));
                }
                i7 += 1;
            }
        }
        proof {
            assert(ms.take(mn2 as int) =~= ms);
        }
        TsType::Union(alts)
    }

    /// Appends the full text of this enum declaration.
    #[verifier::rlimit(100)]
    pub fn write(&self, out: &mut String)
        ensures
            final(out)@ == old(out)@ + enum_text(self@),
    {
        let ghost e = self@;
        let mode = match self.discriminants {
            Some(_) => TextMode::Block,
            None => TextMode::Inline,
        };
        match &self.discriminants {
            Some(d) => {
                d.write(out);
                out.append("\n\n");
            },
            None => {},
        }
        if self.namespace {
            self.write_namespace(out, mode);
        }
        let ghost before_top = out@;
        let union_ty = self.build_union();
        let top = TsTypeAliasDecl {
            id: self.id.clone(),
            export: true,
            type_params: crate::typescript::ts_type::clone_strings(&self.type_params),
            type_ann: union_ty,
            comments: crate::typescript::ts_type::clone_strings(&self.comments),
        };
        top.write(out, mode);
        proof {
            let dp: Seq<char> = match e.discriminants {
                Some(de) => venum_text(de) + "\n\n"@,
                None => Seq::<char>::empty(),
            };
            let np: Seq<char> = if e.namespace {
                aux_lines_text(e.id, aux_pairs(e)) + comments_text(e.comments)
                    + "declare namespace "@ + e.id + (if e.members.len() == 0 {
                    " {}"@
                } else {
                    " {"@ + ns_body_text(e.members, "__"@ + e.id, e.type_params, enum_mode(e))
                        + "\n}"@
                }) + "\n\n"@
            } else {
                Seq::<char>::empty()
            };
            let tm = AliasM {
                id: e.id,
                export: true,
                type_params: e.type_params,
                type_ann: enum_union(e),
                comments: e.comments,
            };
            assert(enum_text(e) == dp + np + alias_text(tm, enum_mode(e)));
            assert(mode == enum_mode(e));
            assert(top@ == tm);
            assert(before_top =~= old(out)@ + dp + np);
            assert(final(out)@ == before_top + alias_text(tm, enum_mode(e)));
            assert(final(out)@ =~= old(out)@ + (dp + np + alias_text(tm, enum_mode(e))));
        }
    }

    /// The rendered text of this enum declaration.
    pub fn text(&self) -> (r: String)
        ensures
            r@ == enum_text(self@),
    {
        let mut out = String::new();
        self.write(&mut out);
        proof {
            assert(out@ =~= enum_text(self@));
        }
        out
    }
}

impl Decl {
    /// The name under which this declaration is emitted.
    pub fn id(&self) -> (r: &String)
        ensures
            r@ == self.spec_id(),
    {
        match self {
            Decl::TsTypeAlias(d) => &d.id,
            Decl::TsInterface(d) => &d.id,
            Decl::TsEnum(d) => &d.id,
            Decl::TsValueEnum(d) => &d.id,
        }
    }

    /// The name of a declaration, in the model.
    pub open spec fn spec_id(&self) -> Seq<char> {
        match self {
            Decl::TsTypeAlias(d) => d.id@,
            Decl::TsInterface(d) => d.id@,
            Decl::TsEnum(d) => d.id@,
            Decl::TsValueEnum(d) => d.id@,
        }
    }

    /// The full rendered text of this declaration.
    pub fn text(&self) -> (r: String)
        ensures
            r@ == decl_text(self@),
    {
        match self {
            Decl::TsTypeAlias(d) => d.text(TextMode::Inline),
            Decl::TsInterface(d) => d.text(),
            Decl::TsEnum(d) => d.text(),
            Decl::TsValueEnum(d) => d.text(),
        }
    }
}

} // verus!
