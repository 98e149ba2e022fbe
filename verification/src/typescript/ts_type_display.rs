//! Exact textual rendering of type expressions.
//!
//! Two layout styles exist: `Inline` renders type literals on one line and
//! drops member comments; `Block` renders type literals over several lines
//! with four-space indentation and doc comments.

use vstd::prelude::*;

use crate::comments::{comments_text, write_doc_comments};
use crate::typescript::basic::{spec_is_js_ident, is_js_ident, KeyM, TsKeywordTypeKind, TsTypeElement, TsTypeElementKey};
use crate::typescript::ts_type::{
    lemma_members_height, lemma_members_view, lemma_tys_height, lemma_tys_view, members_height,
    members_view, ty_height, ty_view, tys_height, tys_view, MemberM, TsType, TyM,
};
use crate::typescript::to_string_with_indent::{indent_text, push_spaces, sp, ToStringWithIndent};

verus! {

/// Layout style for rendered type literals.
#[derive(Debug, Clone, Copy, PartialEq, Eq, Structural)]
pub enum TextMode {
    /// Type literals on one line, member comments dropped.
    Inline,
    /// Type literals over several lines with indentation and comments.
    Block,
}

/// The text of a keyword type.
pub open spec fn kw_text(k: TsKeywordTypeKind) -> Seq<char> {
    match k {
        TsKeywordTypeKind::Number => "number"@,
        TsKeywordTypeKind::Bigint => "bigint"@,
        TsKeywordTypeKind::Boolean => "boolean"@,
        TsKeywordTypeKind::StringKind => "string"@,
        TsKeywordTypeKind::Void => "void"@,
        TsKeywordTypeKind::Undefined => "undefined"@,
        TsKeywordTypeKind::Null => "null"@,
        TsKeywordTypeKind::Never => "never"@,
    }
}

/// `s` wrapped in double quotes.
pub open spec fn quoted(s: Seq<char>) -> Seq<char> {
    "\""@ + s + "\""@
}

/// The text of a member key: quoted unless it is a plain identifier,
/// computed keys in brackets.
pub open spec fn key_text(k: KeyM) -> Seq<char> {
    match k {
        KeyM::Lit(s) => if spec_is_js_ident(s) {
            s
        } else {
            quoted(s)
        },
        KeyM::Quoted(s) => quoted(s),
        KeyM::Var(s) => "["@ + s + "]"@,
    }
}

/// The character of one decimal digit.
pub open spec fn digit_char(d: nat) -> char {
    if d == 0 {
        '0'
    } else if d == 1 {
        '1'
    } else if d == 2 {
        '2'
    } else if d == 3 {
        '3'
    } else if d == 4 {
        '4'
    } else if d == 5 {
        '5'
    } else if d == 6 {
        '6'
    } else if d == 7 {
        '7'
    } else if d == 8 {
        '8'
    } else {
        '9'
    }
}

/// The decimal digits of `n`.
pub open spec fn dec_digits(n: nat) -> Seq<char>
    decreases n,
{
    if n < 10 {
        seq![digit_char(n)]
    } else {
        dec_digits(n / 10) + seq![digit_char(n % 10)]
    }
}

/// The rendered text of a type expression.
pub open spec fn type_text(t: TyM, mode: TextMode, cmts: bool) -> Seq<char>
    decreases ty_height(t), 0int, 0int,
    via type_text_decreases
{
    match t {
        TyM::Keyword(k) => kw_text(k),
        TyM::Lit(s) => quoted(s),
        TyM::Computed(s) => s,
        TyM::Array(b) => match *b {
            TyM::Union(_) => "("@ + type_text(*b, mode, true) + ")[]"@,
            TyM::Intersection(_) => "("@ + type_text(*b, mode, true) + ")[]"@,
            TyM::Optional(_, _) => "("@ + type_text(*b, mode, true) + ")[]"@,
            _ => type_text(*b, mode, true) + "[]"@,
        },
        TyM::Tuple(es) => "["@ + comma_list_text(es, mode) + "]"@,
        TyM::Optional(b, nl) => type_text(*b, mode, true) + " | "@ + kw_text(nl.spec_kind()),
        TyM::Ref { name, type_params } => if type_params.len() == 0 {
            name
        } else {
            name + "<"@ + comma_list_text(type_params, mode) + ">"@
        },
        TyM::Func { params, type_ann } => "("@ + args_list_text(params, mode, 0) + ") => "@
            + type_text(*type_ann, mode, true),
        TyM::TypeLit(ms) => match mode {
            TextMode::Inline => if ms.len() == 0 {
                "{}"@
            } else {
                "{ "@ + inline_members_text(ms) + " }"@
            },
            TextMode::Block => if ms.len() == 0 {
                "{}"@
            } else {
                "{"@ + block_members_text(ms, cmts) + "\n}"@
            },
        },
        TyM::Intersection(ts) => if ts.len() == 1 {
            type_text(ts[0], mode, true)
        } else {
            amp_list_text(ts, mode)
        },
        TyM::Union(ts) => if ts.len() == 0 {
            "void"@
        } else if ts.len() == 1 {
            type_text(ts[0], mode, true)
        } else {
            pipe_list_text(ts, mode)
        },
        TyM::Override { type_override, .. } => type_override,
    }
}

#[via_fn]
proof fn type_text_decreases(t: TyM, mode: TextMode, cmts: bool) {
    match t {
        TyM::Intersection(ts) => {
            lemma_tys_height(ts);
        },
        TyM::Union(ts) => {
            lemma_tys_height(ts);
        },
        _ => {},
    }
}

/// Elements joined by `", "`.
pub open spec fn comma_list_text(ts: Seq<TyM>, mode: TextMode) -> Seq<char>
    decreases tys_height(ts), 1int, ts.len(),
{
    if ts.len() == 0 {
        Seq::empty()
    } else if ts.len() == 1 {
        type_text(ts.first(), mode, true)
    } else {
        type_text(ts.first(), mode, true) + ", "@ + comma_list_text(ts.drop_first(), mode)
    }
}

/// Function parameters `argN: T` joined by `", "`, numbered from `idx`.
pub open spec fn args_list_text(ts: Seq<TyM>, mode: TextMode, idx: nat) -> Seq<char>
    decreases tys_height(ts), 1int, ts.len(),
{
    if ts.len() == 0 {
        Seq::empty()
    } else if ts.len() == 1 {
        arg_text(ts.first(), mode, idx)
    } else {
        arg_text(ts.first(), mode, idx) + ", "@ + args_list_text(ts.drop_first(), mode, idx + 1)
    }
}

/// One function parameter `argN: T`.
pub open spec fn arg_text(t: TyM, mode: TextMode, idx: nat) -> Seq<char>
    decreases ty_height(t), 0int, 1int,
{
    "arg"@ + dec_digits(idx) + ": "@ + type_text(t, mode, true)
}

/// One alternative of an intersection: unions are parenthesized and type
/// literals lose their comments.
pub open spec fn amp_elem_text(t: TyM, mode: TextMode) -> Seq<char>
    decreases ty_height(t), 0int, 1int,
{
    match t {
        TyM::Union(_) => "("@ + type_text(t, mode, true) + ")"@,
        TyM::TypeLit(_) => type_text(t, mode, false),
        _ => type_text(t, mode, true),
    }
}

/// Intersection alternatives joined by `" & "`.
pub open spec fn amp_list_text(ts: Seq<TyM>, mode: TextMode) -> Seq<char>
    decreases tys_height(ts), 1int, ts.len(),
{
    if ts.len() == 0 {
        Seq::empty()
    } else if ts.len() == 1 {
        amp_elem_text(ts.first(), mode)
    } else {
        amp_elem_text(ts.first(), mode) + " & "@ + amp_list_text(ts.drop_first(), mode)
    }
}

/// One alternative of a union: intersections are parenthesized.
pub open spec fn pipe_elem_text(t: TyM, mode: TextMode) -> Seq<char>
    decreases ty_height(t), 0int, 1int,
{
    match t {
        TyM::Intersection(_) => "("@ + type_text(t, mode, true) + ")"@,
        _ => type_text(t, mode, true),
    }
}

/// Union alternatives joined by `" | "`.
pub open spec fn pipe_list_text(ts: Seq<TyM>, mode: TextMode) -> Seq<char>
    decreases tys_height(ts), 1int, ts.len(),
{
    if ts.len() == 0 {
        Seq::empty()
    } else if ts.len() == 1 {
        pipe_elem_text(ts.first(), mode)
    } else {
        pipe_elem_text(ts.first(), mode) + " | "@ + pipe_list_text(ts.drop_first(), mode)
    }
}

/// One member as rendered inside an inline type literal.
pub open spec fn inline_member_text(m: MemberM) -> Seq<char>
    decreases ty_height(m.type_ann), 0int, 1int,
{
    key_text(m.key) + (if m.optional {
        "?"@
    } else {
        Seq::<char>::empty()
    }) + ": "@ + type_text(m.type_ann, TextMode::Inline, true)
}

/// Inline members joined by `"; "`.
pub open spec fn inline_members_text(ms: Seq<MemberM>) -> Seq<char>
    decreases members_height(ms), 1int, ms.len(),
{
    if ms.len() == 0 {
        Seq::empty()
    } else if ms.len() == 1 {
        inline_member_text(ms.first())
    } else {
        inline_member_text(ms.first()) + "; "@ + inline_members_text(ms.drop_first())
    }
}

/// One member as rendered inside a block type literal, before indentation.
pub open spec fn block_member_text(m: MemberM, cmts: bool) -> Seq<char>
    decreases ty_height(m.type_ann), 0int, 1int,
{
    (if cmts {
        comments_text(m.comments)
    } else {
        Seq::<char>::empty()
    }) + key_text(m.key) + (if m.optional {
        "?"@
    } else {
        Seq::<char>::empty()
    }) + ": "@ + type_text(m.type_ann, TextMode::Block, cmts)
}

/// Block members, each on its own indented line ending in `;`.
pub open spec fn block_members_text(ms: Seq<MemberM>, cmts: bool) -> Seq<char>
    decreases members_height(ms), 1int, ms.len(),
{
    if ms.len() == 0 {
        Seq::empty()
    } else {
        "\n"@ + indent_text(block_member_text(ms.first(), cmts), 4) + ";"@ + block_members_text(
            ms.drop_first(),
            cmts,
        )
    }
}

proof fn lemma_comma_push(s: Seq<TyM>, e: TyM, mode: TextMode)
    ensures
        comma_list_text(s.push(e), mode) == if s.len() == 0 {
            type_text(e, mode, true)
        } else {
            comma_list_text(s, mode) + ", "@ + type_text(e, mode, true)
        },
    decreases s.len(),
{
    if s.len() == 0 {
        assert(s.push(e).first() == e);
        assert(comma_list_text(s.push(e), mode) =~= type_text(e, mode, true));
    } else {
        assert(s.push(e).first() == s.first());
        assert(s.push(e).drop_first() =~= s.drop_first().push(e));
        lemma_comma_push(s.drop_first(), e, mode);
        assert(comma_list_text(s.push(e), mode) =~= comma_list_text(s, mode) + ", "@ + type_text(
            e,
            mode,
            true,
        ));
    }
}

proof fn lemma_args_push(s: Seq<TyM>, e: TyM, mode: TextMode, idx: nat)
    ensures
        args_list_text(s.push(e), mode, idx) == if s.len() == 0 {
            arg_text(e, mode, idx)
        } else {
            args_list_text(s, mode, idx) + ", "@ + arg_text(e, mode, idx + s.len())
        },
    decreases s.len(),
{
    if s.len() == 0 {
        assert(s.push(e).first() == e);
        assert(args_list_text(s.push(e), mode, idx) =~= arg_text(e, mode, idx));
    } else {
        assert(s.push(e).first() == s.first());
        assert(s.push(e).drop_first() =~= s.drop_first().push(e));
        lemma_args_push(s.drop_first(), e, mode, idx + 1);
        assert(args_list_text(s.push(e), mode, idx) =~= args_list_text(s, mode, idx) + ", "@
            + arg_text(e, mode, idx + s.len()));
    }
}

proof fn lemma_amp_push(s: Seq<TyM>, e: TyM, mode: TextMode)
    ensures
        amp_list_text(s.push(e), mode) == if s.len() == 0 {
            amp_elem_text(e, mode)
        } else {
            amp_list_text(s, mode) + " & "@ + amp_elem_text(e, mode)
        },
    decreases s.len(),
{
    if s.len() == 0 {
        assert(s.push(e).first() == e);
        assert(amp_list_text(s.push(e), mode) =~= amp_elem_text(e, mode));
    } else {
        assert(s.push(e).first() == s.first());
        assert(s.push(e).drop_first() =~= s.drop_first().push(e));
        lemma_amp_push(s.drop_first(), e, mode);
        assert(amp_list_text(s.push(e), mode) =~= amp_list_text(s, mode) + " & "@ + amp_elem_text(
            e,
            mode,
        ));
    }
}

proof fn lemma_pipe_push(s: Seq<TyM>, e: TyM, mode: TextMode)
    ensures
        pipe_list_text(s.push(e), mode) == if s.len() == 0 {
            pipe_elem_text(e, mode)
        } else {
            pipe_list_text(s, mode) + " | "@ + pipe_elem_text(e, mode)
        },
    decreases s.len(),
{
    if s.len() == 0 {
        assert(s.push(e).first() == e);
        assert(pipe_list_text(s.push(e), mode) =~= pipe_elem_text(e, mode));
    } else {
        assert(s.push(e).first() == s.first());
        assert(s.push(e).drop_first() =~= s.drop_first().push(e));
        lemma_pipe_push(s.drop_first(), e, mode);
        assert(pipe_list_text(s.push(e), mode) =~= pipe_list_text(s, mode) + " | "@
            + pipe_elem_text(e, mode));
    }
}

proof fn lemma_inline_members_push(s: Seq<MemberM>, e: MemberM)
    ensures
        inline_members_text(s.push(e)) == if s.len() == 0 {
            inline_member_text(e)
        } else {
            inline_members_text(s) + "; "@ + inline_member_text(e)
        },
    decreases s.len(),
{
    if s.len() == 0 {
        assert(s.push(e).first() == e);
        assert(inline_members_text(s.push(e)) =~= inline_member_text(e));
    } else {
        assert(s.push(e).first() == s.first());
        assert(s.push(e).drop_first() =~= s.drop_first().push(e));
        lemma_inline_members_push(s.drop_first(), e);
        assert(inline_members_text(s.push(e)) =~= inline_members_text(s) + "; "@
            + inline_member_text(e));
    }
}

proof fn lemma_block_members_push(s: Seq<MemberM>, e: MemberM, cmts: bool)
    ensures
        block_members_text(s.push(e), cmts) == block_members_text(s, cmts) + "\n"@ + indent_text(
            block_member_text(e, cmts),
            4,
        ) + ";"@,
    decreases s.len(),
{
    if s.len() == 0 {
        reveal_with_fuel(block_members_text, 2);
        assert(s.push(e).first() == e);
        assert(s.push(e).drop_first() =~= Seq::<MemberM>::empty());
        assert(block_members_text(s.push(e), cmts) =~= block_members_text(s, cmts) + "\n"@
            + indent_text(block_member_text(e, cmts), 4) + ";"@);
    } else {
        assert(s.push(e).first() == s.first());
        assert(s.push(e).drop_first() =~= s.drop_first().push(e));
        lemma_block_members_push(s.drop_first(), e, cmts);
        assert(block_members_text(s.push(e), cmts) == "\n"@ + indent_text(
            block_member_text(s.first(), cmts),
            4,
        ) + ";"@ + block_members_text(s.drop_first().push(e), cmts));
        assert(block_members_text(s, cmts) == "\n"@ + indent_text(
            block_member_text(s.first(), cmts),
            4,
        ) + ";"@ + block_members_text(s.drop_first(), cmts));
        assert(block_members_text(s.push(e), cmts) =~= block_members_text(s, cmts) + "\n"@
            + indent_text(block_member_text(e, cmts), 4) + ";"@);
    }
}


/// Appends a member key, quoting it when needed.
pub fn write_key(out: &mut String, key: &TsTypeElementKey)
    ensures
        final(out)@ == old(out)@ + key_text(key@),
{
    match key {
        TsTypeElementKey::Lit(s) => {
            if is_js_ident(s) {
                out.append(s.as_str());
            } else {
                out.append("\"");
                out.append(s.as_str());
                out.append("\"");
            }
        },
        TsTypeElementKey::Quoted(s) => {
            out.append("\"");
            out.append(s.as_str());
            out.append("\"");
        },
        TsTypeElementKey::Var(s) => {
            out.append("[");
            out.append(s.as_str());
            out.append("]");
        },
    }
    proof {
        assert(final(out)@ =~= old(out)@ + key_text(key@));
    }
}

/// Appends a keyword type.
fn write_kw(out: &mut String, k: TsKeywordTypeKind)
    ensures
        final(out)@ == old(out)@ + kw_text(k),
{
    match k {
        TsKeywordTypeKind::Number => out.append("number"),
        TsKeywordTypeKind::Bigint => out.append("bigint"),
        TsKeywordTypeKind::Boolean => out.append("boolean"),
        TsKeywordTypeKind::StringKind => out.append("string"),
        TsKeywordTypeKind::Void => out.append("void"),
        TsKeywordTypeKind::Undefined => out.append("undefined"),
        TsKeywordTypeKind::Null => out.append("null"),
        TsKeywordTypeKind::Never => out.append("never"),
    }
}

/// Appends the rendered text of `t` in the given layout style.
pub fn write_type(out: &mut String, t: &TsType, mode: TextMode, cmts: bool)
    ensures
        final(out)@ == old(out)@ + type_text(t@, mode, cmts),
    decreases ty_height(t@), 0int, 0int,
{
    match t {
        TsType::Keyword(k) => {
            write_kw(out, *k);
        },
        TsType::Lit(s) => {
            out.append("\"");
            out.append(s.as_str());
            out.append("\"");
            proof {
                assert(final(out)@ =~= old(out)@ + quoted(s@));
            }
        },
        TsType::Computed(s) => {
            out.append(s.as_str());
        },
        TsType::Array(b) => {
            let parens = match &**b {
                TsType::Union(_) => true,
                TsType::Intersection(_) => true,
                TsType::Optional(_, _) => true,
                _ => false,
            };
            if parens {
                out.append("(");
                write_type(out, &**b, mode, true);
                out.append(")[]");
            } else {
                write_type(out, &**b, mode, true);
                out.append("[]");
            }
            proof {
                assert(final(out)@ =~= old(out)@ + type_text(t@, mode, cmts));
            }
        },
        TsType::Tuple(v) => {
            out.append("[");
            write_comma_list(out, v, mode);
            out.append("]");
            proof {
                assert(final(out)@ =~= old(out)@ + type_text(t@, mode, cmts));
            }
        },
        TsType::Optional(b, nl) => {
            write_type(out, &**b, mode, true);
            out.append(" | ");
            write_kw(out, nl.to_kind());
            proof {
                assert(final(out)@ =~= old(out)@ + type_text(t@, mode, cmts));
            }
        },
        TsType::Ref { name, type_params } => {
            out.append(name.as_str());
            if type_params.len() > 0 {
                out.append("<");
                write_comma_list(out, type_params, mode);
                out.append(">");
            }
            proof {
                lemma_tys_view(type_params@);
                assert(final(out)@ =~= old(out)@ + type_text(t@, mode, cmts));
            }
        },
        TsType::Func { params, type_ann } => {
            out.append("(");
            write_args_list(out, params, mode);
            out.append(") => ");
            write_type(out, &**type_ann, mode, true);
            proof {
                assert(final(out)@ =~= old(out)@ + type_text(t@, mode, cmts));
            }
        },
        TsType::TypeLit(lit) => {
            proof {
                lemma_members_view(lit.members@);
            }
            if lit.members.len() == 0 {
                out.append("{}");
            } else {
                match mode {
                    TextMode::Inline => {
                        out.append("{ ");
                        write_inline_members(out, &lit.members);
                        out.append(" }");
                    },
                    TextMode::Block => {
                        out.append("{");
                        write_block_members(out, &lit.members, cmts);
                        out.append("\n}");
                    },
                }
            }
            proof {
                assert(final(out)@ =~= old(out)@ + type_text(t@, mode, cmts));
            }
        },
        TsType::Intersection(v) => {
            proof {
                lemma_tys_view(v@);
                lemma_tys_height(tys_view(v@));
            }
            if v.len() == 1 {
                write_type(out, &v[0], mode, true);
            } else {
                write_amp_list(out, v, mode);
            }
            proof {
                assert(final(out)@ =~= old(out)@ + type_text(t@, mode, cmts));
            }
        },
        TsType::Union(v) => {
            proof {
                lemma_tys_view(v@);
                lemma_tys_height(tys_view(v@));
            }
            if v.len() == 0 {
                out.append("void");
            } else if v.len() == 1 {
                write_type(out, &v[0], mode, true);
            } else {
                write_pipe_list(out, v, mode);
            }
            proof {
                assert(final(out)@ =~= old(out)@ + type_text(t@, mode, cmts));
            }
        },
        TsType::Override { type_override, .. } => {
            out.append(type_override.as_str());
        },
    }
}

/// Appends list elements joined by `", "`.
pub fn write_comma_list(out: &mut String, v: &Vec<TsType>, mode: TextMode)
    ensures
        final(out)@ == old(out)@ + comma_list_text(tys_view(v@), mode),
    decreases tys_height(tys_view(v@)), 1int, 0int,
{
    let ghost ts = tys_view(v@);
    let n = v.len();
    proof {
        lemma_tys_view(v@);
        lemma_tys_height(ts);
    }
    if n == 0 {
        proof {
            assert(final(out)@ =~= old(out)@ + comma_list_text(ts, mode));
        }
        return ;
    }
    write_type(out, &v[0], mode, true);
    proof {
        assert(ts.take(1) =~= seq![ts[0]]);
        lemma_comma_push(Seq::<TyM>::empty(), ts[0], mode);
        assert(Seq::<TyM>::empty().push(ts[0]) =~= ts.take(1));
        assert(out@ =~= old(out)@ + comma_list_text(ts.take(1), mode));
    }
    let mut i: usize = 1;
    while i < n
        invariant
            1 <= i <= n == v@.len(),
            ts == tys_view(v@),
            ts.len() == n,
            out@ == old(out)@ + comma_list_text(ts.take(i as int), mode),
        decreases n - i,
    {
        proof {
            lemma_tys_view(v@);
            lemma_tys_height(ts);
        }
        out.append(", ");
        write_type(out, &v[i], mode, true);
        proof {
            lemma_comma_push(ts.take(i as int), ts[i as int], mode);
            assert(ts.take(i + 1) =~= ts.take(i as int).push(ts[i as int]));
            assert(out@ =~= old(out)@ + comma_list_text(ts.take(i + 1), mode));
        }
        i += 1;
    }
    proof {
        assert(ts.take(n as int) =~= ts);
    }
}

/// Appends function parameters `argN: T` joined by `", "`.
fn write_args_list(out: &mut String, v: &Vec<TsType>, mode: TextMode)
    ensures
        final(out)@ == old(out)@ + args_list_text(tys_view(v@), mode, 0),
    decreases tys_height(tys_view(v@)), 1int, 0int,
{
    let ghost ts = tys_view(v@);
    let n = v.len();
    proof {
        lemma_tys_view(v@);
        lemma_tys_height(ts);
    }
    if n == 0 {
        proof {
            assert(final(out)@ =~= old(out)@ + args_list_text(ts, mode, 0));
        }
        return ;
    }
    out.append("arg0: ");
    write_type(out, &v[0], mode, true);
    proof {
        assert(ts.take(1) =~= Seq::<TyM>::empty().push(ts[0]));
        lemma_args_push(Seq::<TyM>::empty(), ts[0], mode, 0);
        assert(dec_digits(0) =~= seq!['0']);
        assert("arg0: "@ =~= "arg"@ + seq!['0'] + ": "@) by {
            reveal_strlit("arg0: ");
            reveal_strlit("arg");
            reveal_strlit(": ");
        }
        assert(out@ =~= old(out)@ + args_list_text(ts.take(1), mode, 0));
    }
    let mut i: usize = 1;
    while i < n
        invariant
            1 <= i <= n == v@.len(),
            ts == tys_view(v@),
            ts.len() == n,
            out@ == old(out)@ + args_list_text(ts.take(i as int), mode, 0),
        decreases n - i,
    {
        proof {
            lemma_tys_view(v@);
            lemma_tys_height(ts);
        }
        out.append(", arg");
        write_dec(out, i);
        out.append(": ");
        write_type(out, &v[i], mode, true);
        proof {
            lemma_args_push(ts.take(i as int), ts[i as int], mode, 0);
            assert(ts.take(i + 1) =~= ts.take(i as int).push(ts[i as int]));
            assert(", arg"@ =~= ", "@ + "arg"@) by {
                reveal_strlit(", arg");
                reveal_strlit(", ");
                reveal_strlit("arg");
            }
            assert(out@ =~= old(out)@ + args_list_text(ts.take(i + 1), mode, 0));
        }
        i += 1;
    }
    proof {
        assert(ts.take(n as int) =~= ts);
    }
}

/// Appends one intersection alternative.
fn write_amp_elem(out: &mut String, t: &TsType, mode: TextMode)
    ensures
        final(out)@ == old(out)@ + amp_elem_text(t@, mode),
    decreases ty_height(t@), 0int, 1int,
{
    match t {
        TsType::Union(_) => {
            out.append("(");
            write_type(out, t, mode, true);
            out.append(")");
            proof {
                assert(final(out)@ =~= old(out)@ + amp_elem_text(t@, mode));
            }
        },
        TsType::TypeLit(_) => {
            write_type(out, t, mode, false);
        },
        _ => {
            write_type(out, t, mode, true);
        },
    }
}

/// Appends intersection alternatives joined by `" & "`.
fn write_amp_list(out: &mut String, v: &Vec<TsType>, mode: TextMode)
    ensures
        final(out)@ == old(out)@ + amp_list_text(tys_view(v@), mode),
    decreases tys_height(tys_view(v@)), 1int, 0int,
{
    let ghost ts = tys_view(v@);
    let n = v.len();
    proof {
        lemma_tys_view(v@);
        lemma_tys_height(ts);
    }
    if n == 0 {
        proof {
            assert(final(out)@ =~= old(out)@ + amp_list_text(ts, mode));
        }
        return ;
    }
    write_amp_elem(out, &v[0], mode);
    proof {
        assert(ts.take(1) =~= Seq::<TyM>::empty().push(ts[0]));
        lemma_amp_push(Seq::<TyM>::empty(), ts[0], mode);
        assert(out@ =~= old(out)@ + amp_list_text(ts.take(1), mode));
    }
    let mut i: usize = 1;
    while i < n
        invariant
            1 <= i <= n == v@.len(),
            ts == tys_view(v@),
            ts.len() == n,
            out@ == old(out)@ + amp_list_text(ts.take(i as int), mode),
        decreases n - i,
    {
        proof {
            lemma_tys_view(v@);
            lemma_tys_height(ts);
        }
        out.append(" & ");
        write_amp_elem(out, &v[i], mode);
        proof {
            lemma_amp_push(ts.take(i as int), ts[i as int], mode);
            assert(ts.take(i + 1) =~= ts.take(i as int).push(ts[i as int]));
            assert(out@ =~= old(out)@ + amp_list_text(ts.take(i + 1), mode));
        }
        i += 1;
    }
    proof {
        assert(ts.take(n as int) =~= ts);
    }
}

/// Appends one union alternative.
fn write_pipe_elem(out: &mut String, t: &TsType, mode: TextMode)
    ensures
        final(out)@ == old(out)@ + pipe_elem_text(t@, mode),
    decreases ty_height(t@), 0int, 1int,
{
    match t {
        TsType::Intersection(_) => {
            out.append("(");
            write_type(out, t, mode, true);
            out.append(")");
            proof {
                assert(final(out)@ =~= old(out)@ + pipe_elem_text(t@, mode));
            }
        },
        _ => {
            write_type(out, t, mode, true);
        },
    }
}

/// Appends union alternatives joined by `" | "`.
fn write_pipe_list(out: &mut String, v: &Vec<TsType>, mode: TextMode)
    ensures
        final(out)@ == old(out)@ + pipe_list_text(tys_view(v@), mode),
    decreases tys_height(tys_view(v@)), 1int, 0int,
{
    let ghost ts = tys_view(v@);
    let n = v.len();
    proof {
        lemma_tys_view(v@);
        lemma_tys_height(ts);
    }
    if n == 0 {
        proof {
            assert(final(out)@ =~= old(out)@ + pipe_list_text(ts, mode));
        }
        return ;
    }
    write_pipe_elem(out, &v[0], mode);
    proof {
        assert(ts.take(1) =~= Seq::<TyM>::empty().push(ts[0]));
        lemma_pipe_push(Seq::<TyM>::empty(), ts[0], mode);
        assert(out@ =~= old(out)@ + pipe_list_text(ts.take(1), mode));
    }
    let mut i: usize = 1;
    while i < n
        invariant
            1 <= i <= n == v@.len(),
            ts == tys_view(v@),
            ts.len() == n,
            out@ == old(out)@ + pipe_list_text(ts.take(i as int), mode),
        decreases n - i,
    {
        proof {
            lemma_tys_view(v@);
            lemma_tys_height(ts);
        }
        out.append(" | ");
        write_pipe_elem(out, &v[i], mode);
        proof {
            lemma_pipe_push(ts.take(i as int), ts[i as int], mode);
            assert(ts.take(i + 1) =~= ts.take(i as int).push(ts[i as int]));
            assert(out@ =~= old(out)@ + pipe_list_text(ts.take(i + 1), mode));
        }
        i += 1;
    }
    proof {
        assert(ts.take(n as int) =~= ts);
    }
}

/// Appends one member of an inline type literal.
fn write_inline_member(out: &mut String, m: &TsTypeElement)
    ensures
        final(out)@ == old(out)@ + inline_member_text(m@),
    decreases ty_height(m@.type_ann), 0int, 1int,
{
    write_key(out, &m.key);
    if m.optional {
        out.append("?");
    }
    out.append(": ");
    write_type(out, &m.type_ann, TextMode::Inline, true);
    proof {
        assert(final(out)@ =~= old(out)@ + inline_member_text(m@));
    }
}

/// Appends inline members joined by `"; "`.
fn write_inline_members(out: &mut String, v: &Vec<TsTypeElement>)
    ensures
        final(out)@ == old(out)@ + inline_members_text(members_view(v@)),
    decreases members_height(members_view(v@)), 1int, 0int,
{
    let ghost ms = members_view(v@);
    let n = v.len();
    proof {
        lemma_members_view(v@);
        lemma_members_height(ms);
    }
    if n == 0 {
        proof {
            assert(final(out)@ =~= old(out)@ + inline_members_text(ms));
        }
        return ;
    }
    write_inline_member(out, &v[0]);
    proof {
        assert(ms.take(1) =~= Seq::<MemberM>::empty().push(ms[0]));
        lemma_inline_members_push(Seq::<MemberM>::empty(), ms[0]);
        assert(out@ =~= old(out)@ + inline_members_text(ms.take(1)));
    }
    let mut i: usize = 1;
    while i < n
        invariant
            1 <= i <= n == v@.len(),
            ms == members_view(v@),
            ms.len() == n,
            out@ == old(out)@ + inline_members_text(ms.take(i as int)),
        decreases n - i,
    {
        proof {
            lemma_members_view(v@);
            lemma_members_height(ms);
        }
        out.append("; ");
        write_inline_member(out, &v[i]);
        proof {
            lemma_inline_members_push(ms.take(i as int), ms[i as int]);
            assert(ms.take(i + 1) =~= ms.take(i as int).push(ms[i as int]));
            assert(out@ =~= old(out)@ + inline_members_text(ms.take(i + 1)));
        }
        i += 1;
    }
    proof {
        assert(ms.take(n as int) =~= ms);
    }
}

/// Renders one member of a block type literal, before indentation.
fn block_member_string(m: &TsTypeElement, cmts: bool) -> (r: String)
    ensures
        r@ == block_member_text(m@, cmts),
    decreases ty_height(m@.type_ann), 0int, 1int,
{
    let mut out = String::new();
    if cmts {
        write_doc_comments(&mut out, &m.comments);
    }
    write_key(&mut out, &m.key);
    if m.optional {
        out.append("?");
    }
    out.append(": ");
    write_type(&mut out, &m.type_ann, TextMode::Block, cmts);
    proof {
        assert(out@ =~= block_member_text(m@, cmts));
    }
    out
}

/// Appends block members, each on its own indented line ending in `;`.
fn write_block_members(out: &mut String, v: &Vec<TsTypeElement>, cmts: bool)
    ensures
        final(out)@ == old(out)@ + block_members_text(members_view(v@), cmts),
    decreases members_height(members_view(v@)), 1int, 0int,
{
    let ghost ms = members_view(v@);
    let n = v.len();
    proof {
        lemma_members_view(v@);
        lemma_members_height(ms);
    }
    let mut i: usize = 0;
    while i < n
        invariant
            0 <= i <= n == v@.len(),
            ms == members_view(v@),
            ms.len() == n,
            out@ == old(out)@ + block_members_text(ms.take(i as int), cmts),
        decreases n - i,
    {
        proof {
            lemma_members_view(v@);
            lemma_members_height(ms);
        }
        out.append("\n");
        let s = block_member_string(&v[i], cmts);
        let ind = s.to_string_with_indent(4);
        out.append(ind.as_str());
        out.append(";");
        proof {
            lemma_block_members_push(ms.take(i as int), ms[i as int], cmts);
            assert(ms.take(i + 1) =~= ms.take(i as int).push(ms[i as int]));
            assert(out@ =~= old(out)@ + block_members_text(ms.take(i + 1), cmts));
        }
        i += 1;
    }
    proof {
        assert(ms.take(n as int) =~= ms);
        assert(out@ =~= old(out)@ + block_members_text(ms, cmts));
    }
}

impl TsType {
    /// The rendered text of this type in the given layout style.
    pub fn to_text_in(&self, mode: TextMode) -> (r: String)
        ensures
            r@ == type_text(self@, mode, true),
    {
        let mut out = String::new();
        write_type(&mut out, self, mode, true);
        proof {
            assert(out@ =~= type_text(self@, mode, true));
        }
        out
    }

    /// The rendered text of this type in the block layout style.
    pub fn to_text(&self) -> (r: String)
        ensures
            r@ == type_text(self@, TextMode::Block, true),
    {
        self.to_text_in(TextMode::Block)
    }
}

/// Appends the decimal digits of `n`.
pub fn write_dec(out: &mut String, n: usize)
    ensures
        final(out)@ == old(out)@ + dec_digits(n as nat),
    decreases n,
{
    if n >= 10 {
        write_dec(out, n / 10);
    }
    let d = n % 10;
    if d == 0 {
        out.push('0');
    } else if d == 1 {
        out.push('1');
    } else if d == 2 {
        out.push('2');
    } else if d == 3 {
        out.push('3');
    } else if d == 4 {
        out.push('4');
    } else if d == 5 {
        out.push('5');
    } else if d == 6 {
        out.push('6');
    } else if d == 7 {
        out.push('7');
    } else if d == 8 {
        out.push('8');
    } else {
        out.push('9');
    }
    proof {
        assert(final(out)@ =~= old(out)@ + dec_digits(n as nat));
    }
}

} // verus!

