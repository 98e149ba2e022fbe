//! Doc comment rendering and comment-stripping of type trees.

use vstd::prelude::*;

use crate::typescript::basic::{TsTypeElement, TsTypeLit};
use crate::typescript::ts_type::{
    clone_strings, lemma_members_view, members_view, MemberM, TsType, TyM,
};



verus! {

/// `s` without its leading double quotes.
pub open spec fn trim_lead_quotes(s: Seq<char>) -> Seq<char>
    decreases s.len(),
{
    if s.len() > 0 && s.first() == '"' {
        trim_lead_quotes(s.drop_first())
    } else {
        s
    }
}

/// `s` without its trailing double quotes.
pub open spec fn trim_trail_quotes(s: Seq<char>) -> Seq<char>
    decreases s.len(),
{
    if s.len() > 0 && s.last() == '"' {
        trim_trail_quotes(s.drop_last())
    } else {
        s
    }
}

/// `s` without the double quotes wrapping it.
pub open spec fn trim_quotes(s: Seq<char>) -> Seq<char> {
    trim_trail_quotes(trim_lead_quotes(s))
}

/// One line of a doc comment block.
pub open spec fn comment_line_text(line: Seq<char>) -> Seq<char> {
    " *"@ + trim_quotes(line) + "\n"@
}

/// The lines of a doc comment block.
pub open spec fn comment_lines_text(cs: Seq<Seq<char>>) -> Seq<char>
    decreases cs.len(),
{
    if cs.len() == 0 {
        Seq::empty()
    } else {
        comment_line_text(cs.first()) + comment_lines_text(cs.drop_first())
    }
}

/// A doc comment block `/** ... */`, empty when there are no lines.
pub open spec fn comments_text(cs: Seq<Seq<char>>) -> Seq<char> {
    if cs.len() == 0 {
        Seq::empty()
    } else {
        "/**\n"@ + comment_lines_text(cs) + " */\n"@
    }
}


proof fn lemma_comment_lines_push(s: Seq<Seq<char>>, e: Seq<char>)
    ensures
        comment_lines_text(s.push(e)) == comment_lines_text(s) + comment_line_text(e),
    decreases s.len(),
{
    if s.len() == 0 {
        reveal_with_fuel(comment_lines_text, 2);
        assert(s.push(e).first() == e);
        assert(s.push(e).drop_first() =~= Seq::<Seq<char>>::empty());
        assert(comment_lines_text(s.push(e)) =~= comment_lines_text(s) + comment_line_text(e));
    } else {
        assert(s.push(e).first() == s.first());
        assert(s.push(e).drop_first() =~= s.drop_first().push(e));
        lemma_comment_lines_push(s.drop_first(), e);
        assert(comment_lines_text(s.push(e)) == comment_line_text(s.first()) + comment_lines_text(
            s.drop_first().push(e),
        ));
        assert(comment_lines_text(s) == comment_line_text(s.first()) + comment_lines_text(
            s.drop_first(),
        ));
        assert(comment_lines_text(s.push(e)) =~= comment_lines_text(s) + comment_line_text(e));
    }
}


proof fn lemma_trim_lead(s: Seq<char>, k: int)
    requires
        0 <= k <= s.len(),
        forall|j: int| 0 <= j < k ==> s[j] == '"',
        k < s.len() ==> s[k] != '"',
    ensures
        trim_lead_quotes(s) == s.skip(k),
    decreases k,
{
    if k == 0 {
        assert(trim_lead_quotes(s) =~= s.skip(0));
    } else {
        assert(s.first() == '"');
        lemma_trim_lead(s.drop_first(), k - 1);
        assert(s.drop_first().skip(k - 1) =~= s.skip(k));
    }
}

proof fn lemma_trim_trail(s: Seq<char>, k: int)
    requires
        0 <= k <= s.len(),
        forall|j: int| s.len() - k <= j < s.len() ==> s[j] == '"',
        k < s.len() ==> s[s.len() - k - 1] != '"',
    ensures
        trim_trail_quotes(s) == s.take(s.len() - k),
    decreases k,
{
    if k == 0 {
        assert(trim_trail_quotes(s) =~= s.take(s.len() as int));
    } else {
        assert(s.last() == '"');
        lemma_trim_trail(s.drop_last(), k - 1);
        assert(s.drop_last().take(s.len() - k) =~= s.take(s.len() - k));
    }
}


/// Appends one comment line ` *...` with wrapping quotes removed.
fn write_comment_line(out: &mut String, line: &String)
    ensures
        final(out)@ == old(out)@ + comment_line_text(line@),
{
    out.append(" *");
    let len = line.as_str().unicode_len();
    let mut lead: usize = 0;
    while lead < len && line.as_str().get_char(lead) == '"'
        invariant
            0 <= lead <= len == line@.len(),
            forall|j: int| 0 <= j < lead ==> line@[j] == '"',
        decreases len - lead,
    {
        lead += 1;
    }
    proof {
        lemma_trim_lead(line@, lead as int);
    }
    let mut back: usize = len;
    while back > lead && line.as_str().get_char(back - 1) == '"'
        invariant
            lead <= back <= len == line@.len(),
            forall|j: int| back <= j < len ==> line@[j] == '"',
        decreases back,
    {
        back -= 1;
    }
    let seg = line.as_str().substring_char(lead, back);
    out.append(seg);
    out.append("\n");
    proof {
        let trimmed = line@.skip(lead as int);
        lemma_trim_trail(trimmed, (len - back) as int);
        assert(trimmed.take(trimmed.len() - (len - back)) =~= line@.skip(lead as int).take(
            (back - lead) as int,
        ));
        assert(line@.subrange(lead as int, back as int) =~= line@.skip(lead as int).take(
            (back - lead) as int,
        ));
        assert(final(out)@ =~= old(out)@ + comment_line_text(line@));
    }
}

/// Appends a doc comment block for `comments`, empty when there are none.
pub fn write_doc_comments(out: &mut String, comments: &Vec<String>)
    ensures
        final(out)@ == old(out)@ + comments_text(comments.deep_view()),
{
    let ghost cs = comments.deep_view();
    if comments.len() == 0 {
        proof {
            assert(final(out)@ =~= old(out)@ + comments_text(cs));
        }
        return ;
    }
    out.append("/**\n");
    let n = comments.len();
    let mut i: usize = 0;
    while i < n
        invariant
            0 <= i <= n == comments@.len(),
            cs == comments.deep_view(),
            cs.len() == n,
            forall|j: int| 0 <= j < n ==> cs[j] == comments@[j]@,
            out@ == old(out)@ + "/**\n"@ + comment_lines_text(cs.take(i as int)),
        decreases n - i,
    {
        write_comment_line(out, &comments[i]);
        proof {
            lemma_comment_lines_push(cs.take(i as int), cs[i as int]);
            assert(cs.take(i + 1) =~= cs.take(i as int).push(cs[i as int]));
            assert(out@ =~= old(out)@ + "/**\n"@ + comment_lines_text(cs.take(i + 1)));
        }
        i += 1;
    }
    out.append(" */\n");
    proof {
        assert(cs.take(n as int) =~= cs);
        assert(final(out)@ =~= old(out)@ + comments_text(cs));
    }
}



/// The model of a type tree with the comments of every type-literal member
/// removed, recursively through member annotations.
pub open spec fn spec_clean_comments(t: TyM) -> TyM
    decreases t,
{
    match t {
        TyM::TypeLit(ms) => TyM::TypeLit(clean_members(ms)),
        _ => t,
    }
}

/// Member-wise comment removal.
pub open spec fn clean_members(ms: Seq<MemberM>) -> Seq<MemberM>
    decreases ms,
{
    if ms.len() == 0 {
        Seq::empty()
    } else {
        clean_members(ms.drop_last()).push(
            MemberM {
                key: ms.last().key,
                type_ann: spec_clean_comments(ms.last().type_ann),
                optional: ms.last().optional,
                comments: Seq::empty(),
            },
        )
    }
}

pub proof fn lemma_clean_members(ms: Seq<MemberM>)
    ensures
        clean_members(ms).len() == ms.len(),
        forall|i: int|
            0 <= i < ms.len() ==> clean_members(ms)[i] == (MemberM {
                key: (#[trigger] ms[i]).key,
                type_ann: spec_clean_comments(ms[i].type_ann),
                optional: ms[i].optional,
                comments: Seq::empty(),
            }),
    decreases ms.len(),
{
    if ms.len() > 0 {
        lemma_clean_members(ms.drop_last());
        assert forall|i: int|
            0 <= i < ms.len() implies clean_members(ms)[i] == (MemberM {
            key: (#[trigger] ms[i]).key,
            type_ann: spec_clean_comments(ms[i].type_ann),
            optional: ms[i].optional,
            comments: Seq::empty(),
        }) by {
            if i < ms.len() - 1 {
                assert(ms.drop_last()[i] == ms[i]);
            }
        }
    }
}

/// A copy of `typ` with the comments of every type-literal member removed,
/// recursively through member annotations.
pub fn clean_comments(typ: &TsType) -> (r: TsType)
    ensures
        r@ == spec_clean_comments(typ@),
    decreases *typ,
{
    match typ {
        TsType::TypeLit(lit) => {
            let cleaned = clean_members_exec(&lit.members);
            TsType::TypeLit(TsTypeLit { members: cleaned })
        },
        _ => typ.duplicate(),
    }
}

/// Member-wise comment removal.
fn clean_members_exec(v: &Vec<TsTypeElement>) -> (r: Vec<TsTypeElement>)
    ensures
        members_view(r@) == clean_members(members_view(v@)),
    decreases *v,
{
    let mut r: Vec<TsTypeElement> = Vec::new();
    let n = v.len();
    let mut i: usize = 0;
    while i < n
        invariant
            0 <= i <= n == v@.len(),
            r@.len() == i,
            forall|j: int|
                0 <= j < i ==> (#[trigger] r@[j])@ == (MemberM {
                    key: v@[j]@.key,
                    type_ann: spec_clean_comments(v@[j]@.type_ann),
                    optional: v@[j]@.optional,
                    comments: Seq::empty(),
                }),
        decreases n - i,
    {
        let m = &v[i];
        let nm = TsTypeElement {
            key: m.key.clone(),
            type_ann: clean_comments(&m.type_ann),
            optional: m.optional,
            comments: Vec::new(),
        };
        proof {
            assert(nm@.comments =~= Seq::<Seq<char>>::empty());
        }
        r.push(nm);
        i += 1;
    }
    proof {
        lemma_members_view(r@);
        lemma_members_view(v@);
        lemma_clean_members(members_view(v@));
        assert forall|i: int| 0 <= i < v@.len() implies members_view(r@)[i] == clean_members(
            members_view(v@),
        )[i] by {
            assert(members_view(v@)[i] == v@[i]@);
            assert(members_view(r@)[i] == r@[i]@);
        }
        assert(members_view(r@) =~= clean_members(members_view(v@)));
    }
    r
}

} // verus!
