//! Case conversion of field and variant names.
//!
//! Field names are written in `snake_case`, variant names in `PascalCase`;
//! each rule converts from that convention, as serde does.

use vstd::prelude::*;

use crate::input::CaseRule;

verus! {

/// Lowercases one ASCII letter.
pub open spec fn lower_char(c: char) -> char {
    if 'A' <= c && c <= 'Z' {
        ((c as u8) + 32) as char
    } else {
        c
    }
}

/// Uppercases one ASCII letter.
pub open spec fn upper_char(c: char) -> char {
    if 'a' <= c && c <= 'z' {
        ((c as u8) - 32) as char
    } else {
        c
    }
}

/// Whether `c` is an ASCII uppercase letter.
pub open spec fn is_upper(c: char) -> bool {
    'A' <= c && c <= 'Z'
}

/// Every character uppercased.
pub open spec fn upper_all(s: Seq<char>) -> Seq<char> {
    s.map_values(|c: char| upper_char(c))
}

/// Every `from` character replaced by `to`.
pub open spec fn replace_all(s: Seq<char>, from: char, to: char) -> Seq<char> {
    s.map_values(
        |c: char|
            if c == from {
                to
            } else {
                c
            },
    )
}

/// The first character lowercased.
pub open spec fn lower_first(s: Seq<char>) -> Seq<char> {
    if s.len() == 0 {
        s
    } else {
        seq![lower_char(s.first())] + s.drop_first()
    }
}

/// A snake_case field name in PascalCase: underscores are dropped and the
/// letter after each one is uppercased, as is the very first letter.
pub open spec fn pascal_field(s: Seq<char>) -> Seq<char>
    decreases s.len(),
{
    if s.len() == 0 {
        Seq::empty()
    } else {
        let prev = pascal_field(s.drop_last());
        let c = s.last();
        if c == '_' {
            prev
        } else if s.len() == 1 || s[s.len() - 2] == '_' {
            prev + seq![upper_char(c)]
        } else {
            prev + seq![c]
        }
    }
}

/// A PascalCase variant name in snake_case: each uppercase letter after the
/// first starts a new `_`-separated word, and all letters are lowercased.
pub open spec fn snake_variant(s: Seq<char>) -> Seq<char>
    decreases s.len(),
{
    if s.len() == 0 {
        Seq::empty()
    } else {
        let prev = snake_variant(s.drop_last());
        let c = s.last();
        if is_upper(c) && s.len() > 1 {
            prev + seq!['_', lower_char(c)]
        } else if is_upper(c) {
            prev + seq![lower_char(c)]
        } else {
            prev + seq![c]
        }
    }
}

/// The result of applying a rule to a snake_case field name.
pub open spec fn spec_field_case(rule: CaseRule, s: Seq<char>) -> Seq<char> {
    match rule {
        CaseRule::Unchanged => s,
        CaseRule::Snake => s,
        CaseRule::Camel => lower_first(pascal_field(s)),
        CaseRule::Kebab => replace_all(s, '_', '-'),
        CaseRule::Pascal => pascal_field(s),
        CaseRule::ScreamingSnake => upper_all(s),
        CaseRule::ScreamingKebab => replace_all(upper_all(s), '_', '-'),
    }
}

/// The result of applying a rule to a PascalCase variant name.
pub open spec fn spec_variant_case(rule: CaseRule, s: Seq<char>) -> Seq<char> {
    match rule {
        CaseRule::Unchanged => s,
        CaseRule::Snake => snake_variant(s),
        CaseRule::Camel => lower_first(s),
        CaseRule::Kebab => replace_all(snake_variant(s), '_', '-'),
        CaseRule::Pascal => s,
        CaseRule::ScreamingSnake => upper_all(snake_variant(s)),
        CaseRule::ScreamingKebab => replace_all(upper_all(snake_variant(s)), '_', '-'),
    }
}

/// Lowercases one ASCII letter.
fn lower_char_exec(c: char) -> (r: char)
    ensures
        r == lower_char(c),
{
    if 'A' <= c && c <= 'Z' {
        (((c as u8) + 32) as char)
    } else {
        c
    }
}

/// Uppercases one ASCII letter.
fn upper_char_exec(c: char) -> (r: char)
    ensures
        r == upper_char(c),
{
    if 'a' <= c && c <= 'z' {
        (((c as u8) - 32) as char)
    } else {
        c
    }
}

/// Applies `rule` to a snake_case field name.
pub fn field_case(rule: CaseRule, s: &String) -> (r: String)
    ensures
        r@ == spec_field_case(rule, s@),
{
    match rule {
        CaseRule::Unchanged => s.clone(),
        CaseRule::Snake => s.clone(),
        CaseRule::Camel => {
            let p = pascal_field_exec(s);
            lower_first_exec(&p)
        },
        CaseRule::Kebab => replace_all_exec(s, '_', '-'),
        CaseRule::Pascal => pascal_field_exec(s),
        CaseRule::ScreamingSnake => upper_all_exec(s),
        CaseRule::ScreamingKebab => {
            let u = upper_all_exec(s);
            replace_all_exec(&u, '_', '-')
        },
    }
}

/// Applies `rule` to a PascalCase variant name.
pub fn variant_case(rule: CaseRule, s: &String) -> (r: String)
    ensures
        r@ == spec_variant_case(rule, s@),
{
    match rule {
        CaseRule::Unchanged => s.clone(),
        CaseRule::Snake => snake_variant_exec(s),
        CaseRule::Camel => lower_first_exec(s),
        CaseRule::Kebab => {
            let v = snake_variant_exec(s);
            replace_all_exec(&v, '_', '-')
        },
        CaseRule::Pascal => s.clone(),
        CaseRule::ScreamingSnake => {
            let v = snake_variant_exec(s);
            upper_all_exec(&v)
        },
        CaseRule::ScreamingKebab => {
            let v = snake_variant_exec(s);
            let u = upper_all_exec(&v);
            replace_all_exec(&u, '_', '-')
        },
    }
}

fn upper_all_exec(s: &String) -> (r: String)
    ensures
        r@ == upper_all(s@),
{
    let mut out = String::new();
    let len = s.as_str().unicode_len();
    let mut i: usize = 0;
    while i < len
        invariant
            0 <= i <= len == s@.len(),
            out@ == upper_all(s@.take(i as int)),
        decreases len - i,
    {
        out.push(upper_char_exec(s.as_str().get_char(i)));
        proof {
            assert(upper_all(s@.take(i + 1)) =~= upper_all(s@.take(i as int)).push(
                upper_char(s@[i as int]),
            ));
        }
        i += 1;
    }
    proof {
        assert(s@.take(len as int) =~= s@);
    }
    out
}

fn replace_all_exec(s: &String, from: char, to: char) -> (r: String)
    ensures
        r@ == replace_all(s@, from, to),
{
    let mut out = String::new();
    let len = s.as_str().unicode_len();
    let mut i: usize = 0;
    while i < len
        invariant
            0 <= i <= len == s@.len(),
            out@ == replace_all(s@.take(i as int), from, to),
        decreases len - i,
    {
        let c = s.as_str().get_char(i);
        if c == from {
            out.push(to);
        } else {
            out.push(c);
        }
        proof {
            assert(replace_all(s@.take(i + 1), from, to) =~= replace_all(
                s@.take(i as int),
                from,
                to,
            ).push(
                if s@[i as int] == from {
                    to
                } else {
                    s@[i as int]
                },
            ));
        }
        i += 1;
    }
    proof {
        assert(s@.take(len as int) =~= s@);
    }
    out
}

fn lower_first_exec(s: &String) -> (r: String)
    ensures
        r@ == lower_first(s@),
{
    let len = s.as_str().unicode_len();
    if len == 0 {
        return s.clone();
    }
    let mut out = String::new();
    out.push(lower_char_exec(s.as_str().get_char(0)));
    let rest = s.as_str().substring_char(1, len);
    out.append(rest);
    proof {
        assert(out@ =~= lower_first(s@));
    }
    out
}

fn pascal_field_exec(s: &String) -> (r: String)
    ensures
        r@ == pascal_field(s@),
{
    let mut out = String::new();
    let len = s.as_str().unicode_len();
    let mut i: usize = 0;
    while i < len
        invariant
            0 <= i <= len == s@.len(),
            out@ == pascal_field(s@.take(i as int)),
        decreases len - i,
    {
        let c = s.as_str().get_char(i);
        let cap = i == 0 || s.as_str().get_char(i - 1) == '_';
        if c == '_' {
        } else if cap {
            out.push(upper_char_exec(c));
        } else {
            out.push(c);
        }
        proof {
            let p = s@.take(i + 1);
            assert(p.drop_last() =~= s@.take(i as int));
            assert(p.last() == s@[i as int]);
            if s@[i as int] != '_' && !(i == 0 || s@[i as int - 1] == '_') {
                assert(p[p.len() - 2] == s@[i as int - 1]);
            }
            assert(out@ =~= pascal_field(s@.take(i + 1)));
        }
        i += 1;
    }
    proof {
        assert(s@.take(len as int) =~= s@);
    }
    out
}

fn snake_variant_exec(s: &String) -> (r: String)
    ensures
        r@ == snake_variant(s@),
{
    let mut out = String::new();
    let len = s.as_str().unicode_len();
    let mut i: usize = 0;
    while i < len
        invariant
            0 <= i <= len == s@.len(),
            out@ == snake_variant(s@.take(i as int)),
        decreases len - i,
    {
        let c = s.as_str().get_char(i);
        let up = 'A' <= c && c <= 'Z';
        if up && i > 0 {
            out.push('_');
            out.push(lower_char_exec(c));
        } else if up {
            out.push(lower_char_exec(c));
        } else {
            out.push(c);
        }
        proof {
            let p = s@.take(i + 1);
            assert(p.drop_last() =~= s@.take(i as int));
            assert(p.last() == s@[i as int]);
            assert(out@ =~= snake_variant(s@.take(i + 1)));
        }
        i += 1;
    }
    proof {
        assert(s@.take(len as int) =~= s@);
    }
    out
}

} // verus!
