//! Indentation of multi-line rendered text.

use vstd::prelude::*;

verus! {

/// Relies on `String::push`: appends exactly the given character.
pub assume_specification[ String::push ](s: &mut String, c: char)
    ensures
        final(s)@ == old(s)@.push(c),
;

/// A run of `n` spaces.
pub open spec fn sp(n: nat) -> Seq<char> {
    Seq::new(n, |i: int| ' ')
}

/// `s` with `n` spaces inserted after every newline.
pub open spec fn indent_tail(s: Seq<char>, n: nat) -> Seq<char>
    decreases s.len(),
{
    if s.len() == 0 {
        Seq::empty()
    } else {
        (if s.first() == '\n' {
            seq!['\n'] + sp(n)
        } else {
            seq![s.first()]
        }) + indent_tail(s.drop_first(), n)
    }
}

/// `s` with every line prefixed by `n` spaces.
pub open spec fn indent_text(s: Seq<char>, n: nat) -> Seq<char> {
    sp(n) + indent_tail(s, n)
}

proof fn lemma_indent_tail_push(s: Seq<char>, c: char, n: nat)
    ensures
        indent_tail(s.push(c), n) == indent_tail(s, n) + (if c == '\n' {
            seq!['\n'] + sp(n)
        } else {
            seq![c]
        }),
    decreases s.len(),
{
    let step: Seq<char> = if c == '\n' {
        seq!['\n'] + sp(n)
    } else {
        seq![c]
    };
    if s.len() == 0 {
        assert(s.push(c).len() == 1);
        assert(s.push(c).first() == c);
        assert(s.push(c).drop_first() =~= Seq::<char>::empty());
        assert(indent_tail(s.push(c), n) == step + indent_tail(Seq::<char>::empty(), n));
        assert(indent_tail(s.push(c), n) =~= indent_tail(s, n) + step);
    } else {
        assert(s.push(c).first() == s.first());
        assert(s.push(c).drop_first() =~= s.drop_first().push(c));
        lemma_indent_tail_push(s.drop_first(), c, n);
        assert(indent_tail(s.push(c), n) =~= indent_tail(s, n) + step);
    }
}

/// Appends `n` spaces to `out`.
pub fn push_spaces(out: &mut String, n: usize)
    ensures
        final(out)@ == old(out)@ + sp(n as nat),
{
    let mut k: usize = 0;
    while k < n
        invariant
            0 <= k <= n,
            out@ == old(out)@ + sp(k as nat),
        decreases n - k,
    {
        out.push(' ');
        proof {
            assert(old(out)@ + sp((k + 1) as nat) =~= (old(out)@ + sp(k as nat)).push(' '));
        }
        k += 1;
    }
}

/// Renders a value and indents every line of the result.
pub trait ToStringWithIndent {
    /// The rendered text with every line prefixed by `indent` spaces.
    fn to_string_with_indent(&self, indent: usize) -> (r: String)
        ensures
            r@ == indent_text(self.text_model(), indent as nat),
    ;

    /// The unindented text that this value renders to.
    spec fn text_model(&self) -> Seq<char>;
}

impl ToStringWithIndent for String {
    open spec fn text_model(&self) -> Seq<char> {
        self@
    }

    fn to_string_with_indent(&self, indent: usize) -> (r: String) {
        let mut out = String::new();
        push_spaces(&mut out, indent);
        let len = self.as_str().unicode_len();
        let mut i: usize = 0;
        while i < len
            invariant
                0 <= i <= len == self@.len(),
                out@ == sp(indent as nat) + indent_tail(self@.take(i as int), indent as nat),
            decreases len - i,
        {
            let ghost prefix = self@.take(i as int);
            let c = self.as_str().get_char(i);
            if c == '\n' {
                out.push('\n');
                push_spaces(&mut out, indent);
            } else {
                out.push(c);
            }
            proof {
                lemma_indent_tail_push(prefix, c, indent as nat);
                assert(self@.take(i + 1) =~= prefix.push(c));
                if c == '\n' {
                    assert(out@ =~= sp(indent as nat) + indent_tail(
                        self@.take(i + 1),
                        indent as nat,
                    ));
                } else {
                    assert(out@ =~= sp(indent as nat) + indent_tail(
                        self@.take(i + 1),
                        indent as nat,
                    ));
                }
            }
            i += 1;
        }
        proof {
            assert(self@.take(len as int) =~= self@);
        }
        out
    }
}

} // verus!
