//! Quoting text for single-quoted shell literals.

use vstd::prelude::*;
use crate::text::{chars_of, push_char, push_chars};

verus! {

broadcast use vstd::string::group_string_axioms;

/// `s` with every `c` replaced by `r`.
pub open spec fn replace_char(s: Seq<char>, c: char, r: Seq<char>) -> Seq<char>
    decreases s.len(),
{
    if s.len() == 0 {
        s
    } else {
        (if s[0] == c {
            r
        } else {
            seq![s[0]]
        }) + replace_char(s.drop_first(), c, r)
    }
}

proof fn lemma_replace_append(a: Seq<char>, b: Seq<char>, c: char, r: Seq<char>)
    ensures
        replace_char(a + b, c, r) == replace_char(a, c, r) + replace_char(b, c, r),
    decreases a.len(),
{
    if a.len() == 0 {
        assert(a + b =~= b);
    } else {
        assert((a + b).drop_first() =~= a.drop_first() + b);
        lemma_replace_append(a.drop_first(), b, c, r);
    }
}

/// `s` with every `c` replaced by the characters of `r`.
pub fn replace_char_text(s: &str, c: char, r: &Vec<char>) -> (out: String)
    ensures
        out@ == replace_char(s@, c, r@),
{
    let v = chars_of(s);
    let mut out = String::new();
    let mut i: usize = 0;
    assert(replace_char(v@.take(0), c, r@) =~= Seq::<char>::empty());
    while i < v.len()
        invariant
            v@ == s@,
            i <= v.len(),
            out@ == replace_char(v@.take(i as int), c, r@),
        decreases v.len() - i,
    {
        if v[i] == c {
            push_chars(&mut out, r);
        } else {
            push_char(&mut out, v[i]);
        }
        proof {
            let one = seq![v@[i as int]];
            assert(v@.take(i + 1) =~= v@.take(i as int) + one);
            lemma_replace_append(v@.take(i as int), one, c, r@);
            assert(one.drop_first() =~= Seq::<char>::empty());
            assert(replace_char(one.drop_first(), c, r@) =~= Seq::<char>::empty());
            assert(replace_char(one, c, r@) =~= (if v@[i as int] == c {
                r@
            } else {
                one
            }));
        }
        i = i + 1;
    }
    assert(v@.take(v.len() as int) =~= v@);
    out
}

fn two_chars(a: char, b: char) -> (v: Vec<char>)
    ensures
        v@ == seq![a, b],
{
    let mut v = Vec::new();
    v.push(a);
    v.push(b);
    assert(v@ =~= seq![a, b]);
    v
}

/// Escapes `value` for a PowerShell single-quoted string: each `'` doubled.
pub fn ps_single_quote(value: &str) -> (r: String)
    ensures
        r@ == replace_char(value@, '\'', seq!['\'', '\'']),
{
    replace_char_text(value, '\'', &two_chars('\'', '\''))
}

/// Escapes `value` for a POSIX shell single-quoted string: each `'` becomes
/// `'\''`, which closes the quotes, adds an escaped quote and reopens them.
pub fn bash_single_quote(value: &str) -> (r: String)
    ensures
        r@ == replace_char(value@, '\'', seq!['\'', '\\', '\'', '\'']),
{
    let mut q = two_chars('\'', '\\');
    q.push('\'');
    q.push('\'');
    assert(q@ =~= seq!['\'', '\\', '\'', '\'']);
    replace_char_text(value, '\'', &q)
}

/// `path` with its backslashes turned into slashes.
pub fn posix_path(path: &str) -> (r: String)
    ensures
        r@ == replace_char(path@, '\\', seq!['/']),
{
    let mut s = Vec::new();
    s.push('/');
    assert(s@ =~= seq!['/']);
    replace_char_text(path, '\\', &s)
}

/// What a PowerShell single-quoted string with body `t` stands for: `''`
/// is one quote; a lone quote would end the string early, so there is none.
pub open spec fn ps_unquote(t: Seq<char>) -> Option<Seq<char>>
    decreases t.len(),
{
    if t.len() == 0 {
        Some(t)
    } else if t[0] == '\'' {
        if t.len() >= 2 && t[1] == '\'' {
            match ps_unquote(t.skip(2)) {
                Some(rest) => Some(seq!['\''] + rest),
                None => None,
            }
        } else {
            None
        }
    } else {
        match ps_unquote(t.drop_first()) {
            Some(rest) => Some(seq![t[0]] + rest),
            None => None,
        }
    }
}

/// What a POSIX shell word `'` + `t` + `'` stands for: inside the quotes
/// every character is itself; `'\''` outside them is one quote.
pub open spec fn sh_unquote(t: Seq<char>) -> Option<Seq<char>>
    decreases t.len(),
{
    if t.len() == 0 {
        Some(t)
    } else if t[0] == '\'' {
        if t.len() >= 4 && t[1] == '\\' && t[2] == '\'' && t[3] == '\'' {
            match sh_unquote(t.skip(4)) {
                Some(rest) => Some(seq!['\''] + rest),
                None => None,
            }
        } else {
            None
        }
    } else {
        match sh_unquote(t.drop_first()) {
            Some(rest) => Some(seq![t[0]] + rest),
            None => None,
        }
    }
}

/// PowerShell reads the escaped text back as exactly `v`.
pub proof fn lemma_ps_quote_roundtrip(v: Seq<char>)
    ensures
        ps_unquote(replace_char(v, '\'', seq!['\'', '\''])) == Some(v),
    decreases v.len(),
{
    let q = seq!['\'', '\''];
    if v.len() > 0 {
        lemma_ps_quote_roundtrip(v.drop_first());
        let rest = replace_char(v.drop_first(), '\'', q);
        if v[0] == '\'' {
            assert((q + rest).skip(2) =~= rest);
        } else {
            assert((seq![v[0]] + rest).drop_first() =~= rest);
        }
        assert(v =~= seq![v[0]] + v.drop_first());
    } else {
        assert(v =~= Seq::<char>::empty());
    }
}

/// The shell reads the escaped text, put between single quotes, back as
/// exactly `v`.
pub proof fn lemma_sh_quote_roundtrip(v: Seq<char>)
    ensures
        sh_unquote(replace_char(v, '\'', seq!['\'', '\\', '\'', '\''])) == Some(v),
    decreases v.len(),
{
    let q = seq!['\'', '\\', '\'', '\''];
    if v.len() > 0 {
        lemma_sh_quote_roundtrip(v.drop_first());
        let rest = replace_char(v.drop_first(), '\'', q);
        if v[0] == '\'' {
            assert((q + rest).skip(4) =~= rest);
        } else {
            assert((seq![v[0]] + rest).drop_first() =~= rest);
        }
        assert(v =~= seq![v[0]] + v.drop_first());
    } else {
        assert(v =~= Seq::<char>::empty());
    }
}

} // verus!
