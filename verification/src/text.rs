//! Character-level text helpers shared by the rest of the library.

use vstd::prelude::*;

verus! {

broadcast use vstd::string::group_string_axioms;

/// `n` occurs in `h` starting at index `i`.
pub open spec fn matches_at(h: Seq<char>, n: Seq<char>, i: int) -> bool {
    0 <= i && i + n.len() <= h.len() && h.subrange(i, i + n.len()) == n
}

/// `n` occurs somewhere in `h` (the empty text occurs everywhere).
pub open spec fn contains(h: Seq<char>, n: Seq<char>) -> bool {
    exists|i: int| matches_at(h, n, i)
}

/// The first index at or after `k` where `n` occurs in `h`.
pub open spec fn find_from(h: Seq<char>, n: Seq<char>, k: int) -> Option<int>
    decreases h.len() + 1 - k,
{
    if k < 0 || k + n.len() > h.len() {
        None
    } else if matches_at(h, n, k) {
        Some(k)
    } else {
        find_from(h, n, k + 1)
    }
}

/// What `find_from` returns, as a statement over all indices.
pub proof fn lemma_find_from(h: Seq<char>, n: Seq<char>, k: int)
    requires
        0 <= k,
    ensures
        match find_from(h, n, k) {
            Some(i) => k <= i && i + n.len() <= h.len() && matches_at(h, n, i) && forall|j: int|
                k <= j < i ==> !matches_at(h, n, j),
            None => forall|j: int| k <= j ==> !matches_at(h, n, j),
        },
    decreases h.len() + 1 - k,
{
    if k + n.len() > h.len() {
    } else if matches_at(h, n, k) {
    } else {
        lemma_find_from(h, n, k + 1);
    }
}

/// An occurrence with none before it (from `k` on) is what `find_from` finds.
pub proof fn lemma_find_from_is(h: Seq<char>, n: Seq<char>, k: int, i: int)
    requires
        0 <= k <= i,
        matches_at(h, n, i),
        forall|j: int| k <= j < i ==> !matches_at(h, n, j),
    ensures
        find_from(h, n, k) == Some(i),
    decreases i - k,
{
    if k < i {
        lemma_find_from_is(h, n, k + 1, i);
    }
}

/// `find_from(h, n, 0)` finds nothing exactly when `n` does not occur.
pub proof fn lemma_find_none_iff(h: Seq<char>, n: Seq<char>)
    ensures
        find_from(h, n, 0) is None <==> !contains(h, n),
{
    lemma_find_from(h, n, 0);
    if let Some(i) = find_from(h, n, 0) {
        assert(matches_at(h, n, i));
    }
}

/// Searching `a + b` from inside `b` finds what searching `b` finds, shifted.
pub proof fn lemma_find_shift(a: Seq<char>, b: Seq<char>, n: Seq<char>, k: int)
    requires
        0 <= k,
    ensures
        find_from(a + b, n, a.len() + k) == match find_from(b, n, k) {
            Some(i) => Some(i + a.len()),
            None => None::<int>,
        },
    decreases b.len() + 1 - k,
{
    if k + n.len() <= b.len() {
        assert((a + b).subrange(a.len() + k, a.len() + k + n.len()) =~= b.subrange(k, k + n.len()));
        if !matches_at(b, n, k) {
            lemma_find_shift(a, b, n, k + 1);
        }
    }
}

/// The index just past the run of line feeds that starts at `k`.
pub open spec fn newline_end(c: Seq<char>, k: int) -> int
    decreases c.len() - k,
{
    if 0 <= k < c.len() && c[k] == '\n' {
        newline_end(c, k + 1)
    } else {
        k
    }
}

pub proof fn lemma_newline_end(c: Seq<char>, k: int)
    requires
        0 <= k <= c.len(),
    ensures
        k <= newline_end(c, k) <= c.len(),
        forall|j: int| k <= j < newline_end(c, k) ==> c[j] == '\n',
        newline_end(c, k) < c.len() ==> c[newline_end(c, k)] != '\n',
    decreases c.len() - k,
{
    if k < c.len() && c[k] == '\n' {
        lemma_newline_end(c, k + 1);
    }
}

/// `String::push`: appends the character `c` to `s`, as std documents it.
#[verifier::external_body]
pub(crate) fn push_char(s: &mut String, c: char)
    ensures
        final(s)@ == old(s)@.push(c),
{
    s.push(c);
}

/// The characters of `s`, in order.
pub fn chars_of(s: &str) -> (v: Vec<char>)
    ensures
        v@ == s@,
{
    let mut v: Vec<char> = Vec::new();
    for c in it: s.chars()
        invariant
            it.seq() == s@,
            v@ == it.seq().take(it.index() as int),
    {
        v.push(c);
    }
    v
}

/// The string made of `v[a..b]`.
pub fn string_from_range(v: &Vec<char>, a: usize, b: usize) -> (s: String)
    requires
        a <= b <= v.len(),
    ensures
        s@ == v@.subrange(a as int, b as int),
{
    let mut s = String::new();
    let mut i = a;
    while i < b
        invariant
            a <= i <= b <= v.len(),
            s@ == v@.subrange(a as int, i as int),
        decreases b - i,
    {
        push_char(&mut s, v[i]);
        i = i + 1;
        assert(s@ =~= v@.subrange(a as int, i as int));
    }
    s
}

/// Appends all of `v` to `s`.
pub fn push_chars(s: &mut String, v: &Vec<char>)
    ensures
        final(s)@ == old(s)@ + v@,
{
    let mut i: usize = 0;
    while i < v.len()
        invariant
            i <= v.len(),
            s@ == old(s)@ + v@.take(i as int),
        decreases v.len() - i,
    {
        push_char(s, v[i]);
        i = i + 1;
        assert(v@.take(i as int) =~= v@.take(i - 1).push(v@[i - 1]));
    }
    assert(v@.take(v.len() as int) =~= v@);
}

/// The string made of the characters of `v`.
pub fn string_from_chars(v: &Vec<char>) -> (s: String)
    ensures
        s@ == v@,
{
    let mut s = String::new();
    push_chars(&mut s, v);
    assert(s@ =~= v@);
    s
}

/// Appends the text of `t` to `s`.
pub fn push_text(s: &mut String, t: &str)
    ensures
        final(s)@ == old(s)@ + t@,
{
    s.append(t);
}

/// Whether `a` and `b` hold the same text.
pub fn same_text(a: &str, b: &str) -> (r: bool)
    ensures
        r == (a@ == b@),
{
    let x = chars_of(a);
    let y = chars_of(b);
    if x.len() != y.len() {
        return false;
    }
    let mut i: usize = 0;
    while i < x.len()
        invariant
            x@ == a@,
            y@ == b@,
            x.len() == y.len(),
            i <= x.len(),
            forall|j: int| 0 <= j < i ==> x@[j] == y@[j],
        decreases x.len() - i,
    {
        if x[i] != y[i] {
            return false;
        }
        i = i + 1;
    }
    assert(x@ =~= y@);
    true
}

/// Whether `n` occurs in `h` at index `i`.
pub fn matches_at_exec(h: &Vec<char>, n: &Vec<char>, i: usize) -> (r: bool)
    ensures
        r == matches_at(h@, n@, i as int),
{
    if i > h.len() || n.len() > h.len() - i {
        return false;
    }
    let mut j: usize = 0;
    while j < n.len()
        invariant
            i + n.len() <= h.len(),
            j <= n.len(),
            forall|t: int| 0 <= t < j ==> h@[i + t] == n@[t],
        decreases n.len() - j,
    {
        if h[i + j] != n[j] {
            assert(h@.subrange(i as int, i + n.len())[j as int] != n@[j as int]);
            return false;
        }
        j = j + 1;
    }
    assert(h@.subrange(i as int, i + n.len()) =~= n@);
    true
}

/// The first index at or after `k` where `n` occurs in `h`.
pub fn find_from_exec(h: &Vec<char>, n: &Vec<char>, k: usize) -> (r: Option<usize>)
    ensures
        match r {
            Some(i) => find_from(h@, n@, k as int) == Some(i as int),
            None => find_from(h@, n@, k as int) is None,
        },
{
    let mut i = k;
    while i <= h.len() && n.len() <= h.len() - i
        invariant
            k <= i,
            find_from(h@, n@, k as int) == find_from(h@, n@, i as int),
        decreases h.len() + 1 - i,
    {
        if matches_at_exec(h, n, i) {
            return Some(i);
        }
        if i == h.len() {
            assert(n@ =~= h@.subrange(i as int, i as int));
            return None;
        }
        i = i + 1;
    }
    None
}

/// The first index at or after `k` where `v` holds `c`.
pub fn find_char(v: &Vec<char>, c: char, k: usize) -> (r: Option<usize>)
    ensures
        match r {
            Some(i) => find_from(v@, seq![c], k as int) == Some(i as int) && k <= i < v.len()
                && v@[i as int] == c,
            None => find_from(v@, seq![c], k as int) is None,
        },
{
    let mut needle: Vec<char> = Vec::new();
    needle.push(c);
    assert(needle@ =~= seq![c]);
    let r = find_from_exec(v, &needle, k);
    proof {
        lemma_find_from(v@, seq![c], k as int);
        if let Some(i) = r {
            assert(v@.subrange(i as int, i + 1)[0] == c);
        }
    }
    r
}

/// The middle of `s` when it starts with `head` and ends with `tail`, the
/// two not overlapping.
pub open spec fn strip_affixes(s: Seq<char>, head: Seq<char>, tail: Seq<char>) -> Option<Seq<char>> {
    if s.len() >= head.len() + tail.len() && s.take(head.len() as int) == head && s.skip(
        s.len() - tail.len(),
    ) == tail {
        Some(s.subrange(head.len() as int, s.len() - tail.len()))
    } else {
        None
    }
}

/// What is put between a head and a tail is what stripping them leaves.
pub proof fn lemma_strip_affixes(head: Seq<char>, m: Seq<char>, tail: Seq<char>)
    ensures
        strip_affixes(head + m + tail, head, tail) == Some(m),
{
    let s = head + m + tail;
    assert(s.take(head.len() as int) =~= head);
    assert(s.skip(s.len() - tail.len()) =~= tail);
    assert(s.subrange(head.len() as int, s.len() - tail.len()) =~= m);
}

/// Stripping succeeds only on a text made of the head, the middle it gives,
/// and the tail, in that order; and on every such text it gives that middle.
pub proof fn lemma_strip_affixes_exact(s: Seq<char>, head: Seq<char>, tail: Seq<char>)
    ensures
        strip_affixes(s, head, tail) matches Some(m) ==> head + m + tail == s,
        forall|m: Seq<char>| head + m + tail == s ==> strip_affixes(s, head, tail) == Some(m),
{
    if let Some(m) = strip_affixes(s, head, tail) {
        assert(s =~= s.take(head.len() as int) + s.subrange(head.len() as int, s.len() - tail.len())
            + s.skip(s.len() - tail.len()));
    }
    assert forall|m: Seq<char>| head + m + tail == s implies strip_affixes(s, head, tail) == Some(
        m,
    ) by {
        lemma_strip_affixes(head, m, tail);
    }
}

/// The middle of `s` between `head` and `tail`, if `s` has them.
pub fn strip_affixes_text(s: &str, head: &str, tail: &str) -> (r: Option<String>)
    ensures
        opt_text(r) == strip_affixes(s@, head@, tail@),
{
    let v = chars_of(s);
    let h = chars_of(head);
    let t = chars_of(tail);
    if v.len() < h.len() || v.len() - h.len() < t.len() {
        return None;
    }
    let mut i: usize = 0;
    while i < h.len()
        invariant
            v@ == s@,
            h@ == head@,
            h.len() <= v.len(),
            i <= h.len(),
            forall|k: int| 0 <= k < i ==> v@[k] == h@[k],
        decreases h.len() - i,
    {
        if v[i] != h[i] {
            assert(v@.take(h.len() as int)[i as int] != h@[i as int]);
            return None;
        }
        i = i + 1;
    }
    assert(v@.take(h.len() as int) =~= h@);
    let start = v.len() - t.len();
    let mut j: usize = 0;
    while j < t.len()
        invariant
            v@ == s@,
            t@ == tail@,
            start == v.len() - t.len(),
            j <= t.len(),
            forall|k: int| 0 <= k < j ==> v@[start + k] == t@[k],
        decreases t.len() - j,
    {
        if v[start + j] != t[j] {
            assert(v@.skip(start as int)[j as int] != t@[j as int]);
            return None;
        }
        j = j + 1;
    }
    assert(v@.skip(start as int) =~= t@);
    Some(string_from_range(&v, h.len(), start))
}

/// The text of an optional string.
pub open spec fn opt_text(o: Option<String>) -> Option<Seq<char>> {
    match o {
        Some(s) => Some(s@),
        None => None,
    }
}

/// Whether `n` occurs in `h`.
pub fn contains_text(h: &str, n: &str) -> (r: bool)
    ensures
        r == contains(h@, n@),
{
    let hv = chars_of(h);
    let nv = chars_of(n);
    let f = find_from_exec(&hv, &nv, 0);
    proof {
        lemma_find_none_iff(h@, n@);
    }
    f.is_some()
}

} // verus!
