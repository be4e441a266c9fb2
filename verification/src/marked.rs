//! Marked blocks in shell profiles: the text between a start marker and an
//! end marker, which the installer adds and the uninstaller removes.

use vstd::prelude::*;
use crate::text::{
    chars_of, contains, find_from, find_from_exec, lemma_find_from, lemma_find_none_iff,
    lemma_find_from_is, lemma_find_shift, lemma_newline_end, matches_at, newline_end, push_char, push_text,
    string_from_chars, contains_text,
};

verus! {

/// Removing marked ranges comes to an end on `c`: each removal takes away
/// at least one character, or there is nothing to remove.
pub open spec fn strip_terminates(c: Seq<char>, s: Seq<char>, e: Seq<char>) -> bool {
    ||| e.len() > 0
    ||| !contains(c, s)
    ||| (s.len() > 0 && s[0] == '\n')
}

/// `c` with every marked range removed: from the first start marker through
/// the first end marker at or after it and the line feeds right after that;
/// a start marker with no end marker after it cuts the text off there.
pub open spec fn strip_marked(c: Seq<char>, s: Seq<char>, e: Seq<char>) -> Seq<char>
    decreases c.len(),
{
    match find_from(c, s, 0) {
        None => c,
        Some(i) => match find_from(c, e, i) {
            None => c.take(i),
            Some(j) => {
                proof {
                    lemma_find_from(c, s, 0);
                    lemma_find_from(c, e, i);
                    lemma_newline_end(c, j + e.len());
                }
                let r = newline_end(c, j + e.len());
                if r <= i {
                    c
                } else {
                    strip_marked(c.take(i) + c.skip(r), s, e)
                }
            },
        },
    }
}

/// One removal step: where the range that starts at the first start marker ends.
proof fn lemma_step(c: Seq<char>, s: Seq<char>, e: Seq<char>, i: int, j: int)
    requires
        strip_terminates(c, s, e),
        find_from(c, s, 0) == Some(i),
        find_from(c, e, i) == Some(j),
    ensures
        i <= j,
        j + e.len() <= newline_end(c, j + e.len()) <= c.len(),
        i < newline_end(c, j + e.len()),
        strip_terminates(c.take(i) + c.skip(newline_end(c, j + e.len())), s, e),
{
    lemma_find_from(c, s, 0);
    lemma_find_from(c, e, i);
    lemma_newline_end(c, j + e.len());
    lemma_find_none_iff(c, s);
    if e.len() == 0 {
        assert(matches_at(c, e, i)) by {
            assert(c.subrange(i, i) =~= e);
        }
        assert(j == i);
        assert(c.subrange(i, i + s.len())[0] == s[0]);
    }
}

/// Text without any start marker is left as it is.
pub proof fn lemma_strip_unmarked(c: Seq<char>, s: Seq<char>, e: Seq<char>)
    requires
        !contains(c, s),
    ensures
        strip_marked(c, s, e) == c,
{
    lemma_find_none_iff(c, s);
}

/// After removal no start marker is left in the text.
pub proof fn lemma_strip_clean(c: Seq<char>, s: Seq<char>, e: Seq<char>)
    requires
        strip_terminates(c, s, e),
        s.len() > 0,
    ensures
        !contains(strip_marked(c, s, e), s),
    decreases c.len(),
{
    lemma_find_from(c, s, 0);
    lemma_find_none_iff(c, s);
    if let Some(i) = find_from(c, s, 0) {
        lemma_find_from(c, e, i);
        match find_from(c, e, i) {
            None => {
                let t = c.take(i);
                if contains(t, s) {
                    let k = choose|k: int| matches_at(t, s, k);
                    assert(t.subrange(k, k + s.len()) =~= c.subrange(k, k + s.len()));
                    assert(matches_at(c, s, k));
                }
            },
            Some(j) => {
                lemma_step(c, s, e, i, j);
                let r = newline_end(c, j + e.len());
                lemma_strip_clean(c.take(i) + c.skip(r), s, e);
            },
        }
    }
}

/// Removing twice removes no more than removing once.
pub proof fn lemma_strip_idempotent(c: Seq<char>, s: Seq<char>, e: Seq<char>)
    requires
        strip_terminates(c, s, e),
    ensures
        strip_terminates(strip_marked(c, s, e), s, e),
        strip_marked(strip_marked(c, s, e), s, e) == strip_marked(c, s, e),
    decreases c.len(),
{
    if s.len() > 0 {
        lemma_strip_clean(c, s, e);
        lemma_strip_unmarked(strip_marked(c, s, e), s, e);
    } else {
        lemma_strip_empty_start(c, s, e);
        let empty = Seq::<char>::empty();
        assert(matches_at(empty, s, 0)) by {
            assert(empty.subrange(0, 0) =~= s);
        }
        lemma_find_from(empty, s, 0);
        assert(find_from(empty, s, 0) == Some(0int));
        lemma_find_from(empty, e, 0);
        assert(empty.take(0) =~= empty);
    }
}

/// With an empty start marker every text is cut down to nothing.
proof fn lemma_strip_empty_start(c: Seq<char>, s: Seq<char>, e: Seq<char>)
    requires
        strip_terminates(c, s, e),
        s.len() == 0,
    ensures
        strip_marked(c, s, e) == Seq::<char>::empty(),
        e.len() > 0,
    decreases c.len(),
{
    assert(matches_at(c, s, 0)) by {
        assert(c.subrange(0, 0) =~= s);
    }
    lemma_find_from(c, s, 0);
    assert(find_from(c, s, 0) == Some(0int));
    lemma_find_from(c, e, 0);
    match find_from(c, e, 0) {
        None => {
            assert(c.take(0) =~= Seq::<char>::empty());
        },
        Some(j) => {
            lemma_step(c, s, e, 0, j);
            let r = newline_end(c, j + e.len());
            lemma_strip_empty_start(c.take(0) + c.skip(r), s, e);
        },
    }
}

/// Executable removal of marked ranges from a character vector.
fn strip_marked_chars(c: Vec<char>, s: &Vec<char>, e: &Vec<char>) -> (r: Vec<char>)
    requires
        strip_terminates(c@, s@, e@),
    ensures
        r@ == strip_marked(c@, s@, e@),
{
    let mut cur = c;
    loop
        invariant
            strip_terminates(cur@, s@, e@),
            strip_marked(cur@, s@, e@) == strip_marked(c@, s@, e@),
        decreases cur.len(),
    {
        let ghost before = cur@;
        let i = match find_from_exec(&cur, s, 0) {
            None => {
                return cur;
            },
            Some(i) => i,
        };
        proof {
            lemma_find_from(cur@, s@, 0);
        }
        match find_from_exec(&cur, e, i) {
            None => {
                cur.truncate(i);
                return cur;
            },
            Some(j) => {
                proof {
                    lemma_step(cur@, s@, e@, i as int, j as int);
                }
                let mut r = j + e.len();
                while r < cur.len() && cur[r] == '\n'
                    invariant
                        cur@ == before,
                        j + e.len() <= r <= cur.len(),
                        newline_end(cur@, r as int) == newline_end(cur@, (j + e.len()) as int),
                    decreases cur.len() - r,
                {
                    r = r + 1;
                }
                let mut next: Vec<char> = Vec::new();
                let mut t: usize = 0;
                while t < i
                    invariant
                        cur@ == before,
                        i < r <= cur.len(),
                        t <= i,
                        next@ == cur@.take(t as int),
                    decreases i - t,
                {
                    next.push(cur[t]);
                    t = t + 1;
                    assert(next@ =~= cur@.take(t as int));
                }
                let mut t: usize = r;
                while t < cur.len()
                    invariant
                        cur@ == before,
                        i < r <= t <= cur.len(),
                        next@ == cur@.take(i as int) + cur@.subrange(r as int, t as int),
                    decreases cur.len() - t,
                {
                    next.push(cur[t]);
                    t = t + 1;
                    assert(next@ =~= cur@.take(i as int) + cur@.subrange(r as int, t as int));
                }
                assert(cur@.subrange(r as int, cur.len() as int) =~= cur@.skip(r as int));
                cur = next;
            },
        }
    }
}

/// Removes every marked range from `content`: from each start marker through
/// the next end marker and the line feeds that follow it. A start marker that
/// no end marker follows cuts the content off where it begins.
pub fn remove_marked_ranges(content: &mut String, marker_start: &str, marker_end: &str)
    requires
        strip_terminates(old(content)@, marker_start@, marker_end@),
    ensures
        final(content)@ == strip_marked(old(content)@, marker_start@, marker_end@),
{
    let c = chars_of(content.as_str());
    let s = chars_of(marker_start);
    let e = chars_of(marker_end);
    let r = strip_marked_chars(c, &s, &e);
    *content = string_from_chars(&r);
}

/// No character of `s` is a line feed.
pub open spec fn no_line_feed(s: Seq<char>) -> bool {
    forall|k: int| 0 <= k < s.len() ==> s[k] != '\n'
}

/// `b` is a block that the markers delimit: it opens with the start marker,
/// and the first end marker in it is followed by nothing but line feeds.
pub open spec fn is_marked_block(b: Seq<char>, s: Seq<char>, e: Seq<char>) -> bool {
    &&& s.len() > 0
    &&& e.len() > 0
    &&& no_line_feed(s)
    &&& matches_at(b, s, 0)
    &&& match find_from(b, e, 0) {
        Some(p) => newline_end(b, p + e.len()) == b.len(),
        None => false,
    }
}

/// `r` ending in a line feed, unless it is empty or already ends in one.
pub open spec fn with_line_end(r: Seq<char>) -> Seq<char> {
    if r.len() > 0 && r.last() != '\n' {
        r.push('\n')
    } else {
        r
    }
}

/// The text after the block is put in place of the old marked ranges.
pub open spec fn upserted(c: Seq<char>, s: Seq<char>, e: Seq<char>, b: Seq<char>) -> Seq<char> {
    with_line_end(strip_marked(c, s, e)) + b
}

/// Replaces the marked ranges of `content` by `block`, which goes at the end,
/// on a line of its own.
pub fn upsert_marked_text(content: &mut String, marker_start: &str, marker_end: &str, block: &str)
    requires
        strip_terminates(old(content)@, marker_start@, marker_end@),
    ensures
        final(content)@ == upserted(old(content)@, marker_start@, marker_end@, block@),
{
    remove_marked_ranges(content, marker_start, marker_end);
    let v = chars_of(content.as_str());
    if v.len() > 0 && v[v.len() - 1] != '\n' {
        push_char(content, '\n');
    }
    push_text(content, block);
}

/// Whether removing marked ranges from `content` comes to an end.
pub fn removal_ends(content: &str, marker_start: &str, marker_end: &str) -> (r: bool)
    ensures
        r == strip_terminates(content@, marker_start@, marker_end@),
{
    let s = chars_of(marker_start);
    let e = chars_of(marker_end);
    e.len() > 0 || !contains_text(content, marker_start) || (s.len() > 0 && s[0] == '\n')
}

/// Whether `content` holds both markers.
pub fn content_has_marker(content: &str, marker_start: &str, marker_end: &str) -> (r: bool)
    ensures
        r == (contains(content@, marker_start@) && contains(content@, marker_end@)),
{
    contains_text(content, marker_start) && contains_text(content, marker_end)
}

proof fn lemma_newline_shift(a: Seq<char>, b: Seq<char>, k: int)
    requires
        0 <= k,
    ensures
        newline_end(a + b, a.len() + k) == a.len() + newline_end(b, k),
    decreases b.len() - k,
{
    if k < b.len() && b[k] == '\n' {
        lemma_newline_shift(a, b, k + 1);
    }
}

/// A line feed added at the end creates no start marker.
proof fn lemma_line_end_clean(r: Seq<char>, s: Seq<char>)
    requires
        !contains(r, s),
        no_line_feed(s),
        s.len() > 0,
    ensures
        !contains(with_line_end(r), s),
        with_line_end(r).len() == 0 || with_line_end(r).last() == '\n',
{
    let w = with_line_end(r);
    if contains(w, s) {
        let j = choose|j: int| matches_at(w, s, j);
        if j + s.len() <= r.len() {
            assert(w.subrange(j, j + s.len()) =~= r.subrange(j, j + s.len()));
            assert(matches_at(r, s, j));
        } else {
            let t = w.len() - 1 - j;
            assert(w.subrange(j, j + s.len())[t] == w[w.len() - 1]);
        }
    }
}

/// A marked block appended to text without start markers is all that
/// removal takes away.
proof fn lemma_strip_block_after(r: Seq<char>, s: Seq<char>, e: Seq<char>, b: Seq<char>)
    requires
        !contains(r, s),
        r.len() == 0 || r.last() == '\n',
        is_marked_block(b, s, e),
    ensures
        strip_marked(r + b, s, e) == r,
{
    let u = r + b;
    let n = r.len() as int;
    assert(u.subrange(n, n + s.len()) =~= b.subrange(0, s.len() as int));
    assert forall|j: int| 0 <= j < n implies !matches_at(u, s, j) by {
        if matches_at(u, s, j) {
            if j + s.len() <= n {
                assert(u.subrange(j, j + s.len()) =~= r.subrange(j, j + s.len()));
                assert(matches_at(r, s, j));
            } else {
                let t = n - 1 - j;
                assert(u.subrange(j, j + s.len())[t] == u[n - 1]);
            }
        }
    }
    lemma_find_from_is(u, s, 0, n);
    let p = find_from(b, e, 0)->0;
    lemma_find_from(b, e, 0);
    assert(b + Seq::<char>::empty() =~= b);
    lemma_find_shift(r, b, e, 0);
    lemma_newline_shift(r, b, p + e.len());
    lemma_strip_unmarked(r, s, e);
    assert(u.take(n) + u.skip(u.len() as int) =~= r);
}

/// Removal after an upsert leaves what was there before the block, ending
/// in a line feed: the uninstaller takes back what the installer added.
pub proof fn lemma_strip_after_upsert(c: Seq<char>, s: Seq<char>, e: Seq<char>, b: Seq<char>)
    requires
        strip_terminates(c, s, e),
        is_marked_block(b, s, e),
    ensures
        strip_marked(upserted(c, s, e, b), s, e) == with_line_end(strip_marked(c, s, e)),
{
    lemma_strip_clean(c, s, e);
    lemma_line_end_clean(strip_marked(c, s, e), s);
    lemma_strip_block_after(with_line_end(strip_marked(c, s, e)), s, e, b);
}

/// Upserting the same block twice gives the same text as upserting it once:
/// installing again does not add a second block.
pub proof fn lemma_upsert_idempotent(c: Seq<char>, s: Seq<char>, e: Seq<char>, b: Seq<char>)
    requires
        strip_terminates(c, s, e),
        is_marked_block(b, s, e),
    ensures
        strip_terminates(upserted(c, s, e, b), s, e),
        upserted(upserted(c, s, e, b), s, e, b) == upserted(c, s, e, b),
{
    lemma_strip_after_upsert(c, s, e, b);
    lemma_strip_clean(c, s, e);
    lemma_line_end_clean(strip_marked(c, s, e), s);
}

/// After an upsert the text holds both markers.
pub proof fn lemma_upsert_has_markers(c: Seq<char>, s: Seq<char>, e: Seq<char>, b: Seq<char>)
    requires
        strip_terminates(c, s, e),
        is_marked_block(b, s, e),
    ensures
        contains(upserted(c, s, e, b), s),
        contains(upserted(c, s, e, b), e),
{
    let w = with_line_end(strip_marked(c, s, e));
    let u = w + b;
    let p = find_from(b, e, 0)->0;
    lemma_find_from(b, e, 0);
    assert(u.subrange(w.len() as int, (w.len() + s.len()) as int) =~= b.subrange(0, s.len() as int));
    assert(matches_at(u, s, w.len() as int));
    assert(u.subrange(w.len() + p, w.len() + p + e.len()) =~= b.subrange(p, p + e.len()));
    assert(matches_at(u, e, w.len() + p));
}

} // verus!
