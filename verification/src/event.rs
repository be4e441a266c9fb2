//! Recognising error events among the lines that the shell hooks append to
//! the event log: `timestamp|shell|exit code|command`.

use vstd::prelude::*;
use crate::report::{decimal_text, digit_char};
use crate::text::{
    chars_of, find_char, find_from, lemma_find_from, lemma_find_from_is, matches_at, push_text,
    string_from_range,
};

verus! {

broadcast use vstd::string::group_string_axioms;

/// Unicode white space, the characters that `char::is_whitespace` accepts.
pub open spec fn is_space(c: char) -> bool {
    ||| ('\u{9}' <= c && c <= '\u{d}')
    ||| c == ' '
    ||| c == '\u{85}'
    ||| c == '\u{a0}'
    ||| c == '\u{1680}'
    ||| ('\u{2000}' <= c && c <= '\u{200a}')
    ||| c == '\u{2028}'
    ||| c == '\u{2029}'
    ||| c == '\u{202f}'
    ||| c == '\u{205f}'
    ||| c == '\u{3000}'
}

/// `s` without its leading white space.
pub open spec fn trim_start(s: Seq<char>) -> Seq<char>
    decreases s.len(),
{
    if s.len() > 0 && is_space(s[0]) {
        trim_start(s.drop_first())
    } else {
        s
    }
}

/// `s` without its trailing white space.
pub open spec fn trim_end(s: Seq<char>) -> Seq<char>
    decreases s.len(),
{
    if s.len() > 0 && is_space(s.last()) {
        trim_end(s.drop_last())
    } else {
        s
    }
}

/// `s` without white space at either end.
pub open spec fn trim(s: Seq<char>) -> Seq<char> {
    trim_end(trim_start(s))
}

/// Whether `c` is white space.
pub fn is_space_char(c: char) -> (r: bool)
    ensures
        r == is_space(c),
{
    ('\u{9}' <= c && c <= '\u{d}') || c == ' ' || c == '\u{85}' || c == '\u{a0}' || c == '\u{1680}'
        || ('\u{2000}' <= c && c <= '\u{200a}') || c == '\u{2028}' || c == '\u{2029}' || c
        == '\u{202f}' || c == '\u{205f}' || c == '\u{3000}'
}

/// Where the trimmed text lies within `v`.
fn trim_bounds(v: &Vec<char>) -> (r: (usize, usize))
    ensures
        r.0 <= r.1 <= v.len(),
        v@.subrange(r.0 as int, r.1 as int) == trim(v@),
{
    let mut a: usize = 0;
    assert(v@.skip(0) =~= v@);
    while a < v.len() && is_space_char(v[a])
        invariant
            a <= v.len(),
            trim_start(v@) == trim_start(v@.skip(a as int)),
        decreases v.len() - a,
    {
        assert(v@.skip(a as int).drop_first() =~= v@.skip(a + 1));
        a = a + 1;
    }
    assert(trim_start(v@.skip(a as int)) == v@.skip(a as int));
    assert(v@.skip(a as int) =~= v@.subrange(a as int, v.len() as int));
    let mut b: usize = v.len();
    while b > a && is_space_char(v[b - 1])
        invariant
            a <= b <= v.len(),
            trim(v@) == trim_end(v@.subrange(a as int, b as int)),
        decreases b - a,
    {
        assert(v@.subrange(a as int, b as int).drop_last() =~= v@.subrange(a as int, b - 1));
        b = b - 1;
    }
    (a, b)
}

/// `text` without white space at either end.
pub fn trim_text(text: &str) -> (r: String)
    ensures
        r@ == trim(text@),
{
    let v = chars_of(text);
    let (a, b) = trim_bounds(&v);
    string_from_range(&v, a, b)
}

/// The third `|`-separated field of `t`, as `splitn(4, '|')` yields it.
pub open spec fn third_field(t: Seq<char>) -> Option<Seq<char>> {
    match find_from(t, seq!['|'], 0) {
        None => None,
        Some(a) => match find_from(t, seq!['|'], a + 1) {
            None => None,
            Some(b) => match find_from(t, seq!['|'], b + 1) {
                Some(c) => Some(t.subrange(b + 1, c)),
                None => Some(t.skip(b + 1)),
            },
        },
    }
}

/// An ASCII decimal digit.
pub open spec fn is_digit(c: char) -> bool {
    '0' <= c && c <= '9'
}

pub open spec fn all_digits(d: Seq<char>) -> bool {
    forall|i: int| 0 <= i < d.len() ==> is_digit(d[i])
}

/// The number that the decimal digits `d` write.
pub open spec fn decimal_value(d: Seq<char>) -> int
    decreases d.len(),
{
    if d.len() == 0 {
        0
    } else {
        decimal_value(d.drop_last()) * 10 + (d.last() as int - '0' as int)
    }
}

/// What `str::parse::<i32>` gives: an optional sign, then one or more
/// decimal digits, within the range of `i32`.
pub open spec fn parse_i32(s: Seq<char>) -> Option<i32> {
    let signed = s.len() > 0 && (s[0] == '+' || s[0] == '-');
    let d = if signed {
        s.skip(1)
    } else {
        s
    };
    let m = decimal_value(d);
    let v = if signed && s[0] == '-' {
        -m
    } else {
        m
    };
    if d.len() == 0 || !all_digits(d) || v < i32::MIN || v > i32::MAX {
        None
    } else {
        Some(v as i32)
    }
}

proof fn lemma_decimal_prefix(d: Seq<char>, j: int)
    requires
        all_digits(d),
        0 <= j <= d.len(),
    ensures
        0 <= decimal_value(d.take(j)) <= decimal_value(d),
    decreases d.len(),
{
    if j < d.len() {
        assert(all_digits(d.drop_last()));
        lemma_decimal_prefix(d.drop_last(), j);
        assert(d.drop_last().take(j) =~= d.take(j));
        lemma_decimal_prefix(d.drop_last(), d.len() - 1);
        assert(d.drop_last().take(d.len() - 1) =~= d.drop_last());
    } else {
        assert(d.take(j) =~= d);
        if d.len() > 0 {
            assert(all_digits(d.drop_last()));
            lemma_decimal_prefix(d.drop_last(), d.len() - 1);
            assert(d.drop_last().take(d.len() - 1) =~= d.drop_last());
        }
    }
}

/// `str::parse::<i32>` on the characters `s`.
pub fn parse_i32_chars(s: &Vec<char>) -> (r: Option<i32>)
    ensures
        r == parse_i32(s@),
{
    let signed = s.len() > 0 && (s[0] == '+' || s[0] == '-');
    let k: usize = if signed {
        1
    } else {
        0
    };
    let ghost d = if signed {
        s@.skip(1)
    } else {
        s@
    };
    assert(d =~= s@.subrange(k as int, s.len() as int));
    if k == s.len() {
        return None;
    }
    let mut acc: u64 = 0;
    let mut i: usize = k;
    while i < s.len()
        invariant
            k <= i <= s.len(),
            signed == (s@.len() > 0 && (s@[0] == '+' || s@[0] == '-')),
            k == (if signed { 1int } else { 0int }),
            d == (if signed { s@.skip(1) } else { s@ }),
            d == s@.subrange(k as int, s.len() as int),
            d.take(i - k) == s@.subrange(k as int, i as int),
            acc == decimal_value(s@.subrange(k as int, i as int)),
            acc <= 2147483648,
            all_digits(s@.subrange(k as int, i as int)),
        decreases s.len() - i,
    {
        let c = s[i];
        assert(d[i - k] == c);
        if !('0' <= c && c <= '9') {
            assert(!is_digit(d[i - k]));
            return None;
        }
        let digit = (c as u32 - '0' as u32) as u64;
        assert(digit == c as int - '0' as int);
        let next = acc * 10 + digit;
        assert(s@.subrange(k as int, i + 1).drop_last() =~= s@.subrange(k as int, i as int));
        if next > 2147483648 {
            proof {
                if all_digits(d) {
                    lemma_decimal_prefix(d, i + 1 - k);
                    assert(d.take(i + 1 - k) =~= s@.subrange(k as int, i + 1));
                    assert(decimal_value(d) > 2147483648);
                }
            }
            return None;
        }
        acc = next;
        i = i + 1;
        assert(d.take(i - k) =~= s@.subrange(k as int, i as int));
    }
    assert(d =~= s@.subrange(k as int, i as int));
    let neg = signed && s[0] == '-';
    if neg {
        Some((0 - (acc as i64)) as i32)
    } else if acc > 2147483647 {
        None
    } else {
        Some(acc as i32)
    }
}

/// The exit code field of the event `t` is a number other than zero.
pub open spec fn status_is_failure(t: Seq<char>) -> bool {
    match third_field(t) {
        Some(f) => match parse_i32(trim(f)) {
            Some(n) => n != 0,
            None => false,
        },
        None => false,
    }
}

/// Whether the exit code field of the event `t` is a number other than zero.
pub fn status_field_is_failure(t: &Vec<char>) -> (r: bool)
    ensures
        r == status_is_failure(t@),
{
    let a = match find_char(t, '|', 0) {
        None => return false,
        Some(a) => a,
    };
    proof {
        lemma_find_from(t@, seq!['|'], 0);
    }
    let b = match find_char(t, '|', a + 1) {
        None => return false,
        Some(b) => b,
    };
    proof {
        lemma_find_from(t@, seq!['|'], a + 1);
    }
    let end = match find_char(t, '|', b + 1) {
        None => t.len(),
        Some(c) => c,
    };
    proof {
        lemma_find_from(t@, seq!['|'], b + 1);
        assert(t@.skip(b + 1) =~= t@.subrange(b + 1, t.len() as int));
    }
    let mut field: Vec<char> = Vec::new();
    let mut i: usize = b + 1;
    while i < end
        invariant
            b + 1 <= i <= end <= t.len(),
            field@ == t@.subrange(b + 1, i as int),
        decreases end - i,
    {
        field.push(t[i]);
        i = i + 1;
        assert(field@ =~= t@.subrange(b + 1, i as int));
    }
    let (x, y) = trim_bounds(&field);
    let mut code: Vec<char> = Vec::new();
    let mut j: usize = x;
    while j < y
        invariant
            x <= j <= y <= field.len(),
            code@ == field@.subrange(x as int, j as int),
        decreases y - j,
    {
        code.push(field[j]);
        j = j + 1;
        assert(code@ =~= field@.subrange(x as int, j as int));
    }
    match parse_i32_chars(&code) {
        Some(n) => n != 0,
        None => false,
    }
}

/// How an event line reads before any pattern is applied to it.
pub enum EventLine {
    /// Nothing but white space.
    Blank,
    /// Its exit code field is a number other than zero.
    FailedStatus,
    /// Anything else; holds the line without surrounding white space.
    Other(String),
}

/// Sorts an event line by its trimmed text and its exit code field.
pub fn classify_event_line(line: &str) -> (r: EventLine)
    ensures
        match r {
            EventLine::Blank => trim(line@).len() == 0,
            EventLine::FailedStatus => trim(line@).len() > 0 && status_is_failure(trim(line@)),
            EventLine::Other(t) => t@ == trim(line@) && trim(line@).len() > 0
                && !status_is_failure(trim(line@)),
        },
{
    let v = chars_of(line);
    let (a, b) = trim_bounds(&v);
    if a == b {
        return EventLine::Blank;
    }
    let mut t: Vec<char> = Vec::new();
    let mut i: usize = a;
    while i < b
        invariant
            a <= i <= b <= v.len(),
            t@ == v@.subrange(a as int, i as int),
        decreases b - i,
    {
        t.push(v[i]);
        i = i + 1;
        assert(t@ =~= v@.subrange(a as int, i as int));
    }
    if status_field_is_failure(&t) {
        EventLine::FailedStatus
    } else {
        EventLine::Other(string_from_range(&v, a, b))
    }
}

/// The pattern that marks a line as an error when its exit code does not.
pub const ERROR_PATTERN: &'static str = r"(?i)\b(error|exception|traceback|failed|panic|fatal|command not found)\b";

/// What `regex::Regex::is_match` answers for the regex compiled from
/// `pattern` on `haystack`.
pub uninterp spec fn regex_is_match(pattern: Seq<char>, haystack: Seq<char>) -> bool;

#[verifier::external_type_specification]
#[verifier::external_body]
pub struct ExRegex(regex::Regex);

#[verifier::external_type_specification]
#[verifier::external_body]
pub struct ExRegexError(regex::Error);

/// Whether `regex::Regex::new` accepts `pattern` (with its default limits).
pub uninterp spec fn regex_compiles(pattern: Seq<char>) -> bool;

/// A compiled pattern, kept with the text it was compiled from. Its fields
/// are private and `compile_matcher` is the one place that builds it, from a
/// single call of `regex::Regex::new` on that text.
pub struct ErrorMatcher {
    pattern: String,
    re: regex::Regex,
}

/// `regex::Regex::new` on `pattern`; the compiled regex is kept beside the
/// text it was compiled from. Whether compiling succeeds is named, not stated.
#[verifier::external_body]
fn compile_matcher(pattern: &str) -> (r: Result<ErrorMatcher, regex::Error>)
    ensures
        r is Ok <==> regex_compiles(pattern@),
        r matches Ok(m) ==> m.pattern() == pattern@,
{
    match regex::Regex::new(pattern) {
        Ok(re) => Ok(ErrorMatcher { pattern: pattern.to_owned(), re }),
        Err(e) => Err(e),
    }
}

impl ErrorMatcher {
    /// The text the pattern was compiled from.
    pub closed spec fn pattern(&self) -> Seq<char> {
        self.pattern@
    }

    /// Compiles `pattern`; the error names what the regex engine refused.
    pub fn new(pattern: &str) -> (r: Result<ErrorMatcher, String>)
        ensures
            r is Ok <==> regex_compiles(pattern@),
            r matches Ok(m) ==> m.pattern() == pattern@,
            r matches Err(msg) ==> msg@.take(21) == "Invalid error regex: "@,
    {
        match compile_matcher(pattern) {
            Ok(m) => Ok(m),
            Err(e) => {
                let prefix = "Invalid error regex: ";
                proof {
                    reveal_strlit("Invalid error regex: ");
                }
                let mut msg = String::new();
                push_text(&mut msg, prefix);
                let detail = e.to_string();
                push_text(&mut msg, detail.as_str());
                assert(msg@.take(21) =~= prefix@);
                Err(msg)
            },
        }
    }
}

/// `regex::Regex::is_match` on the matcher's compiled pattern. The matcher's
/// fields are private and set together only by `compile_matcher`, so the
/// regex is the one compiled from `m.pattern()`; the answer is named, not
/// stated.
#[verifier::external_body]
fn pattern_is_match(m: &ErrorMatcher, haystack: &str) -> (r: bool)
    ensures
        r == regex_is_match(m.pattern(), haystack@),
{
    m.re.is_match(haystack)
}

/// An error event: a line that is not blank and whose exit code is a
/// number other than zero, or whose trimmed text the pattern matches.
pub open spec fn error_event(line: Seq<char>, pattern: Seq<char>) -> bool {
    let t = trim(line);
    t.len() > 0 && (status_is_failure(t) || regex_is_match(pattern, t))
}

/// Whether `line` of the event log reports an error.
pub fn is_error_event(line: &str, matcher: &ErrorMatcher) -> (r: bool)
    ensures
        r == error_event(line@, matcher.pattern()),
{
    match classify_event_line(line) {
        EventLine::Blank => false,
        EventLine::FailedStatus => true,
        EventLine::Other(t) => pattern_is_match(matcher, t.as_str()),
    }
}

/// An exit code as the shell hooks write it: in decimal, with `-` when negative.
pub open spec fn code_text(code: i32) -> Seq<char> {
    if code < 0 {
        seq!['-'] + decimal_text((-code) as nat)
    } else {
        decimal_text(code as nat)
    }
}

/// The line a shell hook appends for a command: `timestamp|shell|code|command`.
pub open spec fn hook_event_line(ts: Seq<char>, shell: Seq<char>, code: i32, cmd: Seq<char>) -> Seq<
    char,
> {
    ts + seq!['|'] + shell + seq!['|'] + code_text(code) + seq!['|'] + cmd
}

/// No character of `s` is `c`.
pub open spec fn lacks(s: Seq<char>, c: char) -> bool {
    forall|k: int| 0 <= k < s.len() ==> s[k] != c
}

proof fn lemma_matches_one(h: Seq<char>, c: char, i: int)
    ensures
        matches_at(h, seq![c], i) <==> (0 <= i < h.len() && h[i] == c),
{
    if 0 <= i < h.len() {
        if h[i] == c {
            assert(h.subrange(i, i + 1) =~= seq![c]);
        } else {
            assert(h.subrange(i, i + 1)[0] == h[i]);
        }
    }
}

/// Decimal text is digits, starts and ends with a digit, and reads back as
/// the number.
pub proof fn lemma_decimal_text(n: nat)
    ensures
        decimal_text(n).len() > 0,
        all_digits(decimal_text(n)),
        decimal_value(decimal_text(n)) == n,
        is_digit(decimal_text(n)[0]),
        is_digit(decimal_text(n).last()),
    decreases n,
{
    if n >= 10 {
        lemma_decimal_text(n / 10);
        let t = decimal_text(n / 10);
        assert(decimal_text(n).drop_last() =~= t);
        assert(decimal_text(n)[0] == t[0]);
        assert((n / 10) * 10 + n % 10 == n) by (nonlinear_arith);
        assert(digit_char((n % 10) as int) as int == '0' as int + n % 10);
        assert(decimal_text(n).last() == digit_char((n % 10) as int));
        assert(decimal_value(decimal_text(n)) == decimal_value(t) * 10 + (n % 10));
    } else {
        assert(decimal_text(n).drop_last() =~= Seq::<char>::empty());
        assert(digit_char(n as int) as int == '0' as int + n);
        assert(decimal_value(decimal_text(n).drop_last()) == 0);
        assert(decimal_value(decimal_text(n)) == n);
    }
}

proof fn lemma_code_text(code: i32)
    ensures
        parse_i32(code_text(code)) == Some(code),
        code_text(code).len() > 0,
        !is_space(code_text(code)[0]),
        !is_space(code_text(code).last()),
        lacks(code_text(code), '|'),
{
    let t = code_text(code);
    if code < 0 {
        let m = (-code) as nat;
        lemma_decimal_text(m);
        let d = decimal_text(m);
        assert(t.skip(1) =~= d);
        assert(t.last() == d.last());
        assert forall|k: int| 0 <= k < t.len() implies t[k] != '|' by {
            if k > 0 {
                assert(t[k] == d[k - 1]);
            }
        }
    } else {
        lemma_decimal_text(code as nat);
    }
    assert(trim_start(t) == t);
}

proof fn lemma_trim_end_prefix(x: Seq<char>)
    ensures
        exists|j: int|
            0 <= j <= x.len() && trim_end(x) == x.take(j) && forall|i: int|
                j <= i < x.len() ==> is_space(#[trigger] x[i]),
    decreases x.len(),
{
    if x.len() > 0 && is_space(x.last()) {
        lemma_trim_end_prefix(x.drop_last());
        let j = choose|j: int|
            0 <= j <= x.drop_last().len() && trim_end(x.drop_last()) == x.drop_last().take(j)
                && forall|i: int| j <= i < x.drop_last().len() ==> is_space(#[trigger] x.drop_last()[i]);
        assert(x.drop_last().take(j) =~= x.take(j));
        assert forall|i: int| j <= i < x.len() implies is_space(#[trigger] x[i]) by {
            if i < x.len() - 1 {
                assert(x[i] == x.drop_last()[i]);
            }
        }
    } else {
        assert(x.take(x.len() as int) =~= x);
    }
}

/// A line that a shell hook writes for a command that failed is always an
/// error event, whatever the pattern and the command: its exit code field
/// holds a number other than zero. The timestamp must not start with white
/// space, and neither it nor the shell's name may hold `|`.
pub proof fn lemma_failed_command_detected(
    ts: Seq<char>,
    shell: Seq<char>,
    code: i32,
    cmd: Seq<char>,
    pattern: Seq<char>,
)
    requires
        ts.len() > 0,
        !is_space(ts[0]),
        lacks(ts, '|'),
        lacks(shell, '|'),
        code != 0,
    ensures
        error_event(hook_event_line(ts, shell, code, cmd), pattern),
{
    let c = code_text(code);
    lemma_code_text(code);
    let x = hook_event_line(ts, shell, code, cmd);
    let bar = seq!['|'];
    let p1 = ts.len() as int;
    let p2 = p1 + 1 + shell.len();
    let p3 = p2 + 1 + c.len();
    assert(x =~= ts + bar + shell + bar + c + bar + cmd);
    assert(x[p1] == '|' && x[p2] == '|' && x[p3] == '|');
    assert(x[0] == ts[0]);
    assert(trim_start(x) == x);
    lemma_trim_end_prefix(x);
    let j = choose|j: int|
        0 <= j <= x.len() && trim_end(x) == x.take(j) && forall|i: int|
            j <= i < x.len() ==> is_space(#[trigger] x[i]);
    if j <= p3 {
        assert(is_space(x[p3]));
    }
    let t = trim(x);
    assert(t == x.take(j));
    assert(t.len() > 0);
    assert(t[p1] == '|' && t[p2] == '|' && t[p3] == '|');
    lemma_matches_one(t, '|', p1);
    lemma_matches_one(t, '|', p2);
    lemma_matches_one(t, '|', p3);
    assert forall|k: int| 0 <= k < p1 implies !matches_at(t, bar, k) by {
        lemma_matches_one(t, '|', k);
        assert(t[k] == ts[k]);
    }
    assert forall|k: int| p1 + 1 <= k < p2 implies !matches_at(t, bar, k) by {
        lemma_matches_one(t, '|', k);
        assert(t[k] == shell[k - p1 - 1]);
    }
    assert forall|k: int| p2 + 1 <= k < p3 implies !matches_at(t, bar, k) by {
        lemma_matches_one(t, '|', k);
        assert(t[k] == c[k - p2 - 1]);
    }
    lemma_find_from_is(t, bar, 0, p1);
    lemma_find_from_is(t, bar, p1 + 1, p2);
    lemma_find_from_is(t, bar, p2 + 1, p3);
    assert(t.subrange(p2 + 1, p3) =~= c);
    assert(trim_end(c) == c);
    assert(trim(c) == c);
    assert(third_field(t) == Some(c));
    assert(status_is_failure(t));
}

} // verus!
