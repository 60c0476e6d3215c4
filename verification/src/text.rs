//! Character-level helpers shared by the parsers of this crate.
//!
//! Strings are modelled by their view, a `Seq<char>`. The executable helpers
//! work on a `Vec<char>` and on half-open index ranges into it, so that a
//! caller can cut the matching piece out of the text it started from.

use vstd::prelude::*;
use vstd::string::*;

verus! {

/// The view of an optional string.
pub open spec fn opt_view(s: Option<String>) -> Option<Seq<char>> {
    match s {
        Some(t) => Some(t@),
        None => None,
    }
}

/// Whether `c` carries the Unicode `White_Space` property.
pub open spec fn is_space(c: char) -> bool {
    let u = c as u32;
    ||| 0x09 <= u <= 0x0D
    ||| u == 0x20
    ||| u == 0x85
    ||| u == 0xA0
    ||| u == 0x1680
    ||| 0x2000 <= u <= 0x200A
    ||| u == 0x2028
    ||| u == 0x2029
    ||| u == 0x202F
    ||| u == 0x205F
    ||| u == 0x3000
}

/// `s` without its leading white space.
pub open spec fn trim_start(s: Seq<char>) -> Seq<char>
    decreases s.len(),
{
    if s.len() > 0 && is_space(s[0]) {
        trim_start(s.drop_first())
    } else {
        s
    }
}

/// `s` without its trailing white space.
pub open spec fn trim_end(s: Seq<char>) -> Seq<char>
    decreases s.len(),
{
    if s.len() > 0 && is_space(s.last()) {
        trim_end(s.drop_last())
    } else {
        s
    }
}

/// `s` without its leading and trailing white space.
pub open spec fn trim(s: Seq<char>) -> Seq<char> {
    trim_end(trim_start(s))
}

/// The position of the first comma of `s`, or the length of `s` where it
/// holds none.
pub open spec fn first_comma(s: Seq<char>) -> int
    decreases s.len(),
{
    if s.len() == 0 || s[0] == ',' {
        0
    } else {
        1 + first_comma(s.drop_first())
    }
}

/// The pieces of `s` between its commas, in order. A text with `n` commas
/// has `n + 1` pieces, some of which may be empty.
pub open spec fn split_commas(s: Seq<char>) -> Seq<Seq<char>>
    decreases s.len(),
{
    let i = first_comma(s);
    if 0 <= i < s.len() {
        seq![s.take(i)] + split_commas(s.skip(i + 1))
    } else {
        seq![s]
    }
}

/// The pieces of `text` that the index ranges `spans` cut out.
pub open spec fn spans_of(text: Seq<char>, spans: Seq<(usize, usize)>) -> Seq<Seq<char>> {
    Seq::new(spans.len(), |k: int| text.subrange(spans[k].0 as int, spans[k].1 as int))
}

/// Whether `p` stands in `s` at position `i`.
pub open spec fn occurs_at(s: Seq<char>, p: Seq<char>, i: int) -> bool {
    0 <= i && i + p.len() <= s.len() && s.subrange(i, i + p.len()) == p
}

/// Whether `p` stands somewhere in `s`. The empty text stands in every text.
pub open spec fn contains_text(s: Seq<char>, p: Seq<char>) -> bool {
    exists|i: int| occurs_at(s, p, i)
}

/// Whether `c` is one of the ASCII digits `0` to `9`.
pub open spec fn is_digit(c: char) -> bool {
    0x30 <= c as u32 <= 0x39
}

/// The number that the ASCII digit `c` stands for.
pub open spec fn digit_value(c: char) -> nat {
    (c as u32 - 0x30) as nat
}

/// Whether `s` holds ASCII digits only.
pub open spec fn all_digits(s: Seq<char>) -> bool {
    forall|i: int| 0 <= i < s.len() ==> is_digit(#[trigger] s[i])
}

/// The number that the digits of `s` write in base ten.
pub open spec fn decimal_value(s: Seq<char>) -> nat
    decreases s.len(),
{
    if s.len() == 0 {
        0
    } else {
        decimal_value(s.drop_last()) * 10 + digit_value(s.last())
    }
}

/// The number that `s` writes as an unsigned decimal: an optional `+`, then
/// one or more ASCII digits and nothing else.
pub open spec fn unsigned_value(s: Seq<char>) -> Option<nat> {
    let digits = if s.len() > 0 && s[0] == '+' {
        s.drop_first()
    } else {
        s
    };
    if digits.len() > 0 && all_digits(digits) {
        Some(decimal_value(digits))
    } else {
        None
    }
}

/// `first_comma` is the only position before which no comma stands and at
/// which one does, or the text ends.
pub proof fn lemma_first_comma_unique(s: Seq<char>, k: int)
    requires
        0 <= k <= s.len(),
        forall|j: int| 0 <= j < k ==> s[j] != ',',
        k < s.len() ==> s[k] == ',',
    ensures
        first_comma(s) == k,
    decreases s.len(),
{
    if s.len() == 0 || s[0] == ',' {
    } else {
        lemma_first_comma_unique(s.drop_first(), k - 1);
    }
}

/// A prefix of a digit text writes a number that is no larger.
pub proof fn lemma_decimal_value_grows(s: Seq<char>, n: int)
    requires
        0 <= n <= s.len(),
        all_digits(s),
    ensures
        decimal_value(s.take(n)) <= decimal_value(s),
    decreases s.len() - n,
{
    if n == s.len() {
        assert(s.take(n) =~= s);
    } else {
        lemma_decimal_value_grows(s, n + 1);
        assert(s.take(n + 1).drop_last() =~= s.take(n));
    }
}

/// Whether two string slices hold the same characters.
pub fn str_eq(a: &str, b: &str) -> (r: bool)
    ensures
        r == (a@ == b@),
{
    let x = a.as_bytes();
    let y = b.as_bytes();
    proof {
        vstd::utf8::encode_utf8_decode_utf8(a@);
        vstd::utf8::encode_utf8_decode_utf8(b@);
    }
    if x.len() != y.len() {
        return false;
    }
    let mut i: usize = 0;
    while i < x.len()
        invariant
            i <= x.len(),
            x.len() == y.len(),
            x@ == a.spec_bytes(),
            y@ == b.spec_bytes(),
            forall|j: int| 0 <= j < i ==> x@[j] == y@[j],
        decreases x.len() - i,
    {
        if x[i] != y[i] {
            return false;
        }
        i = i + 1;
    }
    assert(x@ =~= y@);
    true
}

/// The characters of a string slice, in order.
pub fn to_chars(s: &str) -> (r: Vec<char>)
    ensures
        r@ == s@,
{
    let mut out: Vec<char> = Vec::new();
    for c in it: s.chars()
        invariant
            it.seq() == s@,
            out@ == it.seq().take(it.index() as int),
    {
        out.push(c);
    }
    out
}

/// Whether `c` is white space.
pub fn is_whitespace(c: char) -> (r: bool)
    ensures
        r == is_space(c),
{
    let u: u32 = c as u32;
    (0x09 <= u && u <= 0x0D) || u == 0x20 || u == 0x85 || u == 0xA0 || u == 0x1680 || (0x2000 <= u
        && u <= 0x200A) || u == 0x2028 || u == 0x2029 || u == 0x202F || u == 0x205F || u == 0x3000
}

/// The range of `text[lo..hi]` that is left when white space is taken from
/// both of its ends. Where nothing is left, the range is empty and stands at
/// `hi`.
pub fn trim_span(text: &Vec<char>, lo: usize, hi: usize) -> (r: (usize, usize))
    requires
        lo <= hi <= text.len(),
    ensures
        lo <= r.0 <= r.1 <= hi,
        text@.subrange(r.0 as int, r.1 as int) == trim(text@.subrange(lo as int, hi as int)),
        r.0 == hi - trim_start(text@.subrange(lo as int, hi as int)).len(),
{
    let mut a: usize = lo;
    while a < hi && is_whitespace(text[a])
        invariant
            lo <= a <= hi <= text.len(),
            trim_start(text@.subrange(lo as int, hi as int)) == trim_start(
                text@.subrange(a as int, hi as int),
            ),
        decreases hi - a,
    {
        assert(text@.subrange(a as int, hi as int).drop_first() =~= text@.subrange(
            a + 1,
            hi as int,
        ));
        a = a + 1;
    }
    let mut b: usize = hi;
    while b > a && is_whitespace(text[b - 1])
        invariant
            a <= b <= hi <= text.len(),
            trim_end(text@.subrange(a as int, hi as int)) == trim_end(
                text@.subrange(a as int, b as int),
            ),
        decreases b - a,
    {
        assert(text@.subrange(a as int, b as int).drop_last() =~= text@.subrange(
            a as int,
            b - 1,
        ));
        b = b - 1;
    }
    (a, b)
}

/// The ranges of the pieces of `text[lo..hi]` between its commas: the first
/// starts at `lo`, each further one behind the comma that ends the one
/// before it, and the last ends at `hi`.
pub fn split_spans(text: &Vec<char>, lo: usize, hi: usize) -> (r: Vec<(usize, usize)>)
    requires
        lo <= hi <= text.len(),
    ensures
        spans_of(text@, r@) == split_commas(text@.subrange(lo as int, hi as int)),
        r.len() >= 1,
        r[0].0 == lo,
        r[r.len() - 1].1 == hi,
        forall|k: int| 0 <= k < r.len() ==> lo <= (#[trigger] r[k]).0 <= r[k].1 <= hi,
        forall|k: int| 0 <= k < r.len() - 1 ==> (#[trigger] r[k]).1 + 1 == r[k + 1].0,
{
    let mut out: Vec<(usize, usize)> = Vec::new();
    let mut start: usize = lo;
    let mut i: usize = lo;
    while i < hi
        invariant
            lo <= start <= i <= hi <= text.len(),
            forall|k: int| 0 <= k < out.len() ==> lo <= (#[trigger] out[k]).0 <= out[k].1 <= hi,
            forall|k: int| 0 <= k < out.len() - 1 ==> (#[trigger] out[k]).1 + 1 == out[k + 1].0,
            out.len() == 0 ==> start == lo,
            out.len() > 0 ==> out[0].0 == lo && out[out.len() - 1].1 + 1 == start,
            forall|j: int| start <= j < i ==> text@[j] != ',',
            split_commas(text@.subrange(lo as int, hi as int)) == spans_of(text@, out@)
                + split_commas(text@.subrange(start as int, hi as int)),
        decreases hi - i,
    {
        if text[i] == ',' {
            proof {
                let rest = text@.subrange(start as int, hi as int);
                lemma_first_comma_unique(rest, i - start);
                assert(rest.take(i - start) =~= text@.subrange(start as int, i as int));
                assert(rest.skip(i - start + 1) =~= text@.subrange(i + 1, hi as int));
            }
            out.push((start, i));
            start = i + 1;
        }
        i = i + 1;
    }
    proof {
        let rest = text@.subrange(start as int, hi as int);
        lemma_first_comma_unique(rest, hi - start);
    }
    out.push((start, hi));
    out
}

/// Whether `pattern` stands in `text` at position `at`.
pub fn matches_at(text: &Vec<char>, pattern: &Vec<char>, at: usize) -> (r: bool)
    requires
        at + pattern.len() <= text.len(),
    ensures
        r == occurs_at(text@, pattern@, at as int),
{
    let mut k: usize = 0;
    while k < pattern.len()
        invariant
            k <= pattern.len(),
            at + pattern.len() <= text.len(),
            forall|j: int| 0 <= j < k ==> text@[at + j] == pattern@[j],
        decreases pattern.len() - k,
    {
        if text[at + k] != pattern[k] {
            return false;
        }
        k = k + 1;
    }
    assert(text@.subrange(at as int, at + pattern.len()) =~= pattern@);
    true
}

/// Whether `text` begins with `pattern`.
pub fn starts_with(text: &Vec<char>, pattern: &Vec<char>) -> (r: bool)
    ensures
        r == pattern@.is_prefix_of(text@),
{
    if pattern.len() > text.len() {
        return false;
    }
    matches_at(text, pattern, 0)
}

/// Whether `text` ends with `pattern`.
pub fn ends_with(text: &Vec<char>, pattern: &Vec<char>) -> (r: bool)
    ensures
        r == pattern@.is_suffix_of(text@),
{
    if pattern.len() > text.len() {
        return false;
    }
    matches_at(text, pattern, text.len() - pattern.len())
}

/// Whether `pattern` stands somewhere in `text`.
pub fn contains(text: &Vec<char>, pattern: &Vec<char>) -> (r: bool)
    ensures
        r == contains_text(text@, pattern@),
{
    if pattern.len() > text.len() {
        return false;
    }
    let last: usize = text.len() - pattern.len();
    let mut i: usize = 0;
    while i < last
        invariant
            i <= last,
            last == text.len() - pattern.len(),
            forall|j: int| 0 <= j < i ==> !occurs_at(text@, pattern@, j),
        decreases last - i,
    {
        if matches_at(text, pattern, i) {
            return true;
        }
        i = i + 1;
    }
    matches_at(text, pattern, last)
}

} // verus!
