//! CSS colours as eight hexadecimal digits, alpha first.
//!
//! Three notations are read, in this order: `#RRGGBB`, `rgba(r, g, b, a)` and
//! `rgb(r, g, b)`. The red, green and blue parts are unsigned decimals. The
//! alpha part is a real number: its evaluation needs floating-point
//! arithmetic, which is done outside this crate. [`alpha_text`] hands out the
//! text to evaluate, and [`color_to_argb`] takes what the evaluation gave:
//! the alpha scaled by 255 and cut to an integer, or `None` where the text is
//! no number.

use vstd::prelude::*;
use vstd::string::*;
use crate::text::{
    all_digits, decimal_value, is_digit, lemma_decimal_value_grows, opt_view, spans_of,
    split_commas, split_spans, starts_with, to_chars, trim, trim_span, unsigned_value,
};

verus! {

/// The upper-case hexadecimal digit that stands for `d`.
pub open spec fn hex_digit(d: nat) -> char {
    if d == 0 {
        '0'
    } else if d == 1 {
        '1'
    } else if d == 2 {
        '2'
    } else if d == 3 {
        '3'
    } else if d == 4 {
        '4'
    } else if d == 5 {
        '5'
    } else if d == 6 {
        '6'
    } else if d == 7 {
        '7'
    } else if d == 8 {
        '8'
    } else if d == 9 {
        '9'
    } else if d == 10 {
        'A'
    } else if d == 11 {
        'B'
    } else if d == 12 {
        'C'
    } else if d == 13 {
        'D'
    } else if d == 14 {
        'E'
    } else {
        'F'
    }
}

/// The two upper-case hexadecimal digits of a value up to 255.
pub open spec fn hex_pair(v: nat) -> Seq<char> {
    seq![hex_digit(v / 16), hex_digit(v % 16)]
}

/// How a channel value is written: two hexadecimal digits where two are
/// enough, nothing where the value needs more.
pub open spec fn value_hex(v: nat) -> Option<Seq<char>> {
    if v <= 255 {
        Some(hex_pair(v))
    } else {
        None
    }
}

/// The two digits for a red, green or blue part given as text.
pub open spec fn channel_hex(s: Seq<char>) -> Option<Seq<char>> {
    match unsigned_value(s) {
        Some(v) => value_hex(v),
        None => None,
    }
}

/// The two digits for an alpha part, given what its evaluation returned.
pub open spec fn alpha_hex(scaled: Option<u32>) -> Option<Seq<char>> {
    match scaled {
        Some(v) => value_hex(v as nat),
        None => None,
    }
}

/// Whether `color` is written as `#` and six more characters.
pub open spec fn is_hex_color(color: Seq<char>) -> bool {
    color.len() == 7 && color[0] == '#'
}

/// The arguments of `color` read as a call that opens with `name` and
/// closes with `)`: the pieces between the commas, each without the white
/// space around it. `None` where `color` is no such call.
pub open spec fn call_arguments(color: Seq<char>, name: Seq<char>) -> Option<Seq<Seq<char>>> {
    if name.is_prefix_of(color) && color.len() > name.len() && color.last() == ')' {
        Some(
            split_commas(color.subrange(name.len() as int, color.len() - 1)).map_values(
                |p: Seq<char>| trim(p),
            ),
        )
    } else {
        None
    }
}

/// The four digit pairs in a row, where all four are there.
pub open spec fn join_pairs(
    a: Option<Seq<char>>,
    r: Option<Seq<char>>,
    g: Option<Seq<char>>,
    b: Option<Seq<char>>,
) -> Option<Seq<char>> {
    if a is Some && r is Some && g is Some && b is Some {
        Some(a->0 + r->0 + g->0 + b->0)
    } else {
        None
    }
}

/// The text of the alpha part of `color`, where `color` is an `rgba(..)`
/// call with four arguments or more.
pub open spec fn alpha_part(color: Seq<char>) -> Option<Seq<char>> {
    if is_hex_color(color) {
        None
    } else {
        match call_arguments(color, "rgba("@) {
            Some(args) => if args.len() >= 4 {
                Some(args[3])
            } else {
                None
            },
            None => None,
        }
    }
}

/// The colour that `color` writes, as alpha, red, green and blue in two
/// hexadecimal digits each; `alpha` is what the evaluation of
/// `alpha_part(color)` gave.
///
/// `#RRGGBB` is opaque and keeps its six characters as they are. An `rgba`
/// call takes its first four arguments, an `rgb` call its first three and
/// is opaque. A part that is no number, or not within 0 to 255, leaves the
/// whole colour unread.
pub open spec fn argb(color: Seq<char>, alpha: Option<u32>) -> Option<Seq<char>> {
    if is_hex_color(color) {
        Some(seq!['F', 'F'] + color.skip(1))
    } else {
        match call_arguments(color, "rgba("@) {
            Some(args) => if args.len() >= 4 {
                join_pairs(
                    alpha_hex(alpha),
                    channel_hex(args[0]),
                    channel_hex(args[1]),
                    channel_hex(args[2]),
                )
            } else {
                None
            },
            None => match call_arguments(color, "rgb("@) {
                Some(args) => if args.len() >= 3 {
                    join_pairs(
                        Some(seq!['F', 'F']),
                        channel_hex(args[0]),
                        channel_hex(args[1]),
                        channel_hex(args[2]),
                    )
                } else {
                    None
                },
                None => None,
            },
        }
    }
}

/// Whether `c` is an upper-case hexadecimal digit.
pub open spec fn is_upper_hex(c: char) -> bool {
    ||| 0x30 <= c as u32 <= 0x39
    ||| 0x41 <= c as u32 <= 0x46
}

/// A colour that was read has eight characters. Read from an `rgb(..)` or
/// `rgba(..)` call, all eight are upper-case hexadecimal digits; read from
/// `#` and six characters, the first two are `FF` and the six stand as they
/// were written.
pub proof fn lemma_argb_shape(color: Seq<char>, alpha: Option<u32>)
    requires
        argb(color, alpha) is Some,
    ensures
        argb(color, alpha)->0.len() == 8,
        is_hex_color(color) ==> argb(color, alpha)->0 == seq!['F', 'F'] + color.skip(1),
        !is_hex_color(color) ==> forall|i: int|
            0 <= i < 8 ==> is_upper_hex(#[trigger] argb(color, alpha)->0[i]),
{
    assert forall|v: nat| v <= 255 implies is_upper_hex(#[trigger] hex_pair(v)[0]) && is_upper_hex(
        hex_pair(v)[1],
    ) by {
        assert(v / 16 < 16 && v % 16 < 16);
    }
}

/// The alpha that is handed in decides nothing where `color` has no alpha
/// part.
pub proof fn lemma_alpha_counts_only_where_asked(color: Seq<char>, a: Option<u32>, b: Option<u32>)
    requires
        alpha_part(color) is None,
    ensures
        argb(color, a) == argb(color, b),
{
}

/// The hexadecimal digit for `d`, as a one-character text.
fn hex_digit_str(d: u32) -> (r: &'static str)
    requires
        d < 16,
    ensures
        r@ == seq![hex_digit(d as nat)],
{
    proof {
        reveal_strlit("0");
        reveal_strlit("1");
        reveal_strlit("2");
        reveal_strlit("3");
        reveal_strlit("4");
        reveal_strlit("5");
        reveal_strlit("6");
        reveal_strlit("7");
        reveal_strlit("8");
        reveal_strlit("9");
        reveal_strlit("A");
        reveal_strlit("B");
        reveal_strlit("C");
        reveal_strlit("D");
        reveal_strlit("E");
        reveal_strlit("F");
    }
    if d == 0 {
        "0"
    } else if d == 1 {
        "1"
    } else if d == 2 {
        "2"
    } else if d == 3 {
        "3"
    } else if d == 4 {
        "4"
    } else if d == 5 {
        "5"
    } else if d == 6 {
        "6"
    } else if d == 7 {
        "7"
    } else if d == 8 {
        "8"
    } else if d == 9 {
        "9"
    } else if d == 10 {
        "A"
    } else if d == 11 {
        "B"
    } else if d == 12 {
        "C"
    } else if d == 13 {
        "D"
    } else if d == 14 {
        "E"
    } else {
        "F"
    }
}

/// Writes a channel value in hexadecimal: one digit is padded with a zero,
/// two digits stand as they are, and a value that needs more is refused.
pub fn value_to_hex(v: u32) -> (r: Option<String>)
    ensures
        opt_view(r) == value_hex(v as nat),
{
    if v > 255 {
        return None;
    }
    let mut out = String::from_str(hex_digit_str(v / 16));
    out.append(hex_digit_str(v % 16));
    Some(out)
}

/// The value of the channel written in `text[lo..hi]`, where it is an
/// unsigned decimal within 0 to 255.
fn parse_channel(text: &Vec<char>, lo: usize, hi: usize) -> (r: Option<u32>)
    requires
        lo <= hi <= text.len(),
    ensures
        match unsigned_value(text@.subrange(lo as int, hi as int)) {
            Some(v) => if v <= 255 {
                r == Some(v as u32)
            } else {
                r is None
            },
            None => r is None,
        },
{
    let ghost s = text@.subrange(lo as int, hi as int);
    let mut i: usize = lo;
    if i < hi && text[i] == '+' {
        i = i + 1;
    }
    if i == hi {
        return None;
    }
    let start: usize = i;
    let ghost digits = text@.subrange(start as int, hi as int);
    assert(digits =~= if s.len() > 0 && s[0] == '+' {
        s.drop_first()
    } else {
        s
    });
    let mut v: u32 = 0;
    while i < hi
        invariant
            lo <= start <= i <= hi <= text.len(),
            digits == text@.subrange(start as int, hi as int),
            unsigned_value(text@.subrange(lo as int, hi as int)) == if all_digits(digits) {
                Some(decimal_value(digits))
            } else {
                None
            },
            v <= 255,
            all_digits(text@.subrange(start as int, i as int)),
            v == decimal_value(text@.subrange(start as int, i as int)),
        decreases hi - i,
    {
        let u: u32 = text[i] as u32;
        if u < 0x30 || u > 0x39 {
            assert(!is_digit(digits[i - start]));
            return None;
        }
        let next: u32 = v * 10 + (u - 0x30);
        proof {
            let t = text@.subrange(start as int, i + 1);
            assert(t.drop_last() =~= text@.subrange(start as int, i as int));
            assert(all_digits(t));
        }
        if next > 255 {
            proof {
                if all_digits(digits) {
                    lemma_decimal_value_grows(digits, i + 1 - start);
                    assert(digits.take(i + 1 - start) =~= text@.subrange(start as int, i + 1));
                }
            }
            return None;
        }
        v = next;
        i = i + 1;
    }
    Some(v)
}

/// The two hexadecimal digits of a red, green or blue part: `s` must be an
/// unsigned decimal within 0 to 255.
pub fn str_to_hex(s: &str) -> (r: Option<String>)
    ensures
        opt_view(r) == channel_hex(s@),
{
    let chars = to_chars(s);
    assert(chars@.subrange(0, chars@.len() as int) =~= s@);
    match parse_channel(&chars, 0, chars.len()) {
        Some(v) => value_to_hex(v),
        None => None,
    }
}

/// The two hexadecimal digits of an alpha part, from what its evaluation
/// gave: the alpha scaled by 255 and cut to an integer, or `None` where the
/// text was no number.
pub fn str_alpha_to_hex(scaled: Option<u32>) -> (r: Option<String>)
    ensures
        opt_view(r) == alpha_hex(scaled),
{
    match scaled {
        Some(v) => value_to_hex(v),
        None => None,
    }
}

/// The ranges of the arguments of `text` read as a call that opens with
/// `name` and closes with `)`.
fn call_spans(text: &Vec<char>, name: &str) -> (r: Option<Vec<(usize, usize)>>)
    ensures
        match r {
            Some(spans) => {
                &&& call_arguments(text@, name@) == Some(spans_of(text@, spans@))
                &&& forall|k: int|
                    0 <= k < spans.len() ==> (#[trigger] spans[k]).0 <= spans[k].1 <= text.len()
            },
            None => call_arguments(text@, name@) is None,
        },
{
    let opening = to_chars(name);
    let n: usize = text.len();
    if !starts_with(text, &opening) || n <= opening.len() || text[n - 1] != ')' {
        return None;
    }
    let lo: usize = opening.len();
    let hi: usize = n - 1;
    let pieces = split_spans(text, lo, hi);
    let ghost raw = split_commas(text@.subrange(lo as int, hi as int));
    let mut out: Vec<(usize, usize)> = Vec::new();
    let mut k: usize = 0;
    while k < pieces.len()
        invariant
            k <= pieces.len(),
            out.len() == k,
            lo <= hi <= text.len(),
            spans_of(text@, pieces@) == raw,
            forall|j: int|
                0 <= j < pieces.len() ==> lo <= (#[trigger] pieces[j]).0 <= pieces[j].1 <= hi,
            forall|j: int| 0 <= j < k ==> (#[trigger] out[j]).0 <= out[j].1 <= text.len(),
            forall|j: int|
                0 <= j < k ==> text@.subrange(
                    (#[trigger] out[j]).0 as int,
                    out[j].1 as int,
                ) == trim(raw[j]),
        decreases pieces.len() - k,
    {
        let span = pieces[k];
        let trimmed = trim_span(text, span.0, span.1);
        out.push(trimmed);
        k = k + 1;
    }
    Some(out)
}

/// The text of the alpha part of `color`: the fourth argument of an
/// `rgba(..)` call. This is the text whose evaluation [`color_to_argb`]
/// takes as `alpha`.
pub fn alpha_text(color: &str) -> (r: Option<String>)
    ensures
        opt_view(r) == alpha_part(color@),
{
    let chars = to_chars(color);
    if chars.len() == 7 && chars[0] == '#' {
        return None;
    }
    match call_spans(&chars, "rgba(") {
        Some(spans) => {
            if spans.len() >= 4 {
                let span = spans[3];
                Some(String::from_str(color.substring_char(span.0, span.1)))
            } else {
                None
            }
        },
        None => None,
    }
}

/// The digit pairs of the first three arguments, after `lead`, where each
/// argument is a channel value.
fn join_channels(lead: Option<String>, text: &Vec<char>, spans: &Vec<(usize, usize)>) -> (r: Option<
    String,
>)
    requires
        spans.len() >= 3,
        forall|k: int| 0 <= k < spans.len() ==> (#[trigger] spans[k]).0 <= spans[k].1 <= text.len(),
    ensures
        opt_view(r) == join_pairs(
            opt_view(lead),
            channel_hex(spans_of(text@, spans@)[0]),
            channel_hex(spans_of(text@, spans@)[1]),
            channel_hex(spans_of(text@, spans@)[2]),
        ),
{
    let red = parse_channel(text, spans[0].0, spans[0].1);
    let green = parse_channel(text, spans[1].0, spans[1].1);
    let blue = parse_channel(text, spans[2].0, spans[2].1);
    match (lead, red, green, blue) {
        (Some(a), Some(r), Some(g), Some(b)) => {
            let mut out = a;
            let rr = value_to_hex(r);
            let gg = value_to_hex(g);
            let bb = value_to_hex(b);
            match (rr, gg, bb) {
                (Some(rr), Some(gg), Some(bb)) => {
                    out.append(rr.as_str());
                    out.append(gg.as_str());
                    out.append(bb.as_str());
                    Some(out)
                },
                _ => None,
            }
        },
        _ => None,
    }
}

/// Reads a CSS colour. `alpha` is what the evaluation of
/// [`alpha_text`]`(color)` gave, and is looked at for an `rgba(..)` call
/// only.
pub fn color_to_argb(color: &str, alpha: Option<u32>) -> (r: Option<String>)
    ensures
        opt_view(r) == argb(color@, alpha),
{
    let chars = to_chars(color);
    if chars.len() == 7 && chars[0] == '#' {
        proof {
            reveal_strlit("FF");
        }
        let mut out = String::from_str("FF");
        out.append(color.substring_char(1, 7));
        return Some(out);
    }
    match call_spans(&chars, "rgba(") {
        Some(spans) => {
            if spans.len() >= 4 {
                join_channels(str_alpha_to_hex(alpha), &chars, &spans)
            } else {
                None
            }
        },
        None => match call_spans(&chars, "rgb(") {
            Some(spans) => {
                if spans.len() >= 3 {
                    proof {
                        reveal_strlit("FF");
                    }
                    let lead = String::from_str("FF");
                    join_channels(Some(lead), &chars, &spans)
                } else {
                    None
                }
            },
            None => None,
        },
    }
}

} // verus!
