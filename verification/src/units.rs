//! Font sizes: from CSS pixels to points.
//!
//! A size is a number followed by `px`; three quarters of the number is the
//! size in points. The number is a real number, so the multiplication and
//! the writing of the product need floating-point arithmetic, which is done
//! outside this crate. [`px_text`] hands out the text of the number, and
//! [`px_to_pt`] takes what the evaluation gave: the product as text, or
//! `None` where the text is no number.

use vstd::prelude::*;
use vstd::string::*;
use crate::text::{opt_view, to_chars};

verus! {

/// Whether `size` ends in the two characters `px`.
pub open spec fn is_pixel_size(size: Seq<char>) -> bool {
    size.len() >= 2 && size[size.len() - 2] == 'p' && size[size.len() - 1] == 'x'
}

/// The text in front of the closing `px` of `size`.
pub open spec fn pixel_part(size: Seq<char>) -> Option<Seq<char>> {
    if is_pixel_size(size) {
        Some(size.take(size.len() - 2))
    } else {
        None
    }
}

/// The size in points that `size` stands for; `evaluated` is what the
/// evaluation of `pixel_part(size)` gave.
pub open spec fn points_of(size: Seq<char>, evaluated: Option<Seq<char>>) -> Option<Seq<char>> {
    if is_pixel_size(size) {
        evaluated
    } else {
        None
    }
}

/// What is handed in as evaluated decides nothing where `size` has no
/// number to evaluate.
pub proof fn lemma_evaluation_counts_only_where_asked(
    size: Seq<char>,
    a: Option<Seq<char>>,
    b: Option<Seq<char>>,
)
    requires
        pixel_part(size) is None,
    ensures
        points_of(size, a) == points_of(size, b),
{
}

/// The text of the number of a pixel size: what stands in front of the
/// closing `px`. This is the text whose evaluation [`px_to_pt`] takes as
/// `evaluated`.
pub fn px_text(size: &str) -> (r: Option<String>)
    ensures
        opt_view(r) == pixel_part(size@),
{
    let chars = to_chars(size);
    let n: usize = chars.len();
    if n >= 2 && chars[n - 2] == 'p' && chars[n - 1] == 'x' {
        Some(String::from_str(size.substring_char(0, n - 2)))
    } else {
        None
    }
}

/// The size in points of a pixel size. `evaluated` is what the evaluation of
/// [`px_text`]`(size)` gave, and is handed on only where `size` ends in
/// `px`.
pub fn px_to_pt(size: &str, evaluated: Option<String>) -> (r: Option<String>)
    ensures
        opt_view(r) == points_of(size@, opt_view(evaluated)),
{
    let chars = to_chars(size);
    let n: usize = chars.len();
    if n >= 2 && chars[n - 2] == 'p' && chars[n - 1] == 'x' {
        evaluated
    } else {
        None
    }
}

} // verus!
