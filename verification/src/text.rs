//! Preparing lines of text for the banner.
//!
//! Lengths are counted in characters. A line is never cut inside a
//! character, whatever its encoding.

use vstd::prelude::*;

verus! {

/// Longest line, in characters, that is shown in full.
pub const MAX_LINE_CHARS: usize = 30;

/// Number of leading characters kept of a line that is too long.
pub const KEPT_CHARS: usize = 27;

/// The characters of an optional line of text.
pub open spec fn text_of(text: Option<String>) -> Option<Seq<char>> {
    match text {
        Some(s) => Some(s@),
        None => None,
    }
}

/// What is shown of `text`: the text itself if it has at most 30
/// characters, else its first 27 characters followed by three periods.
pub open spec fn display_line(text: Seq<char>) -> Seq<char> {
    if text.len() > MAX_LINE_CHARS {
        text.subrange(0, KEPT_CHARS as int) + "..."@
    } else {
        text
    }
}

/// The upper-case form that `str::to_uppercase` of the standard library
/// gives a string, as a function of its characters. It follows the Unicode
/// case tables and may be longer than the string itself.
pub uninterp spec fn uppercase_of(text: Seq<char>) -> Seq<char>;

/// Upper-cases `text` with `str::to_uppercase`. The result depends on the
/// characters of `text` alone; nothing else is claimed of it here.
#[verifier::external_body]
pub(crate) fn to_uppercase(text: &str) -> (upper: String)
    ensures
        upper@ == uppercase_of(text@),
{
    text.to_uppercase()
}

/// Shortens `text` for display, see [`display_line`].
pub fn truncate_for_display(text: &str) -> (shown: String)
    ensures
        shown@ == display_line(text@),
{
    if text.unicode_len() > MAX_LINE_CHARS {
        let head = text.substring_char(0, KEPT_CHARS);
        let mut shown = head.to_owned();
        shown.append("...");
        shown
    } else {
        text.to_owned()
    }
}

/// Horizontal origin that centres a line of `count` characters, each
/// `advance` pixels wide, in an image `width` pixels wide. It is negative
/// where the line is wider than the image.
pub open spec fn centered_origin(width: int, count: int, advance: int) -> int {
    (width - count * advance) / 2
}

/// Executable form of [`centered_origin`].
pub fn center_line(width: usize, count: usize, advance: u8) -> (origin: i128)
    ensures
        origin == centered_origin(width as int, count as int, advance as int),
{
    assert(0 <= count * advance <= usize::MAX * 255) by (nonlinear_arith)
        requires
            count <= usize::MAX,
            advance <= 255,
    ;
    let line_width: i128 = (count as i128) * (advance as i128);
    let slack: i128 = width as i128 - line_width;
    if slack >= 0 {
        slack / 2
    } else {
        -((1 - slack) / 2)
    }
}

} // verus!
