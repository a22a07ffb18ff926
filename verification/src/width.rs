//! Display-column widths of characters and strings, as the terminal renders
//! them. The widths themselves come from the `unicode-width` crate; everything
//! that sums or compares them is verified against the names declared here.
use vstd::prelude::*;

verus! {

/// Display width of one character: what `unicode_width::UnicodeWidthChar::width`
/// returns, with control characters counted as 0.
pub uninterp spec fn char_width_of(c: char) -> nat;

/// Display width of a string: what `unicode_width::UnicodeWidthStr::width`
/// returns. A function of the characters alone.
pub uninterp spec fn str_width_of(s: Seq<char>) -> nat;

/// The summed display width of a row of characters.
pub open spec fn spec_chars_width(s: Seq<char>) -> nat
    decreases s.len(),
{
    if s.len() == 0 {
        0
    } else {
        spec_chars_width(s.drop_last()) + char_width_of(s.last())
    }
}

/// The summed display width of a row of characters, clamped to what a
/// screen coordinate can hold.
pub open spec fn spec_chars_width_clamped(s: Seq<char>) -> int {
    if spec_chars_width(s) > 0xffff {
        0xffff
    } else {
        spec_chars_width(s) as int
    }
}

/// Relies on unicode_width::UnicodeWidthChar::width: the width of a character
/// is a function of the character alone, and its rules assign every character
/// a width of at most 3 columns (control characters get none; we count them
/// as 0, as the callers in this crate do).
#[verifier::external_body]
pub(crate) fn char_display_width(c: char) -> (r: usize)
    ensures
        r == char_width_of(c),
        r <= 3,
{
    unicode_width::UnicodeWidthChar::width(c).unwrap_or(0)
}

/// Relies on unicode_width::UnicodeWidthStr::width: the width of a string is a
/// function of its characters alone; it is the sum of the per-character widths
/// except for a few ligature sequences whose joint width is smaller, and each
/// character contributes at most 3 columns.
#[verifier::external_body]
pub(crate) fn str_display_width(s: &str) -> (r: usize)
    ensures
        r == str_width_of(s@),
        r <= 3 * s@.len(),
        s@.len() == 0 ==> r == 0,
{
    unicode_width::UnicodeWidthStr::width(s)
}

} // verus!
