//! Display width of a character, as the `unicode-width` crate measures it.
use unicode_width::UnicodeWidthChar;
use vstd::prelude::*;

verus! {

/// What `UnicodeWidthChar::width` returns for a character.
pub uninterp spec fn unicode_width_of(c: char) -> Option<usize>;

/// Number of columns a cell holding `c` covers on screen: its unicode
/// width, or one column for a control character that has none.
pub open spec fn columns_of(c: char) -> nat {
    match unicode_width_of(c) {
        Some(w) => w as nat,
        None => 1,
    }
}

/// Relies on `unicode_width::UnicodeWidthChar::width` for `char`: printable
/// ASCII is one column wide, the C0 and C1 control characters have no width,
/// and its tables give no character more than three columns.
#[verifier::external_body]
fn unicode_width(c: char) -> (r: Option<usize>)
    ensures
        r == unicode_width_of(c),
        (' ' as u32 <= c as u32 && (c as u32) < 0x7f) ==> r == Some(1usize),
        ((c as u32) < ' ' as u32 || (0x7f <= c as u32 && (c as u32) < 0xa0)) ==> r is None,
        r matches Some(w) ==> w <= 3,
{
    c.width()
}

/// Columns covered by a cell holding `c`.
pub fn cell_columns(c: char) -> (r: usize)
    ensures
        r == columns_of(c),
        r <= 3,
        (' ' as u32 <= c as u32 && (c as u32) < 0x7f) ==> r == 1,
        ((c as u32) < ' ' as u32 || (0x7f <= c as u32 && (c as u32) < 0xa0)) ==> r == 1,
{
    match unicode_width(c) {
        Some(w) => w,
        None => 1,
    }
}

} // verus!
