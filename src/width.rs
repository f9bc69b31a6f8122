use vstd::prelude::*;
use unicode_width::UnicodeWidthChar;

verus! {

/// The display width that the Unicode width tables assign to a character,
/// `None` for a control character.
pub uninterp spec fn char_width_of(c: char) -> Option<usize>;

/// Columns a character occupies on the grid: control characters take none.
pub open spec fn cols(c: char) -> nat {
    match char_width_of(c) {
        Some(w) => w as nat,
        None => 0,
    }
}

/// Relies on `unicode_width::UnicodeWidthChar::width`: the width depends on the
/// character alone; characters below U+0020 are control characters and get
/// `None`, printable ASCII gets one column.
#[verifier::external_body]
fn unicode_char_width(c: char) -> (r: Option<usize>)
    ensures
        r == char_width_of(c),
        (c as u32) < 0x20 ==> r.is_none(),
        0x20 <= (c as u32) < 0x7f ==> r == Some(1usize),
{
    UnicodeWidthChar::width(c)
}

/// Columns taken by `c`, zero for a control character.
pub fn char_cols(c: char) -> (r: usize)
    ensures
        r as nat == cols(c),
        c == '\n' ==> r == 0,
        0x20 <= (c as u32) < 0x7f ==> r == 1,
{
    match unicode_char_width(c) {
        Some(w) => w,
        None => 0,
    }
}

} // verus!
