//! Display-width accounting for characters.
//!
//! A character occupies 0, 1 or 2 terminal columns; a control character
//! has no measurable width at all.  The lookup itself is delegated to the
//! `unicode-width` crate; everything that is proved about the overlay's
//! cursor is stated over the abstract width of each character.

use vstd::prelude::*;

verus! {

/// Displayed width in terminal columns of a character, exactly as
/// `unicode_width::UnicodeWidthChar::width` reports it: `None` for a
/// control character, otherwise the number of columns the character
/// occupies.  The value depends on the character alone.
pub uninterp spec fn display_width(c: char) -> Option<usize>;

/// The width a character contributes to the cursor column: an
/// unmeasurable (control) character counts as zero columns.
pub open spec fn width_of(c: char) -> nat {
    match display_width(c) {
        Option::Some(w) => w as nat,
        Option::None => 0,
    }
}

/// Sum of the cursor widths of all characters of `s`, in order.
pub open spec fn sum_widths(s: Seq<char>) -> nat
    decreases s.len(),
{
    if s.len() == 0 {
        0
    } else {
        sum_widths(s.drop_last()) + width_of(s.last())
    }
}

/// Appending one character adds exactly that character's width.
pub proof fn lemma_sum_widths_push(s: Seq<char>, c: char)
    ensures
        sum_widths(s.push(c)) == sum_widths(s) + width_of(c),
{
    assert(s.push(c).drop_last() =~= s);
    assert(s.push(c).last() == c);
}

/// Relies on `unicode_width::UnicodeWidthChar::width`: the displayed
/// width of a character in columns (`None` for a control character), a
/// pure table lookup depending on the character alone.
#[verifier::external_body]
pub(crate) fn char_width(c: char) -> (r: Option<usize>)
    ensures
        r == display_width(c),
{
    unicode_width::UnicodeWidthChar::width(c)
}

} // verus!

