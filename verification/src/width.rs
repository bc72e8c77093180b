//! Terminal column widths, as the `unicode_width` crate computes them.
use unicode_width::UnicodeWidthChar;
use unicode_width::UnicodeWidthStr;
use vstd::prelude::*;

verus! {

/// Columns that `UnicodeWidthStr::width` gives a string.
pub uninterp spec fn str_width_of(s: Seq<char>) -> nat;

/// What `UnicodeWidthChar::width` gives a character (`None` for control
/// characters).
pub uninterp spec fn char_width_of(c: char) -> Option<usize>;

/// Printable ASCII: `' '` up to `'~'`.
pub open spec fn is_printable_ascii(c: char) -> bool {
    ' ' <= c && c <= '~'
}

/// Every character of `s` is printable ASCII.
pub open spec fn all_printable_ascii(s: Seq<char>) -> bool {
    forall|i: int| 0 <= i < s.len() ==> is_printable_ascii(#[trigger] s[i])
}

/// Every character of `s` is a blank.
pub open spec fn all_blanks(s: Seq<char>) -> bool {
    forall|i: int| 0 <= i < s.len() ==> #[trigger] s[i] == ' '
}

/// `UnicodeWidthStr::width(s)`.
///
/// Besides naming the result, the contract records what the crate's
/// right-to-left width pass (`lookup::str_width`) shows for printable ASCII:
/// such a character always counts one column and leaves no state behind, and
/// a blank also never changes the width of the characters before it. Hence
/// printable ASCII text appended to a string, or blanks put in front of it
/// or between two parts, add exactly one column each.
#[verifier::external_body]
pub(crate) fn str_width(s: &str) -> (w: usize)
    ensures
        w == str_width_of(s@),
        all_printable_ascii(s@) ==> w == s@.len(),
        forall|t: Seq<char>|
            #![trigger str_width_of(s@ + t)]
            all_printable_ascii(t) ==> str_width_of(s@ + t) == w + t.len(),
        forall|t: Seq<char>|
            #![trigger str_width_of(t + s@)]
            all_blanks(t) ==> str_width_of(t + s@) == t.len() + w,
{
    UnicodeWidthStr::width(s)
}

/// `UnicodeWidthChar::width(c)`: `Some(1)` for printable ASCII, `None` for
/// the C0 and C1 control characters, and the table value otherwise.
#[verifier::external_body]
pub(crate) fn char_width(c: char) -> (w: Option<usize>)
    ensures
        w == char_width_of(c),
        is_printable_ascii(c) ==> w == Some(1usize),
        (c < ' ' || ('\u{7f}' <= c && c < '\u{a0}')) ==> w is None,
{
    UnicodeWidthChar::width(c)
}

/// `c.width().unwrap_or(0)`.
pub open spec fn char_cols(c: char) -> nat {
    match char_width_of(c) {
        Some(w) => w as nat,
        None => 0,
    }
}

/// `c.width().unwrap_or(0)`.
pub fn char_cols_of(c: char) -> (w: usize)
    ensures
        w as nat == char_cols(c),
        is_printable_ascii(c) ==> w == 1,
{
    match char_width(c) {
        Some(w) => w,
        None => 0,
    }
}

} // verus!
