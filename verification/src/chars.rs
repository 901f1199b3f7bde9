//! Character classes the scanners branch on.
//!
//! Three of them are Unicode properties that are looked up in tables outside
//! this crate: `White_Space` in the standard library, `XID_Start` and
//! `XID_Continue` in `unicode-ident`. What those lookups answer is not proved
//! here. Each answer has a name, and the contracts of this crate speak of the
//! names; nothing is said of the value of a name on any character.

use vstd::prelude::*;

verus! {

/// What `char::is_whitespace` answers for `c`: whether `c` has the Unicode
/// property `White_Space`.
pub uninterp spec fn white_space(c: char) -> bool;

/// What `unicode_ident::is_xid_start` answers for `c`: whether `c` has the
/// Unicode property `XID_Start`.
pub uninterp spec fn xid_start(c: char) -> bool;

/// What `unicode_ident::is_xid_continue` answers for `c`: whether `c` has the
/// Unicode property `XID_Continue`.
pub uninterp spec fn xid_continue(c: char) -> bool;

/// Assumed of `char::is_whitespace`: its answer depends on the character
/// alone. The answer is called [`white_space`]; nothing more is claimed.
pub assume_specification[ char::is_whitespace ](c: char) -> (b: bool)
    ensures
        b == white_space(c),
;

/// Assumed of `unicode_ident::is_xid_start`: its answer depends on the
/// character alone. The answer is called [`xid_start`]; nothing more is
/// claimed.
pub assume_specification[ unicode_ident::is_xid_start ](ch: char) -> (b: bool)
    ensures
        b == xid_start(ch),
;

/// Assumed of `unicode_ident::is_xid_continue`: its answer depends on the
/// character alone. The answer is called [`xid_continue`]; nothing more is
/// claimed.
pub assume_specification[ unicode_ident::is_xid_continue ](ch: char) -> (b: bool)
    ensures
        b == xid_continue(ch),
;

/// Line terminators: LF, CR, NEL, LINE SEPARATOR and PARAGRAPH SEPARATOR.
pub open spec fn newline(c: char) -> bool {
    c == '\n' || c == '\r' || c == '\u{0085}' || c == '\u{2028}' || c == '\u{2029}'
}

/// Whitespace that does not end a line.
pub open spec fn space(c: char) -> bool {
    !newline(c) && white_space(c)
}

/// Characters that may begin an identifier.
pub open spec fn ident_start(c: char) -> bool {
    c == '_' || xid_start(c)
}

/// Characters that may continue an identifier.
pub open spec fn ident_continue(c: char) -> bool {
    xid_continue(c)
}

/// ASCII decimal digits.
pub open spec fn digit(c: char) -> bool {
    '0' <= c <= '9'
}

/// ASCII hexadecimal digits, in either case.
pub open spec fn hex_digit(c: char) -> bool {
    digit(c) || 'a' <= c <= 'f' || 'A' <= c <= 'F'
}

/// Whether `c` ends a line.
pub fn is_newline(c: char) -> (b: bool)
    ensures
        b == newline(c),
{
    c == '\n' || c == '\r' || c == '\u{0085}' || c == '\u{2028}' || c == '\u{2029}'
}

/// Whether `c` is whitespace that ends no line.
pub fn is_space(c: char) -> (b: bool)
    ensures
        b == space(c),
{
    !is_newline(c) && c.is_whitespace()
}

/// Whether `c` may begin an identifier: an underscore, or `XID_Start`.
pub fn is_ident_start(c: char) -> (b: bool)
    ensures
        b == ident_start(c),
{
    c == '_' || unicode_ident::is_xid_start(c)
}

/// Whether `c` may continue an identifier: `XID_Continue`.
pub fn is_ident_continue(c: char) -> (b: bool)
    ensures
        b == ident_continue(c),
{
    unicode_ident::is_xid_continue(c)
}

/// Whether `c` is one of `0` to `9`.
pub fn is_digit(c: char) -> (b: bool)
    ensures
        b == digit(c),
{
    '0' <= c && c <= '9'
}

/// Whether `c` is one of `0` to `9`, `a` to `f` or `A` to `F`.
pub fn is_hex_digit(c: char) -> (b: bool)
    ensures
        b == hex_digit(c),
{
    is_digit(c) || ('a' <= c && c <= 'f') || ('A' <= c && c <= 'F')
}

} // verus!
