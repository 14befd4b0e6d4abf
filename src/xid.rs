//! Unicode identifier character classes.

use unicode_xid::UnicodeXID;
use vstd::prelude::*;

verus! {

/// Whether a character has the Unicode `XID_Start` property.
pub uninterp spec fn xid_start(c: char) -> bool;

/// Whether a character has the Unicode `XID_Continue` property.
pub uninterp spec fn xid_continue(c: char) -> bool;

pub open spec fn is_ascii_letter(c: char) -> bool {
    ('a' <= c && c <= 'z') || ('A' <= c && c <= 'Z')
}

/// Characters that may start an identifier: ASCII letters, and beyond ASCII
/// those with `XID_Start`.
pub open spec fn id_start(c: char) -> bool {
    if (c as u32) < 128 {
        is_ascii_letter(c)
    } else {
        xid_start(c)
    }
}

/// Characters that may continue an identifier: ASCII letters, digits and `_`,
/// and beyond ASCII those with `XID_Continue`.
pub open spec fn id_continue(c: char) -> bool {
    if (c as u32) < 128 {
        is_ascii_letter(c) || ('0' <= c && c <= '9') || c == '_'
    } else {
        xid_continue(c)
    }
}

/// Relies on unicode_xid's `UnicodeXID::is_xid_start` for `char`: a lookup of
/// the `XID_Start` table, which for ASCII accepts exactly the letters.
#[verifier::external_body]
pub(crate) fn is_xid_start(c: char) -> (r: bool)
    ensures
        r == xid_start(c),
        (c as u32) < 128 ==> (r <==> is_ascii_letter(c)),
{
    UnicodeXID::is_xid_start(c)
}

/// Relies on unicode_xid's `UnicodeXID::is_xid_continue` for `char`: a lookup
/// of the `XID_Continue` table, which for ASCII accepts letters, digits and `_`.
#[verifier::external_body]
pub(crate) fn is_xid_continue(c: char) -> (r: bool)
    ensures
        r == xid_continue(c),
        (c as u32) < 128 ==> (r <==> (is_ascii_letter(c) || ('0' <= c && c <= '9') || c == '_')),
{
    UnicodeXID::is_xid_continue(c)
}

} // verus!
