//! Which names can stand as an identifier token.

use vstd::prelude::*;

verus! {

/// Whether a character has the Unicode property `XID_Start`.
pub uninterp spec fn xid_start(c: char) -> bool;

/// Whether a character has the Unicode property `XID_Continue`.
pub uninterp spec fn xid_continue(c: char) -> bool;

/// `unicode_ident::is_xid_start`: looks the character up in the tables of `XID_Start`.
#[verifier::external_body]
fn is_xid_start(c: char) -> (found: bool)
    ensures
        found == xid_start(c),
{
    unicode_ident::is_xid_start(c)
}

/// `unicode_ident::is_xid_continue`: looks the character up in the tables of `XID_Continue`.
#[verifier::external_body]
fn is_xid_continue(c: char) -> (found: bool)
    ensures
        found == xid_continue(c),
{
    unicode_ident::is_xid_continue(c)
}

/// A letter of the English alphabet, small or capital.
pub open spec fn ascii_letter(c: char) -> bool {
    ('a' <= c && c <= 'z') || ('A' <= c && c <= 'Z')
}

/// A decimal digit.
pub open spec fn ascii_digit(c: char) -> bool {
    '0' <= c && c <= '9'
}

/// A character that may open an identifier. The ASCII letters are named apart
/// from the Unicode property that they have, so that a written name can be
/// judged without the tables.
pub open spec fn ident_start(c: char) -> bool {
    c == '_' || ascii_letter(c) || xid_start(c)
}

/// A character that may follow in an identifier.
pub open spec fn ident_continue(c: char) -> bool {
    c == '_' || ascii_letter(c) || ascii_digit(c) || xid_continue(c)
}

/// A name that an identifier token accepts: not empty, an opening character,
/// then following characters only.
pub open spec fn is_identifier(name: Seq<char>) -> bool {
    &&& name.len() > 0
    &&& ident_start(name[0])
    &&& forall|i: int| 1 <= i < name.len() ==> ident_continue(#[trigger] name[i])
}

/// Every name of the sequence is an identifier.
pub open spec fn all_identifiers(names: Seq<Seq<char>>) -> bool {
    forall|i: int| 0 <= i < names.len() ==> is_identifier(#[trigger] names[i])
}

/// Tells whether a character may open an identifier.
fn starts_identifier(c: char) -> (ok: bool)
    ensures
        ok == ident_start(c),
{
    c == '_' || (c >= 'a' && c <= 'z') || (c >= 'A' && c <= 'Z') || is_xid_start(c)
}

/// Tells whether a character may follow in an identifier.
fn continues_identifier(c: char) -> (ok: bool)
    ensures
        ok == ident_continue(c),
{
    c == '_' || (c >= 'a' && c <= 'z') || (c >= 'A' && c <= 'Z') || (c >= '0' && c <= '9')
        || is_xid_continue(c)
}

/// Tells whether `name` can stand as an identifier token.
pub fn is_ident(name: &str) -> (ok: bool)
    ensures
        ok == is_identifier(name@),
{
    let mut first = true;
    for c in it: name.chars()
        invariant
            it.seq() == name@,
            first == (it.index() == 0),
            !first ==> ident_start(name@[0]),
            forall|j: int| 1 <= j < it.index() ==> ident_continue(#[trigger] name@[j]),
    {
        if first {
            if !starts_identifier(c) {
                return false;
            }
            first = false;
        } else if !continues_identifier(c) {
            return false;
        }
    }
    !first
}

} // verus!
