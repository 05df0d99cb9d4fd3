//! Identities are handled as the textual form of an Internet Computer principal.
//! Whether a text is a well-formed principal is decided by the candid crate.

use vstd::prelude::*;

verus! {

/// Whether `candid::Principal::from_text` accepts the text.
pub uninterp spec fn principal_text_valid(text: Seq<char>) -> bool;

/// Relies on `candid::Principal::from_text`, which accepts a text exactly when
/// it is the (case-insensitive) textual form of a principal. The empty text
/// decodes to no bytes, which has no room for the checksum, so it is refused.
#[verifier::external_body]
fn principal_from_text_ok(text: &str) -> (r: bool)
    ensures
        r == principal_text_valid(text@),
        text@.len() == 0 ==> !r,
{
    candid::Principal::from_text(text).is_ok()
}

/// Whether `text` names a principal.
pub fn check_principal_text(text: &str) -> (r: bool)
    ensures
        r == principal_text_valid(text@),
{
    principal_from_text_ok(text)
}

} // verus!
