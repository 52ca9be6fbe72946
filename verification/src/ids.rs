//! Fresh identifiers for quarantined items and other records (`uuid`).

use vstd::prelude::*;

verus! {

/// A character of a hyphenated lower-case UUID.
pub open spec fn uuid_char(c: char) -> bool {
    ('0' <= c && c <= '9') || ('a' <= c && c <= 'f') || c == '-'
}

/// `Uuid::new_v4().to_string()`. Claimed, as `uuid`'s `Display` (lower-case
/// hyphenated form) writes it: 36 characters, each a hexadecimal digit or
/// `-`. Which identifier comes back is random and not stated.
#[verifier::external_body]
pub(crate) fn new_id() -> (r: String)
    ensures
        r@.len() == 36,
        forall|i: int| 0 <= i < 36 ==> uuid_char(#[trigger] r@[i]),
{
    uuid::Uuid::new_v4().to_string()
}

} // verus!
