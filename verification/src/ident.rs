//! The identifier generator.

use vstd::prelude::*;

verus! {

/// A digit or one of `a` to `f`.
pub open spec fn is_lower_hex(c: char) -> bool {
    ('0' <= c && c <= '9') || ('a' <= c && c <= 'f')
}

/// No part of an identifier: one of the four places of a hyphen.
pub open spec fn is_hyphen_place(i: int) -> bool {
    i == 8 || i == 13 || i == 18 || i == 23
}

/// The text of a random (version 4) UUID in its usual form: 36 characters,
/// hyphens after 8, 12, 16 and 20 lower-case hexadecimal digits, the version
/// digit `4` and a variant digit from `8` to `b`.
pub open spec fn is_identifier(text: Seq<char>) -> bool {
    &&& text.len() == 36
    &&& forall|i: int|
        0 <= i < 36 ==> if is_hyphen_place(i) {
            text[i] == '-'
        } else {
            is_lower_hex(#[trigger] text[i])
        }
    &&& text[14] == '4'
    &&& (text[19] == '8' || text[19] == '9' || text[19] == 'a' || text[19] == 'b')
}

/// A fresh identifier for a new entity: calls `uuid::Uuid::new_v4` and
/// writes the result with its `Display`, which is `to_string` on a `Uuid`.
///
/// Trusted: the text has the form [`is_identifier`]. `new_v4` sets the
/// version and variant bits of 128 random bits, and `Display` writes them as
/// hyphenated lower-case hexadecimal. Which identifier comes back is left
/// open, and two calls may give the same one: that they do not is a matter
/// of chance, not of this contract. `new_v4` panics where the operating
/// system gives no random bytes.
#[verifier::external_body]
pub(crate) fn fresh_identifier() -> (text: String)
    ensures
        is_identifier(text@),
{
    uuid::Uuid::new_v4().to_string()
}

} // verus!
