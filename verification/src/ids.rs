//! Fresh random identifiers.
use vstd::prelude::*;

verus! {

/// Whether `c` is a lowercase hexadecimal digit.
pub open spec fn lower_hex_digit(c: char) -> bool {
    ('0' <= c && c <= '9') || ('a' <= c && c <= 'f')
}

/// `uuid::Uuid::new_v4()`, rendered by its `Display` impl: a random version-4 UUID
/// in the hyphenated form of 36 characters, lowercase hexadecimal digits with
/// hyphens after the 8th, 12th, 16th and 20th digit. Which UUID comes out is left open.
#[verifier::external_body]
pub(crate) fn random_uuid() -> (r: String)
    ensures
        r@.len() == 36,
        forall|i: int| 0 <= i < 36 ==> if i == 8 || i == 13 || i == 18 || i == 23 {
            r@[i] == '-'
        } else {
            lower_hex_digit(#[trigger] r@[i])
        },
{
    uuid::Uuid::new_v4().to_string()
}

/// `uuid::Uuid::new_v4().simple()`, rendered by its `Display` impl: a random
/// version-4 UUID as 32 lowercase hexadecimal digits. Which UUID comes out is
/// left open.
#[verifier::external_body]
pub(crate) fn random_uuid_simple() -> (r: String)
    ensures
        r@.len() == 32,
        forall|i: int| 0 <= i < 32 ==> lower_hex_digit(#[trigger] r@[i]),
{
    uuid::Uuid::new_v4().simple().to_string()
}

} // verus!
