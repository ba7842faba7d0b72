//! Fresh identifiers for tasks, artifacts and requests.

use vstd::prelude::*;

verus! {

/// Whether a character is a hexadecimal digit, letters small.
pub open spec fn is_hex_digit(c: char) -> bool {
    '0' <= c <= '9' || 'a' <= c <= 'f'
}

/// Whether a text is a random (version 4) UUID in its usual form: five groups of
/// hexadecimal digits with hyphens between them, the version digit and the digit of
/// the variant in their places.
pub open spec fn is_random_uuid(s: Seq<char>) -> bool {
    &&& s.len() == 36
    &&& s[8] == '-' && s[13] == '-' && s[18] == '-' && s[23] == '-'
    &&& s[14] == '4'
    &&& s[19] == '8' || s[19] == '9' || s[19] == 'a' || s[19] == 'b'
    &&& forall|i: int|
        0 <= i < 36 && i != 8 && i != 13 && i != 18 && i != 23 ==> is_hex_digit(#[trigger] s[i])
}

/// `Uuid::new_v4` and its text. Of the random outcome it is claimed only that it has
/// the form of a version 4 UUID. It panics where the system has no random numbers to
/// give.
#[verifier::external_body]
pub(crate) fn new_uuid() -> (id: String)
    ensures
        is_random_uuid(id@),
{
    uuid::Uuid::new_v4().to_string()
}

} // verus!
