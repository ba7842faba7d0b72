//! Bearer authentication of incoming requests.

use crate::text::starts_with;
use crate::web;
use crate::web::{authorization_header, HttpStatus};
use vstd::prelude::*;
use vstd::string::*;
use vstd::utf8::*;

verus! {

/// Whether a byte of a header value is a visible ASCII character, a space or a tab.
pub open spec fn is_visible_ascii(b: u8) -> bool {
    32 <= b < 127 || b == 9
}

/// The text of a header value: empty where a byte is not visible ASCII.
pub open spec fn header_text(value: Seq<u8>) -> Seq<char> {
    if forall|i: int| 0 <= i < value.len() ==> is_visible_ascii(#[trigger] value[i]) {
        value.map_values(|b: u8| b as char)
    } else {
        Seq::empty()
    }
}

/// The token that an `Authorization` header presents: what follows `Bearer `. A header
/// that is missing or of another kind presents none.
pub open spec fn presented_token(authorization: Option<Seq<u8>>) -> Option<Seq<char>> {
    match authorization {
        Some(value) => if "Bearer "@.is_prefix_of(header_text(value)) {
            Some(header_text(value).skip("Bearer "@.len() as int))
        } else {
            None
        },
        None => None,
    }
}

/// Whether a request with this `Authorization` header is let in: always where no
/// token is configured, else where it presents that token.
pub open spec fn bearer_accepted(
    authorization: Option<Seq<u8>>,
    expected: Option<Seq<char>>,
) -> bool {
    match expected {
        Some(token) => presented_token(authorization) == Some(token),
        None => true,
    }
}

/// Whether two strings are the same text. Every byte of the longer one is looked at,
/// whatever the outcome, so that the time taken tells nothing of where they differ.
pub fn constant_time_eq(a: &str, b: &str) -> (same: bool)
    ensures
        same == (a@ == b@),
{
    let left: &[u8] = a.as_bytes();
    let right: &[u8] = b.as_bytes();
    let longest: usize = if left.len() >= right.len() {
        left.len()
    } else {
        right.len()
    };
    let mut difference: u8 = 0;
    let mut i: usize = 0;
    while i < longest
        invariant
            left.len() <= longest,
            right.len() <= longest,
            longest == left.len() || longest == right.len(),
            i <= longest,
            left.len() == right.len() ==> (difference == 0 <==> forall|j: int|
                0 <= j < i ==> left@[j] == right@[j]),
        decreases longest - i,
    {
        let x: u8 = if i < left.len() {
            left[i]
        } else {
            0
        };
        let y: u8 = if i < right.len() {
            right[i]
        } else {
            0
        };
        let before: u8 = difference;
        assert((before | (x ^ y)) == 0 <==> before == 0 && x == y) by (bit_vector);
        difference = before | (x ^ y);
        i += 1;
    }
    let same: bool = left.len() == right.len() && difference == 0;
    proof {
        if same {
            assert(left@ =~= right@);
        }
        encode_utf8_decode_utf8(a@);
        encode_utf8_decode_utf8(b@);
    }
    same
}

/// The text of a header value, character by character.
fn header_chars(value: &[u8]) -> (chars: Vec<char>)
    ensures
        chars@ == header_text(value@),
{
    let mut chars: Vec<char> = Vec::new();
    let mut i: usize = 0;
    while i < value.len()
        invariant
            i <= value.len(),
            forall|j: int| 0 <= j < i ==> is_visible_ascii(#[trigger] value@[j]),
            chars@ == value@.take(i as int).map_values(|b: u8| b as char),
        decreases value.len() - i,
    {
        let b: u8 = value[i];
        if !((32 <= b && b < 127) || b == 9) {
            return Vec::new();
        }
        chars.push(b as char);
        proof {
            assert(value@.take(i + 1) =~= value@.take(i as int).push(b));
            assert(value@.take(i + 1).map_values(|b: u8| b as char) =~= value@.take(
                i as int,
            ).map_values(|b: u8| b as char).push(b as char));
        }
        i += 1;
    }
    assert(value@.take(value@.len() as int) =~= value@);
    chars
}

/// The bytes of a header, as a sequence.
pub open spec fn bytes_view(value: Option<&[u8]>) -> Option<Seq<u8>> {
    match value {
        Some(bytes) => Some(bytes@),
        None => None,
    }
}

/// The token that an `Authorization` header presents.
fn token_in(authorization: Option<&[u8]>) -> (token: Option<String>)
    ensures
        presented_token(bytes_view(authorization)) == (match token {
            Some(s) => Some(s@),
            None => None,
        }),
{
    let chars: Vec<char> = match authorization {
        Some(value) => header_chars(value),
        None => return None,
    };
    if !starts_with(&chars, "Bearer ") {
        return None;
    }
    let mut token: String = String::new();
    let mut i: usize = "Bearer ".unicode_len();
    while i < chars.len()
        invariant
            "Bearer "@.len() <= i <= chars.len(),
            token@ == chars@.subrange("Bearer "@.len() as int, i as int),
        decreases chars.len() - i,
    {
        token.push(chars[i]);
        i += 1;
    }
    Some(token)
}

/// Decides on the `Authorization` header's value: `Ok` where no token is configured
/// or the header presents that token, and the status to refuse with otherwise.
pub fn check_bearer_value(authorization: Option<&[u8]>, expected: Option<&str>) -> (checked: Result<
    (),
    HttpStatus,
>)
    ensures
        checked == (if bearer_accepted(
            bytes_view(authorization),
            match expected {
                Some(token) => Some(token@),
                None => None,
            },
        ) {
            Ok::<(), HttpStatus>(())
        } else {
            Err(HttpStatus::Unauthorized)
        }),
{
    match expected {
        Some(wanted) => match token_in(authorization) {
            Some(token) => if constant_time_eq(token.as_str(), wanted) {
                Ok(())
            } else {
                Err(HttpStatus::Unauthorized)
            },
            None => Err(HttpStatus::Unauthorized),
        },
        None => Ok(()),
    }
}

/// Decides on a request's headers: `Ok` where the `Authorization` header matches the
/// configured token, or where no token is configured, and the status to refuse with
/// otherwise.
pub fn check_bearer(headers: &axum::http::HeaderMap, expected: Option<&str>) -> (checked: Result<
    (),
    HttpStatus,
>)
    ensures
        checked == (if bearer_accepted(
            web::authorization_of(*headers),
            match expected {
                Some(token) => Some(token@),
                None => None,
            },
        ) {
            Ok::<(), HttpStatus>(())
        } else {
            Err(HttpStatus::Unauthorized)
        }),
{
    check_bearer_value(authorization_header(headers), expected)
}

/// Without a configured token every caller is let in. With one, even an empty one, a
/// caller is let in just where the header is `Bearer ` and that token, in visible ASCII.
pub proof fn law_bearer(authorization: Option<Seq<u8>>, token: Seq<char>)
    ensures
        bearer_accepted(authorization, None),
        bearer_accepted(authorization, Some(token)) <==> (authorization matches Some(value)
            && header_text(value) == "Bearer "@ + token),
{
    if let Some(value) = authorization {
        let text = header_text(value);
        if bearer_accepted(authorization, Some(token)) {
            assert("Bearer "@.is_prefix_of(text));
            assert(text =~= "Bearer "@ + text.skip("Bearer "@.len() as int));
        }
        if text == "Bearer "@ + token {
            assert("Bearer "@ =~= text.subrange(0, "Bearer "@.len() as int));
            assert(text.skip("Bearer "@.len() as int) =~= token);
        }
    }
}

/// With a configured token, a caller is let in just where the bytes of the header are those
/// of `Bearer ` and then of the token, one for one, all of them visible ASCII, spaces or
/// tabs. A caller without a header is not.
pub proof fn law_bearer_bytes(value: Seq<u8>, token: Seq<char>)
    ensures
        !bearer_accepted(None, Some(token)),
        bearer_accepted(Some(value), Some(token)) <==> {
            &&& value.len() == 7 + token.len()
            &&& value.take(7) == seq![66u8, 101u8, 97u8, 114u8, 101u8, 114u8, 32u8]
            &&& forall|i: int|
                0 <= i < token.len() ==> value[7 + i] as int == (#[trigger] token[i]) as int
            &&& forall|i: int| 0 <= i < value.len() ==> 32 <= #[trigger] value[i] < 127 || value[i]
                == 9
        },
{
    reveal_strlit("Bearer ");
    let text = header_text(value);
    let start = seq![66u8, 101u8, 97u8, 114u8, 101u8, 114u8, 32u8];
    law_bearer(Some(value), token);
    assert(header_text(Seq::empty()) =~= Seq::empty());
    if bearer_accepted(Some(value), Some(token)) {
        assert(text == "Bearer "@ + token);
        assert(text.len() > 0);
        assert(forall|i: int| 0 <= i < value.len() ==> is_visible_ascii(#[trigger] value[i]));
        assert(text.len() == value.len());
        assert forall|i: int| 0 <= i < 7 implies value.take(7)[i] == start[i] by {
            assert(text[i] == value[i] as char);
            assert(text[i] == "Bearer "@[i]);
        }
        assert(value.take(7) =~= start);
        assert forall|i: int| 0 <= i < token.len() implies value[7 + i] as int
            == (#[trigger] token[i]) as int by {
            assert(text[7 + i] == value[7 + i] as char);
            assert(text[7 + i] == token[i]);
        }
        assert forall|i: int| 0 <= i < value.len() implies 32 <= #[trigger] value[i] < 127
            || value[i] == 9 by {
            assert(is_visible_ascii(value[i]));
        }
    }
    if value.len() == 7 + token.len() && value.take(7) == start && (forall|i: int|
        0 <= i < token.len() ==> value[7 + i] as int == (#[trigger] token[i]) as int) && (forall|
        i: int,
    |
        0 <= i < value.len() ==> 32 <= #[trigger] value[i] < 127 || value[i] == 9) {
        assert forall|i: int| 0 <= i < value.len() implies is_visible_ascii(#[trigger] value[i]) by {
        }
        assert forall|i: int| 0 <= i < text.len() implies text[i] == ("Bearer "@ + token)[i] by {
            assert(text[i] == value[i] as char);
            if i < 7 {
                assert(value.take(7)[i] == start[i]);
            } else {
                assert(value[7 + (i - 7)] as int == token[i - 7] as int);
            }
        }
        assert(text =~= "Bearer "@ + token);
    }
}

/// A header is let in for one token at most.
pub proof fn law_one_token(authorization: Option<Seq<u8>>, token: Seq<char>, other: Seq<char>)
    requires
        bearer_accepted(authorization, Some(token)),
        bearer_accepted(authorization, Some(other)),
    ensures
        token == other,
{
}

/// The header that is read is the one under the name `authorization`, and there is none
/// where nothing came under that name.
pub proof fn law_header_that_is_read(headers: axum::http::HeaderMap)
    ensures
        web::authorization_of(headers) is Some <==> web::header_fields(headers).contains_key(
            "authorization"@,
        ),
        web::header_fields(headers).contains_key("authorization"@) ==> web::authorization_of(
            headers,
        ) == Some(web::header_fields(headers)["authorization"@]),
{
}

} // verus!
