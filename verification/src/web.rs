//! What the library knows of HTTP: the statuses it answers with, the header it
//! reads and the text of a peer's status.

use crate::json::{Json, JsonObject, JsonView};
use vstd::prelude::*;

verus! {

/// `HeaderMap` of the `http` crate, the headers of a request.
#[verifier::external_type_specification]
#[verifier::external_body]
#[verifier::reject_recursive_types(T)]
pub struct ExHeaderMap<T>(axum::http::HeaderMap<T>);

/// `HeaderValue` of the `http` crate, the value under one header name.
#[verifier::external_type_specification]
#[verifier::external_body]
pub struct ExHeaderValue(axum::http::HeaderValue);

/// The headers of a request: for each header name, in small letters, the bytes of
/// the first value that came under it.
pub uninterp spec fn header_fields(headers: axum::http::HeaderMap) -> Map<Seq<char>, Seq<u8>>;

/// The text of a status code: the number and its reason phrase.
pub uninterp spec fn status_text(code: u16) -> Seq<char>;

/// The bytes of the `Authorization` header, where there is one.
pub open spec fn authorization_of(headers: axum::http::HeaderMap) -> Option<Seq<u8>> {
    if header_fields(headers).contains_key("authorization"@) {
        Some(header_fields(headers)["authorization"@])
    } else {
        None
    }
}

/// `HeaderMap::get` for the name `authorization`: the first value under that name,
/// and nothing where there is none.
#[verifier::external_body]
pub(crate) fn authorization_header(headers: &axum::http::HeaderMap) -> (value: Option<&[u8]>)
    ensures
        match value {
            Some(bytes) => header_fields(*headers).contains_key("authorization"@) && bytes@
                == header_fields(*headers)["authorization"@],
            None => !header_fields(*headers).contains_key("authorization"@),
        },
{
    headers.get(axum::http::header::AUTHORIZATION).map(|v| v.as_bytes())
}

/// `Display` of `StatusCode`. The text depends on the code alone and has the name
/// [`status_text`]; for a code that is no status, outside of 100 to 999, it is the
/// text of the error that says so.
#[verifier::external_body]
pub(crate) fn status_code_text(code: u16) -> (text: String)
    ensures
        text@ == status_text(code),
{
    match reqwest::StatusCode::from_u16(code) {
        Ok(status) => status.to_string(),
        Err(invalid) => invalid.to_string(),
    }
}

/// Whether a status code stands for success.
pub open spec fn is_success_code(code: u16) -> bool {
    200 <= code < 300
}

/// The statuses that the endpoints answer with.
#[derive(Debug, Clone, Copy, PartialEq, Eq, Structural)]
pub enum HttpStatus {
    Success,
    Unauthorized,
    NotFound,
    ServiceUnavailable,
}

impl HttpStatus {
    /// The number of the status.
    pub open spec fn code(self) -> u16 {
        match self {
            HttpStatus::Success => 200,
            HttpStatus::Unauthorized => 401,
            HttpStatus::NotFound => 404,
            HttpStatus::ServiceUnavailable => 503,
        }
    }

    /// The number of the status.
    pub fn as_u16(&self) -> (number: u16)
        ensures
            number == self.code(),
    {
        match self {
            HttpStatus::Success => 200,
            HttpStatus::Unauthorized => 401,
            HttpStatus::NotFound => 404,
            HttpStatus::ServiceUnavailable => 503,
        }
    }
}

/// The answer to an HTTP request: its status and its JSON body.
#[derive(Debug)]
pub struct Reply {
    pub status: HttpStatus,
    pub body: Json,
}

/// The mathematical model of an answer.
#[verifier::ext_equal]
pub struct ReplyView {
    pub status: HttpStatus,
    pub body: JsonView,
}

impl View for Reply {
    type V = ReplyView;

    open spec fn view(&self) -> ReplyView {
        ReplyView { status: self.status, body: self.body@ }
    }
}

/// The body of an answer that only says what went wrong.
pub open spec fn error_body(message: Seq<char>) -> JsonView {
    JsonView::Object(Map::empty().insert("error"@, JsonView::Text(message)))
}

/// The body of an answer that only says what went wrong.
pub(crate) fn plain_error(message: &str) -> (body: Json)
    ensures
        body@ == error_body(message@),
{
    Json::Object(JsonObject::new().with("error", Json::text(message)))
}

/// The numbers of the statuses.
pub proof fn law_status_codes()
    ensures
        HttpStatus::Success.code() == 200,
        HttpStatus::Unauthorized.code() == 401,
        HttpStatus::NotFound.code() == 404,
        HttpStatus::ServiceUnavailable.code() == 503,
{
}

/// A body that says what went wrong has that text under `error`, and nothing else.
pub proof fn law_error_body(message: Seq<char>, key: Seq<char>)
    ensures
        error_body(message).get("error"@) == Some(JsonView::Text(message)),
        error_body(message).get(key) is Some ==> key == "error"@,
{
}

} // verus!
