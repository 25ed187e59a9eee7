//! Errors that a client sees.

use vstd::prelude::*;
use vstd::string::*;

use crate::text::{json_string, lemma_object, lemma_plain_json, object, push_json};

verus! {

/// The HTTP statuses that refusals use.
#[derive(Clone, Copy, Debug, PartialEq, Eq, Structural)]
pub enum StatusCode {
    BadRequest,
    Unauthorized,
    Conflict,
    PayloadTooLarge,
    UnsupportedMediaType,
    InternalServerError,
}

impl StatusCode {
    /// The number that stands for the status on the wire.
    pub open spec fn code(self) -> u16 {
        match self {
            StatusCode::BadRequest => 400,
            StatusCode::Unauthorized => 401,
            StatusCode::Conflict => 409,
            StatusCode::PayloadTooLarge => 413,
            StatusCode::UnsupportedMediaType => 415,
            StatusCode::InternalServerError => 500,
        }
    }

    /// The number that stands for the status on the wire.
    pub fn as_u16(&self) -> (n: u16)
        ensures
            n == self.code(),
    {
        match self {
            StatusCode::BadRequest => 400,
            StatusCode::Unauthorized => 401,
            StatusCode::Conflict => 409,
            StatusCode::PayloadTooLarge => 413,
            StatusCode::UnsupportedMediaType => 415,
            StatusCode::InternalServerError => 500,
        }
    }
}

/// An error the client should see, with the status that it maps to. The
/// message is one that the caller can act on.
#[derive(Debug)]
pub struct ApiError {
    pub status: StatusCode,
    pub message: String,
}

/// What an [`ApiError`] says.
pub ghost struct ApiErrorView {
    pub status: StatusCode,
    pub message: Seq<char>,
}

impl View for ApiError {
    type V = ApiErrorView;

    open spec fn view(&self) -> ApiErrorView {
        ApiErrorView { status: self.status, message: self.message@ }
    }
}

/// An error of a given status and message.
pub open spec fn api_error(status: StatusCode, message: Seq<char>) -> ApiErrorView {
    ApiErrorView { status, message }
}

/// The error for a request that presents no valid token.
pub open spec fn unauthorized() -> ApiErrorView {
    api_error(StatusCode::Unauthorized, "missing or invalid bearer token"@)
}

/// The envelope that OpenAI's API wraps errors in.
pub open spec fn error_body(message: Seq<char>) -> Seq<char> {
    "{\"error\":{\"message\":"@ + json_string(message)
        + ",\"type\":\"invalid_request_error\"}}"@
}

/// An error body is OpenAI's envelope, an object in an object, and holds the
/// message as it is, however long.
pub proof fn an_error_body_is_an_envelope(message: Seq<char>)
    ensures
        error_body(message) == object(
            seq![
                (
                    "error"@,
                    object(
                        seq![
                            ("message"@, json_string(message)),
                            ("type"@, json_string("invalid_request_error"@)),
                        ],
                    ),
                ),
            ],
        ),
{
    reveal_strlit("error");
    reveal_strlit("message");
    reveal_strlit("type");
    reveal_strlit("invalid_request_error");
    reveal_strlit("{\"error\":{\"message\":");
    reveal_strlit(",\"type\":\"invalid_request_error\"}}");
    lemma_plain_json("invalid_request_error"@);
    let inner = seq![
        ("message"@, json_string(message)),
        ("type"@, json_string("invalid_request_error"@)),
    ];
    lemma_object(inner);
    let outer = seq![("error"@, object(inner))];
    lemma_object(outer);
    assert(error_body(message) =~= object(outer));
}

impl ApiError {
    /// An error of a given status.
    pub fn new(status: StatusCode, message: String) -> (e: Self)
        ensures
            e@ == api_error(status, message@),
            e.status == status,
            e.message@ == message@,
    {
        ApiError { status, message }
    }

    /// The error for a request that cannot be served as it stands.
    pub fn bad_request(message: &str) -> (e: Self)
        ensures
            e@ == api_error(StatusCode::BadRequest, message@),
            e.status == StatusCode::BadRequest,
            e.message@ == message@,
    {
        ApiError::new(StatusCode::BadRequest, message.to_owned())
    }

    /// The error for a request that presents no valid token.
    pub fn unauthorized() -> (e: Self)
        ensures
            e@ == unauthorized(),
    {
        ApiError::new(StatusCode::Unauthorized, "missing or invalid bearer token".to_owned())
    }

    /// The JSON body of the response, in OpenAI's error envelope, so that a
    /// client's existing error handling works.
    pub fn body(&self) -> (b: String)
        ensures
            b@ == error_body(self.message@),
    {
        let mut b = "{\"error\":{\"message\":".to_owned();
        push_json(&mut b, self.message.as_str());
        b.append(",\"type\":\"invalid_request_error\"}}");
        b
    }
}

/// A result with its error seen through its view.
pub open spec fn api_seen<T>(r: Result<T, ApiError>) -> Result<T, ApiErrorView> {
    match r {
        Ok(v) => Ok(v),
        Err(e) => Err(e@),
    }
}

} // verus!
