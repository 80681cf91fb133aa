//! Error codes of JSON-RPC replies and the body of REST error replies.

use vstd::prelude::*;

use crate::json::{fields, no_members, put, put_text, Json, JsonView};

verus! {

/// The text received is not JSON.
pub const PARSE_ERROR: i32 = -32_700;

/// The document received is not a request.
pub const INVALID_REQUEST: i32 = -32_600;

/// No such method.
pub const METHOD_NOT_FOUND: i32 = -32_601;

/// The parameters are not those the method takes.
pub const INVALID_PARAMS: i32 = -32_602;

/// The server failed.
pub const INTERNAL_ERROR: i32 = -32_603;

/// The caller is not authenticated, or not allowed. One of the codes that
/// JSON-RPC leaves to implementations.
pub const UNAUTHORIZED: i32 = -32_001;

/// The caller's budget of requests is spent. One of the codes that JSON-RPC leaves to
/// implementations.
pub const RATE_LIMITED: i32 = -32_002;

/// A header contradicts the request's own metadata.
pub const HEADER_MISMATCH: i32 = -32_020;

/// The request needs a capability that the client did not declare.
pub const MISSING_REQUIRED_CLIENT_CAPABILITY: i32 = -32_021;

/// The server does not speak the protocol revision asked for.
pub const UNSUPPORTED_PROTOCOL_VERSION: i32 = -32_022;

/// The body of a REST error reply.
#[derive(Debug)]
pub struct ErrorResponse {
    /// Error details.
    pub error: ErrorDetail,
}

/// What a REST error reply says.
#[derive(Debug, Clone)]
pub struct ErrorDetail {
    /// Machine-readable error type, such as `authentication_error`.
    pub error_type: String,
    /// Human-readable error message.
    pub message: String,
}

/// The JSON body of a REST error reply.
pub open spec fn error_body(error_type: Seq<char>, message: Seq<char>) -> JsonView {
    let detail = fields().push(("type"@, JsonView::Text(error_type))).push(
        ("message"@, JsonView::Text(message)),
    );
    JsonView::Object(fields().push(("error"@, JsonView::Object(detail))))
}

impl ErrorResponse {
    /// An error reply of the given type and message.
    pub fn new(error_type: &str, message: &str) -> (response: Self)
        ensures
            response.error.error_type@ == error_type@,
            response.error.message@ == message@,
    {
        ErrorResponse {
            error: ErrorDetail { error_type: error_type.to_owned(), message: message.to_owned() },
        }
    }

    /// The reply's JSON body.
    pub fn to_json(&self) -> (json: Json)
        ensures
            json@ == error_body(self.error.error_type@, self.error.message@),
    {
        let mut detail = no_members();
        put_text(&mut detail, "type", self.error.error_type.as_str());
        put_text(&mut detail, "message", self.error.message.as_str());
        let mut body = no_members();
        put(&mut body, "error", Json::object(detail));
        Json::object(body)
    }
}

} // verus!
