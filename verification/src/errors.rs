//! The uniform error envelope returned to clients.

use vstd::prelude::*;
use vstd::string::StringExecFns;

verus! {

/// Every way a request can fail before or around its handler.
#[derive(Clone, Copy, Debug, PartialEq, Eq, Structural)]
pub enum ErrorKind {
    /// No operation matches the request path and method.
    NoRoute,
    /// The declared or the actual body size exceeds the operation's cap.
    BodyTooLarge,
    /// The transport failed while the body was being read.
    BodyReadFailed,
    /// The body is not valid JSON for the operation's input.
    ReqJsonParse,
    /// Anything that went wrong inside the service.
    Internal,
    /// The Content-Length header is absent or not a number.
    NoContentLength,
}

/// An error response: status line, content type and JSON body.
#[derive(Debug)]
pub struct ErrorResponse {
    pub status: u16,
    pub content_type: String,
    pub body: String,
}

/// The HTTP status that goes with an error kind.
pub open spec fn status_of(kind: ErrorKind) -> u16 {
    match kind {
        ErrorKind::NoRoute => 404,
        ErrorKind::NoContentLength => 411,
        ErrorKind::BodyTooLarge => 400,
        ErrorKind::BodyReadFailed => 400,
        ErrorKind::ReqJsonParse => 400,
        ErrorKind::Internal => 500,
    }
}

/// The machine-readable code that goes with an error kind.
pub open spec fn code_of(kind: ErrorKind) -> Seq<char> {
    match kind {
        ErrorKind::NoRoute => "no_route"@,
        ErrorKind::NoContentLength => "no_content_length"@,
        ErrorKind::BodyTooLarge => "body_too_large"@,
        ErrorKind::BodyReadFailed => "body_read_failed"@,
        ErrorKind::ReqJsonParse => "req_json_parse"@,
        ErrorKind::Internal => "internal"@,
    }
}

/// The human-readable text that goes with an error kind.
pub open spec fn message_of(kind: ErrorKind) -> Seq<char> {
    match kind {
        ErrorKind::NoRoute => "No route found matching request path and method"@,
        ErrorKind::NoContentLength => "The mandatory Content-Length header was not present"@,
        ErrorKind::BodyTooLarge => "Request body was larger than the maximum allowed"@,
        ErrorKind::BodyReadFailed => "IO failure while reading request body"@,
        ErrorKind::ReqJsonParse => "Request body did not parse as valid JSON"@,
        ErrorKind::Internal => "An unexpected internal error occurred within the service"@,
    }
}

/// The JSON object `{"error":"<code>","message":"<message>"}`.
pub open spec fn envelope(code: Seq<char>, message: Seq<char>) -> Seq<char> {
    "{\"error\":\""@ + code + "\",\"message\":\""@ + message + "\"}"@
}

/// What it means for a response to be the envelope of `kind`.
pub open spec fn is_envelope_of(r: ErrorResponse, kind: ErrorKind) -> bool {
    &&& r.status == status_of(kind)
    &&& r.content_type@ == "application/json"@
    &&& r.body@ == envelope(code_of(kind), message_of(kind))
}

impl ErrorKind {
    /// The HTTP status of this kind of error.
    pub fn status(self) -> (s: u16)
        ensures
            s == status_of(self),
    {
        match self {
            ErrorKind::NoRoute => 404,
            ErrorKind::NoContentLength => 411,
            ErrorKind::BodyTooLarge => 400,
            ErrorKind::BodyReadFailed => 400,
            ErrorKind::ReqJsonParse => 400,
            ErrorKind::Internal => 500,
        }
    }

    /// The `error` field of the envelope.
    pub fn code(self) -> (s: &'static str)
        ensures
            s@ == code_of(self),
    {
        match self {
            ErrorKind::NoRoute => "no_route",
            ErrorKind::NoContentLength => "no_content_length",
            ErrorKind::BodyTooLarge => "body_too_large",
            ErrorKind::BodyReadFailed => "body_read_failed",
            ErrorKind::ReqJsonParse => "req_json_parse",
            ErrorKind::Internal => "internal",
        }
    }

    /// The `message` field of the envelope.
    pub fn message(self) -> (s: &'static str)
        ensures
            s@ == message_of(self),
    {
        match self {
            ErrorKind::NoRoute => "No route found matching request path and method",
            ErrorKind::NoContentLength => "The mandatory Content-Length header was not present",
            ErrorKind::BodyTooLarge => "Request body was larger than the maximum allowed",
            ErrorKind::BodyReadFailed => "IO failure while reading request body",
            ErrorKind::ReqJsonParse => "Request body did not parse as valid JSON",
            ErrorKind::Internal => "An unexpected internal error occurred within the service",
        }
    }

    /// The full response for this kind of error.
    pub fn response(self) -> (r: ErrorResponse)
        ensures
            is_envelope_of(r, self),
    {
        let body = String::from_str("{\"error\":\"").concat(self.code()).concat(
            "\",\"message\":\"",
        ).concat(self.message()).concat("\"}");
        ErrorResponse {
            status: self.status(),
            content_type: String::from_str("application/json"),
            body,
        }
    }
}

/// 404: no operation matches the request path and method.
pub fn no_route() -> (r: ErrorResponse)
    ensures
        is_envelope_of(r, ErrorKind::NoRoute),
{
    ErrorKind::NoRoute.response()
}

/// 400: the body is larger than the operation allows.
pub fn body_too_large() -> (r: ErrorResponse)
    ensures
        is_envelope_of(r, ErrorKind::BodyTooLarge),
{
    ErrorKind::BodyTooLarge.response()
}

/// 400: the transport failed while the body was being read.
pub fn body_read_failed() -> (r: ErrorResponse)
    ensures
        is_envelope_of(r, ErrorKind::BodyReadFailed),
{
    ErrorKind::BodyReadFailed.response()
}

/// 400: the body is not valid JSON for the operation.
pub fn req_json_parse() -> (r: ErrorResponse)
    ensures
        is_envelope_of(r, ErrorKind::ReqJsonParse),
{
    ErrorKind::ReqJsonParse.response()
}

/// 500: an unexpected failure inside the service.
pub fn internal() -> (r: ErrorResponse)
    ensures
        is_envelope_of(r, ErrorKind::Internal),
{
    ErrorKind::Internal.response()
}

/// 411: the Content-Length header is missing or unusable.
pub fn no_content_length() -> (r: ErrorResponse)
    ensures
        is_envelope_of(r, ErrorKind::NoContentLength),
{
    ErrorKind::NoContentLength.response()
}

} // verus!
