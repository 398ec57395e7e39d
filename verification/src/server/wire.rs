//! Building error responses.

use vstd::prelude::*;

use crate::protocol::error::{ErrorCode, ErrorDetails, ErrorResponse};
use crate::protocol::ids::{RequestId, MAX_SAFE_INTEGER};
use crate::protocol::message::{is_client_type, ClientMessage};
use crate::text::{debug_str, debug_text, owned, push_str};

verus! {

/// An error response with the given fields and no details.
pub fn error(request_id: Option<RequestId>, code: ErrorCode, message: String) -> (e: ErrorResponse)
    ensures
        e == (ErrorResponse { request_id, code, message, details: None }),
{
    ErrorResponse { request_id, code, message, details: None }
}

/// A `malformed_message` error.
pub fn malformed(request_id: Option<RequestId>, message: String) -> (e: ErrorResponse)
    ensures
        e == (ErrorResponse {
            request_id,
            code: ErrorCode::MalformedMessage,
            message,
            details: None,
        }),
{
    error(request_id, ErrorCode::MalformedMessage, message)
}

/// Attach `details` to an error.
pub fn with_details(error: ErrorResponse, details: ErrorDetails) -> (e: ErrorResponse)
    ensures
        e == (ErrorResponse { details: Some(details), ..error }),
{
    let mut error = error;
    error.details = Some(details);
    error
}


/// What a JSON reader sees in a text frame, as plain values.
pub enum JsonShape {
    /// The frame is not valid JSON; `error` describes why.
    NotJson { error: Seq<char> },
    /// The frame is JSON but not an object.
    NotObject,
    /// The frame is a JSON object with these `request_id` and `type` fields: the request ID
    /// when it is an unsigned integer, and the type when it is a string.
    Object { request_id: Option<u64>, kind: Option<Seq<char>> },
}

/// What `serde_json` reads in the text `text`: whether it is JSON, whether it is an object,
/// and its `request_id` and `type` fields.
pub uninterp spec fn json_shape(text: Seq<char>) -> JsonShape;

/// What a JSON reader sees in a text frame.
pub enum JsonFrame {
    NotJson { error: String },
    NotObject,
    Object { request_id: Option<u64>, kind: Option<String> },
}

impl JsonFrame {
    /// The frame as plain values.
    pub open spec fn shape(&self) -> JsonShape {
        match self {
            JsonFrame::NotJson { error } => JsonShape::NotJson { error: error@ },
            JsonFrame::NotObject => JsonShape::NotObject,
            JsonFrame::Object { request_id, kind } => JsonShape::Object {
                request_id: *request_id,
                kind: match kind {
                    Some(k) => Some(k@),
                    None => None,
                },
            },
        }
    }
}

/// Calls `serde_json::from_str::<Value>` on the frame and, for an object, reads its
/// `request_id` with `Value::as_u64` and its `type` with `Value::as_str`; the parse error is
/// kept as its `Display` text. Claimed: the result is `json_shape` of the text, a function
/// of the text alone. How `serde_json` reads JSON, and the text of its errors, are not stated.
#[verifier::external_body]
pub fn read_json(text: &str) -> (f: JsonFrame)
    ensures
        f.shape() == json_shape(text@),
{
    match serde_json::from_str::<serde_json::Value>(text) {
        Err(e) => JsonFrame::NotJson { error: e.to_string() },
        Ok(value) => match value.as_object() {
            None => JsonFrame::NotObject,
            Some(object) => JsonFrame::Object {
                request_id: object.get("request_id").and_then(serde_json::Value::as_u64),
                kind: object.get("type").and_then(serde_json::Value::as_str).map(str::to_owned),
            },
        },
    }
}

/// The request ID an error echoes, from the raw `request_id` field: the field when it is a
/// valid request ID, and none otherwise.
pub open spec fn echoed_id(raw: Option<u64>, id: Option<RequestId>) -> bool {
    match raw {
        Some(n) => if 1 <= n <= MAX_SAFE_INTEGER {
            id matches Some(r) && r@ == n
        } else {
            id is None
        },
        None => id is None,
    }
}

/// The error a frame of binary data is answered with.
pub fn binary_frame() -> (e: ErrorResponse)
    ensures
        e.request_id is None,
        e.code == ErrorCode::MalformedMessage,
        e.message@ == "binary frames are not supported; send JSON text frames"@,
        e.details is None,
{
    malformed(None, owned("binary frames are not supported; send JSON text frames"))
}

/// Decide what a text frame is: a client message, or the error to send back. `decoded` is
/// the frame read as a client message by the JSON library, or why it is not one.
/// Invalid JSON, a non-object, a missing `type`, and invalid fields are malformed; an unknown
/// `type` is reported with its name. Errors echo the request ID whenever it is readable.
pub fn parse(text: &str, decoded: Result<ClientMessage, String>) -> (result: Result<
    ClientMessage,
    ErrorResponse,
>)
    ensures
        match json_shape(text@) {
            JsonShape::NotJson { error } => result matches Err(e) && e.request_id is None && e.code
                == ErrorCode::MalformedMessage && e.message@ == "frame is not valid JSON: "@ + error
                && e.details is None,
            JsonShape::NotObject => result matches Err(e) && e.request_id is None && e.code
                == ErrorCode::MalformedMessage && e.message@ == "frame is not a JSON object"@
                && e.details is None,
            JsonShape::Object { request_id, kind } => match kind {
                None => result matches Err(e) && echoed_id(request_id, e.request_id) && e.code
                    == ErrorCode::MalformedMessage && e.message@ == "missing string field `type`"@
                    && e.details is None,
                Some(k) => if !is_client_type(k) {
                    result matches Err(e) && echoed_id(request_id, e.request_id) && e.code
                        == ErrorCode::UnknownMessageType && e.message@ == "unknown message type "@
                        + debug_str(k) && (e.details matches Some(ErrorDetails::MessageType { kind })
                        && kind@ == k)
                } else {
                    match decoded {
                        Ok(m) => result == Ok::<ClientMessage, ErrorResponse>(m),
                        Err(why) => result matches Err(e) && echoed_id(request_id, e.request_id)
                            && e.code == ErrorCode::MalformedMessage && e.message@ == why@
                            && e.details is None,
                    }
                },
            },
        },
{
    match read_json(text) {
        JsonFrame::NotJson { error } => {
            let mut message = owned("frame is not valid JSON: ");
            push_str(&mut message, error.as_str());
            Err(malformed(None, message))
        },
        JsonFrame::NotObject => Err(malformed(None, owned("frame is not a JSON object"))),
        JsonFrame::Object { request_id, kind } => {
            let request_id = match request_id {
                Some(n) => RequestId::new(n),
                None => None,
            };
            let kind = match kind {
                Some(kind) => kind,
                None => {
                    return Err(malformed(request_id, owned("missing string field `type`")));
                },
            };
            if !ClientMessage::is_type(kind.as_str()) {
                let mut message = owned("unknown message type ");
                let quoted = debug_text(kind.as_str());
                push_str(&mut message, quoted.as_str());
                return Err(
                    with_details(
                        error(request_id, ErrorCode::UnknownMessageType, message),
                        ErrorDetails::MessageType { kind },
                    ),
                );
            }
            match decoded {
                Ok(message) => Ok(message),
                Err(why) => Err(malformed(request_id, why)),
            }
        },
    }
}

} // verus!
