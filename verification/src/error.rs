//! Errors of the Cursor SDK Bridge adapter.

use vstd::prelude::*;

verus! {

/// Errors from discovering, spawning, or talking to the Cursor SDK Bridge.
#[derive(Debug)]
pub enum CursorSdkError {
    Message(String),
    BridgeNotFound(String),
    Handshake(String),
    Rpc { method: String, code: String, message: String, request_id: Option<String> },
    /// An input or output error, by its message.
    Io(String),
    /// An HTTP error, by its message.
    Http(String),
    /// A JSON error, by its message.
    Json(String),
    /// A protobuf decoding error, by its message.
    Prost(String),
}

/// What is shown for a missing API key.
pub const MISSING_API_KEY: &'static str =
    "Cursor API key not set. Run `grok login-cursor` or export CURSOR_API_KEY (https://cursor.com/dashboard/api).";

impl CursorSdkError {
    /// What is shown for the error.
    pub open spec fn shown(&self) -> Seq<char> {
        match self {
            CursorSdkError::Message(m) => m@,
            CursorSdkError::BridgeNotFound(m) => "cursor-sdk-bridge not found: "@ + m@,
            CursorSdkError::Handshake(m) => "bridge handshake failed: "@ + m@,
            CursorSdkError::Rpc { method, code, message, request_id: _ } => "connect rpc "@
                + method@ + " failed ("@ + code@ + "): "@ + message@,
            CursorSdkError::Io(m) => m@,
            CursorSdkError::Http(m) => m@,
            CursorSdkError::Json(m) => m@,
            CursorSdkError::Prost(m) => m@,
        }
    }

    /// What is shown for the error.
    pub fn display(&self) -> (r: String)
        ensures
            r@ == self.shown(),
    {
        match self {
            CursorSdkError::Message(m) => m.clone(),
            CursorSdkError::BridgeNotFound(m) => "cursor-sdk-bridge not found: ".to_owned().concat(
                m.as_str(),
            ),
            CursorSdkError::Handshake(m) => "bridge handshake failed: ".to_owned().concat(
                m.as_str(),
            ),
            CursorSdkError::Rpc { method, code, message, request_id: _ } => {
                let mut out = "connect rpc ".to_owned();
                out.append(method.as_str());
                out.append(" failed (");
                out.append(code.as_str());
                out.append("): ");
                out.append(message.as_str());
                out
            },
            CursorSdkError::Io(m) => m.clone(),
            CursorSdkError::Http(m) => m.clone(),
            CursorSdkError::Json(m) => m.clone(),
            CursorSdkError::Prost(m) => m.clone(),
        }
    }

    /// An error that is just a message.
    pub fn message(msg: String) -> (r: Self)
        ensures
            r == CursorSdkError::Message(msg),
    {
        CursorSdkError::Message(msg)
    }

    /// The error for a missing API key.
    pub fn missing_api_key() -> (r: Self)
        ensures
            r is Message,
            r.shown() == MISSING_API_KEY@,
    {
        CursorSdkError::Message(MISSING_API_KEY.to_owned())
    }
}

/// `e` is a handshake error with the message `m`.
pub open spec fn is_handshake_error(e: CursorSdkError, m: Seq<char>) -> bool {
    e matches CursorSdkError::Handshake(s) && s@ == m
}

/// What is shown for an error ends with its message, and that of a failed request
/// names the method and the code too.
pub proof fn errors_show_their_message(e: CursorSdkError)
    ensures
        e matches CursorSdkError::Message(m) ==> e.shown() == m@,
        e matches CursorSdkError::Io(m) ==> e.shown() == m@,
        e matches CursorSdkError::Http(m) ==> e.shown() == m@,
        e matches CursorSdkError::Json(m) ==> e.shown() == m@,
        e matches CursorSdkError::Prost(m) ==> e.shown() == m@,
        e matches CursorSdkError::BridgeNotFound(m) ==> m@.is_suffix_of(e.shown()),
        e matches CursorSdkError::Handshake(m) ==> m@.is_suffix_of(e.shown()),
        e matches CursorSdkError::Rpc { method, code, message, .. } ==> (method@ + " failed ("@
            + code@ + "): "@ + message@).is_suffix_of(e.shown()),
{
    let s = e.shown();
    match e {
        CursorSdkError::BridgeNotFound(m) => {
            assert(s.subrange(s.len() - m@.len(), s.len() as int) =~= m@);
        },
        CursorSdkError::Handshake(m) => {
            assert(s.subrange(s.len() - m@.len(), s.len() as int) =~= m@);
        },
        CursorSdkError::Rpc { method, code, message, .. } => {
            let end = method@ + " failed ("@ + code@ + "): "@ + message@;
            assert(s.subrange(s.len() - end.len(), s.len() as int) =~= end);
        },
        _ => {},
    }
}

}
