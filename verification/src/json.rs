//! JSON text for the bodies that the gateway writes itself.
//!
//! Escaping a text as a JSON string is left to `serde_json`; putting the
//! pieces of a body together is done, and verified, here.

use crate::trusted::json::{json_quoted, quote};
use vstd::prelude::*;

verus! {

/// The body `{"choices":[{<field>:{"content":<content>,"role":"assistant"}}]}`
/// for a content that is already a JSON string.
pub open spec fn choice_body(field: Seq<char>, content: Seq<char>) -> Seq<char> {
    "{\"choices\":[{\""@ + field + "\":{\"content\":"@ + content + ",\"role\":\"assistant\"}}]}"@
}

/// Writes the body of one assistant answer under `field`, for a content
/// that is already a JSON string.
pub fn write_choice_body(field: &str, content: &str) -> (body: String)
    ensures
        body@ == choice_body(field@, content@),
{
    let mut body = String::from_str("{\"choices\":[{\"");
    body.append(field);
    body.append("\":{\"content\":");
    body.append(content);
    body.append(",\"role\":\"assistant\"}}]}");
    body
}

/// The body `{"error":<error>,"provider":<provider>}` for two texts that
/// are already JSON strings.
pub open spec fn upstream_error_body(error: Seq<char>, provider: Seq<char>) -> Seq<char> {
    "{\"error\":"@ + error + ",\"provider\":"@ + provider + "}"@
}

/// Writes the body that reports an upstream failure, for two texts that
/// are already JSON strings.
pub fn write_upstream_error_body(error: &str, provider: &str) -> (body: String)
    ensures
        body@ == upstream_error_body(error@, provider@),
{
    let mut body = String::from_str("{\"error\":");
    body.append(error);
    body.append(",\"provider\":");
    body.append(provider);
    body.append("}");
    body
}

/// The body that reports an upstream failure: the upstream's words and the
/// provider's name. `None` where either text cannot be written as JSON.
pub fn upstream_error(error: &str, provider: &str) -> (body: Option<String>)
    ensures
        match (json_quoted(error@), json_quoted(provider@)) {
            (Some(e), Some(p)) => body is Some && body->0@ == upstream_error_body(e, p),
            _ => body is None,
        },
{
    let e = match quote(error) {
        Some(e) => e,
        None => {
            return None;
        },
    };
    let p = match quote(provider) {
        Some(p) => p,
        None => {
            return None;
        },
    };
    Some(write_upstream_error_body(e.as_str(), p.as_str()))
}

/// One server-sent event: `data: `, the payload, and an empty line.
pub open spec fn sse_frame(payload: Seq<char>) -> Seq<char> {
    "data: "@ + payload + "\n\n"@
}

/// Writes one server-sent event.
pub fn write_sse_frame(payload: &str) -> (frame: String)
    ensures
        frame@ == sse_frame(payload@),
{
    let mut frame = String::from_str("data: ");
    frame.append(payload);
    frame.append("\n\n");
    frame
}

} // verus!
