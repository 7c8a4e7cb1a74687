//! The decisions of the MCP JSON-RPC relay.

use vstd::prelude::*;

use super::upstream::{hviews, header_put, put_header_field, HeaderField};
use crate::json::{as_str, get_in, json_in, json_str, JsonNumber, JsonValue};
use crate::text::{owned, str_eq, trim_end_char, trim_end_matches};

verus! {

/// The method named by an MCP request body: `parse_error` when the body is not
/// JSON, its `method` text, else `unknown`. `parsed` is the body parsed as JSON.
pub open spec fn spec_mcp_method(parsed: Option<JsonValue>) -> Seq<char> {
    match parsed {
        None => "parse_error"@,
        Some(j) => match json_str(json_in(Some(j), "method"@)) {
            Some(m) => m,
            None => "unknown"@,
        },
    }
}

/// The method of an MCP request.
pub fn mcp_method(parsed: Option<&JsonValue>) -> (r: String)
    ensures
        r@ == spec_mcp_method(crate::json::deref_opt(parsed)),
{
    match parsed {
        None => owned("parse_error"),
        Some(_) => match as_str(get_in(parsed, "method")) {
            Some(m) => m,
            None => owned("unknown"),
        },
    }
}

/// Where MCP requests are posted: the destination with one trailing slash.
pub fn mcp_upstream_url(destination: &str) -> (r: String)
    ensures
        r@ == trim_end_char(destination@, '/') + "/"@,
{
    let mut out = trim_end_matches(destination, '/');
    crate::text::push_str(&mut out, "/");
    out
}

/// Headers never forwarded to the MCP destination.
pub open spec fn is_mcp_hop_name(k: Seq<char>) -> bool {
    k == "host"@ || k == "connection"@ || k == "transfer-encoding"@ || k == "accept-encoding"@
}

/// The client headers forwarded to the MCP destination, by lower-case name,
/// later values replacing earlier ones.
pub open spec fn mcp_forwarded(hs: Seq<HeaderField>) -> Seq<(Seq<char>, Seq<u8>)>
    decreases hs.len(),
{
    if hs.len() == 0 {
        Seq::empty()
    } else {
        let prev = mcp_forwarded(hs.drop_last());
        let k = crate::config::routing::lowercase(hs.last().name@);
        if is_mcp_hop_name(k) {
            prev
        } else {
            header_put(prev, k, hs.last().value@)
        }
    }
}

/// The headers sent to the MCP destination.
pub fn filter_mcp_headers(headers: &Vec<HeaderField>) -> (r: Vec<HeaderField>)
    ensures
        hviews(r@) == mcp_forwarded(headers@),
{
    let mut fwd: Vec<HeaderField> = Vec::new();
    let mut i: usize = 0;
    while i < headers.len()
        invariant
            i <= headers.len(),
            hviews(fwd@) == mcp_forwarded(headers@.take(i as int)),
        decreases headers.len() - i,
    {
        assert(headers@.take(i + 1).drop_last() =~= headers@.take(i as int));
        assert(headers@.take(i + 1).last() == headers@[i as int]);
        let key = crate::config::routing::to_lowercase(headers[i].name.as_str());
        let k = key.as_str();
        if !(str_eq(k, "host") || str_eq(k, "connection") || str_eq(k, "transfer-encoding")
            || str_eq(k, "accept-encoding")) {
            let v = headers[i].value.clone();
            put_header_field(&mut fwd, key, v);
        }
        i += 1;
    }
    assert(headers@.take(i as int) =~= headers@);
    fwd
}

/// `r` is the JSON-RPC error reply `{"jsonrpc": "2.0", "error": {"code":
/// -32603, "message": message}, "id": null}`.
pub open spec fn is_rpc_error(r: JsonValue, message: Seq<char>) -> bool {
    let es = crate::json::members(r);
    &&& r is Object
    &&& es.len() == 3
    &&& es[0].0@ == "jsonrpc"@ && json_str(Some(es[0].1)) == Some("2.0"@)
    &&& es[1].0@ == "error"@
    &&& crate::json::members(es[1].1).len() == 2 && es[1].1 is Object
    &&& crate::json::members(es[1].1)[0].0@ == "code"@
    &&& crate::json::members(es[1].1)[0].1 == JsonValue::Number(JsonNumber::NegInt(-32603i64))
    &&& crate::json::members(es[1].1)[1].0@ == "message"@
    &&& json_str(Some(crate::json::members(es[1].1)[1].1)) == Some(message)
    &&& es[2].0@ == "id"@ && es[2].1 is Null
}

/// The JSON-RPC internal-error reply carrying `message`.
pub fn mcp_error_body(message: &str) -> (r: JsonValue)
    ensures
        is_rpc_error(r, message@),
{
    let mut inner: Vec<(String, JsonValue)> = Vec::new();
    inner.push((owned("code"), JsonValue::Number(JsonNumber::NegInt(-32603))));
    inner.push((owned("message"), JsonValue::Str(owned(message))));
    let mut outer: Vec<(String, JsonValue)> = Vec::new();
    outer.push((owned("jsonrpc"), JsonValue::Str(owned("2.0"))));
    outer.push((owned("error"), JsonValue::Object(inner)));
    outer.push((owned("id"), JsonValue::Null));
    JsonValue::Object(outer)
}

/// The reply when no MCP destination is set.
pub fn mcp_not_configured() -> (r: JsonValue)
    ensures
        is_rpc_error(
            r,
            "MCP proxy destination not configured. Set it at http://localhost:5000"@,
        ),
{
    mcp_error_body("MCP proxy destination not configured. Set it at http://localhost:5000")
}

/// How forwarding an MCP request failed.
#[derive(Debug, Clone, Copy, PartialEq, Eq, Structural)]
pub enum McpFailure {
    /// The request to the destination could not be built.
    Build,
    /// The destination's reply could not be read.
    Read,
    /// The destination could not be reached.
    Upstream,
}

/// The HTTP status of the reply for a failure.
pub fn mcp_failure_status(kind: McpFailure) -> (r: u16)
    ensures
        r == (match kind {
            McpFailure::Build => 500u16,
            _ => 502u16,
        }),
{
    match kind {
        McpFailure::Build => 500,
        _ => 502,
    }
}

/// The error recorded on the dashboard for a failure.
pub fn mcp_failure_note(kind: McpFailure, detail: &str) -> (r: String)
    ensures
        r@ == (match kind {
            McpFailure::Build => "Failed to build MCP request: "@,
            McpFailure::Read => "Failed to read MCP response: "@,
            McpFailure::Upstream => "MCP upstream error: "@,
        }) + detail@,
{
    let mut out = match kind {
        McpFailure::Build => owned("Failed to build MCP request: "),
        McpFailure::Read => owned("Failed to read MCP response: "),
        McpFailure::Upstream => owned("MCP upstream error: "),
    };
    crate::text::push_str(&mut out, detail);
    out
}

/// The message of the JSON-RPC error reply for a failure: the detail, prefixed
/// by `Upstream error: ` when the destination could not be reached.
pub fn mcp_failure_message(kind: McpFailure, detail: &str) -> (r: String)
    ensures
        r@ == (match kind {
            McpFailure::Upstream => "Upstream error: "@ + detail@,
            _ => detail@,
        }),
{
    match kind {
        McpFailure::Upstream => {
            let mut out = owned("Upstream error: ");
            crate::text::push_str(&mut out, detail);
            out
        },
        _ => owned(detail),
    }
}

/// Whether a header of the destination's reply is passed on.
pub fn mcp_keeps_response_header(name: &str) -> (b: bool)
    ensures
        b == (crate::config::routing::lowercase(name@) != "transfer-encoding"@),
{
    let key = crate::config::routing::to_lowercase(name);
    !str_eq(key.as_str(), "transfer-encoding")
}

} // verus!
