//! Hook events posted to the dashboard by the hook agent.

use vstd::prelude::*;

use crate::json::{as_str, get, json_get, json_str, ov, JsonValue};
use crate::text::{owned, str_eq};

verus! {

/// The member `k` of a body, or else its member `alt`.
pub open spec fn member_or(body: JsonValue, k: Seq<char>, alt: Seq<char>) -> Option<JsonValue> {
    match json_get(body, k) {
        Some(v) => Some(v),
        None => json_get(body, alt),
    }
}

/// What a hook post names: its event (`unknown` when it names none), its
/// session, and whether the event ends the session.
#[derive(Debug)]
pub struct HookRequest {
    pub event_name: String,
    pub session_id: Option<String>,
    pub stops_session: bool,
}

/// The event name of a hook post: `hook_event_name`, or else `hookEventName`,
/// when that is text; `unknown` otherwise.
pub open spec fn hook_event_name(body: JsonValue) -> Seq<char> {
    match json_str(member_or(body, "hook_event_name"@, "hookEventName"@)) {
        Some(n) => n,
        None => "unknown"@,
    }
}

/// Reads a hook post: its event, its session (`session_id`, or else
/// `sessionId`, when that is text), and whether the event is `Stop` or `SessionEnd`.
pub fn hook_request(body: &JsonValue) -> (r: HookRequest)
    ensures
        r.event_name@ == hook_event_name(*body),
        ov(r.session_id) == json_str(member_or(*body, "session_id"@, "sessionId"@)),
        r.stops_session == (hook_event_name(*body) == "Stop"@ || hook_event_name(*body) == "SessionEnd"@),
{
    let name_value = match get(body, "hook_event_name") {
        Some(v) => Some(v),
        None => get(body, "hookEventName"),
    };
    let event_name = match as_str(name_value) {
        Some(n) => n,
        None => owned("unknown"),
    };
    let sid_value = match get(body, "session_id") {
        Some(v) => Some(v),
        None => get(body, "sessionId"),
    };
    let session_id = as_str(sid_value);
    let stops_session = str_eq(event_name.as_str(), "Stop") || str_eq(event_name.as_str(), "SessionEnd");
    HookRequest { event_name, session_id, stops_session }
}

} // verus!
