//! Hook events posted by the command-line agent.

use vstd::prelude::*;

use crate::json::{as_str, get, json_get, json_str, JsonValue};
use crate::text::owned;

verus! {

/// A hook event as broadcast to the dashboard.
#[derive(Debug)]
pub struct HookEvent {
    pub hook_event_name: String,
    pub session_id: String,
    pub cwd: String,
}

/// The first of two members that is present.
pub open spec fn first_present(a: Option<JsonValue>, b: Option<JsonValue>) -> Option<JsonValue> {
    if a is Some {
        a
    } else {
        b
    }
}

/// Text, or a default when absent.
pub open spec fn text_or(v: Option<Seq<char>>, default: Seq<char>) -> Seq<char> {
    match v {
        Some(s) => s,
        None => default,
    }
}

/// Receives hook events from the agent and turns them into dashboard events.
#[derive(Debug)]
pub struct HookReceiver;

impl HookReceiver {
    /// A receiver.
    pub fn new() -> Self {
        HookReceiver
    }

    /// The event to broadcast for a hook payload: its event name
    /// (`hook_event_name` or `hookEventName`, else `unknown`), its session id
    /// (`session_id` or `sessionId`, else empty) and its `cwd` (else empty).
    pub fn receive(&self, payload: &JsonValue) -> (r: HookEvent)
        ensures
            r.hook_event_name@ == text_or(
                json_str(
                    first_present(
                        json_get(*payload, "hook_event_name"@),
                        json_get(*payload, "hookEventName"@),
                    ),
                ),
                "unknown"@,
            ),
            r.session_id@ == text_or(
                json_str(
                    first_present(
                        json_get(*payload, "session_id"@),
                        json_get(*payload, "sessionId"@),
                    ),
                ),
                Seq::empty(),
            ),
            r.cwd@ == text_or(json_str(json_get(*payload, "cwd"@)), Seq::empty()),
    {
        let n = if get(payload, "hook_event_name").is_some() {
            get(payload, "hook_event_name")
        } else {
            get(payload, "hookEventName")
        };
        let s = if get(payload, "session_id").is_some() {
            get(payload, "session_id")
        } else {
            get(payload, "sessionId")
        };
        let hook_event_name = match as_str(n) {
            Some(x) => x,
            None => owned("unknown"),
        };
        let session_id = match as_str(s) {
            Some(x) => x,
            None => String::new(),
        };
        let cwd = match as_str(get(payload, "cwd")) {
            Some(x) => x,
            None => String::new(),
        };
        HookEvent { hook_event_name, session_id, cwd }
    }
}

} // verus!
