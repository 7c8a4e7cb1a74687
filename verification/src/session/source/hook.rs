//! Hook event parser: coding-agent hook payloads to observations.

use vstd::prelude::*;

use super::now_millis;
use crate::json::{as_str, get, json_get, json_str, ov, JsonValue};
use crate::session::observation::{Observation, ObservationKind};
use crate::text::{decimal_int, owned, push_i64, push_str, str_eq, truncate, truncate_seq};

verus! {

/// Text, or empty text when absent.
pub open spec fn or_empty(v: Option<Seq<char>>) -> Seq<char> {
    match v {
        Some(s) => s,
        None => Seq::empty(),
    }
}

/// Text, or `auto` when absent.
pub open spec fn text_or_auto(v: Option<Seq<char>>) -> Seq<char> {
    match v {
        Some(s) => s,
        None => "auto"@,
    }
}

/// An optional text cut to `max` characters.
pub open spec fn cut_opt(v: Option<Seq<char>>, max: nat) -> Option<Seq<char>> {
    match v {
        Some(s) => Some(truncate_seq(s, max)),
        None => None,
    }
}

/// The string member `k` of a hook payload.
pub open spec fn member(v: JsonValue, k: Seq<char>) -> Option<Seq<char>> {
    json_str(json_get(v, k))
}

/// The fields every hook observation shares: its ids, session, source, times
/// and the event name as source sequence.
pub open spec fn hook_common(
    o: Observation,
    prefix: Seq<char>,
    session_id: Seq<char>,
    event_name: Seq<char>,
    hash: Seq<char>,
    now: i64,
) -> bool {
    &&& o.event_id@ == prefix + session_id + "-"@ + decimal_int(now as int)
    &&& o.payload_hash@ == hash
    &&& o.session_id@ == session_id
    &&& o.source@ == "hook"@
    &&& o.occurred_at == now && o.received_at == now
    &&& ov(o.source_sequence) == Some(event_name)
}

/// The observations of a hook event at `now`: a prompt submission, a tool
/// status (running before, succeeded or failed after), an agent start or an
/// agent stop; nothing for other events.
pub open spec fn hook_result(
    session_id: Seq<char>,
    event_name: Seq<char>,
    input: JsonValue,
    hook_input: JsonValue,
    now: i64,
    r: Seq<Observation>,
) -> bool {
    if event_name == "UserPromptSubmit"@ {
        let pid = or_empty(member(hook_input, "prompt_id"@));
        &&& r.len() == 1
        &&& hook_common(r[0], "hook-prompt-"@, session_id, event_name, "hook-prompt-"@ + pid, now)
        &&& ov(r[0].source_version) == member(hook_input, "claude_code_version"@)
        &&& r[0].kind matches ObservationKind::PromptSubmit { prompt_id, prompt_text, started_at }
            && prompt_id@ == pid && ov(prompt_text) == cut_opt(member(hook_input, "prompt"@), 1000)
            && started_at == now
    } else if event_name == "PreToolUse"@ || event_name == "PostToolUse"@ || event_name
        == "PostToolUseFailure"@ {
        let tid = or_empty(member(hook_input, "tool_use_id"@));
        let st = if event_name == "PostToolUseFailure"@ {
            "failed"@
        } else if event_name == "PostToolUse"@ {
            "succeeded"@
        } else {
            "running"@
        };
        &&& r.len() == 1
        &&& hook_common(r[0], "hook-tool-"@, session_id, event_name, "hook-tool-"@ + tid, now)
        &&& r[0].source_version is None
        &&& r[0].kind matches ObservationKind::ToolResult {
            tool_use_id,
            raw_result_preview,
            effective_result_preview,
            status,
        } && tool_use_id@ == tid && ov(raw_result_preview) == cut_opt(
            member(input, "tool_input"@),
            500,
        ) && ov(effective_result_preview) == cut_opt(member(input, "tool_response"@), 500)
            && status@ == st
    } else if event_name == "SubagentStart"@ {
        let aid = or_empty(member(hook_input, "agent_id"@));
        let at = match member(hook_input, "agent_type"@) {
            Some(t) => t,
            None => "cc"@,
        };
        &&& r.len() == 1
        &&& hook_common(r[0], "hook-agent-"@, session_id, event_name, "hook-agent-"@ + aid, now)
        &&& r[0].source_version is None
        &&& r[0].kind matches ObservationKind::AgentStart { agent_id, agent_type, started_at }
            && agent_id@ == aid && agent_type@ == at && started_at == now
    } else if event_name == "SubagentStop"@ || event_name == "Stop"@ || event_name
        == "StopFailure"@ {
        let aid = or_empty(member(hook_input, "agent_id"@));
        &&& r.len() == 1
        &&& hook_common(
            r[0],
            "hook-agent-stop-"@,
            session_id,
            event_name,
            "hook-agent-stop-"@ + aid,
            now,
        )
        &&& r[0].source_version is None
        &&& r[0].kind matches ObservationKind::AgentStop { agent_id, ended_at } && agent_id@ == aid
            && ended_at == now
    } else {
        r.len() == 0
    }
}

fn str_or_empty(v: Option<String>) -> (r: String)
    ensures
        r@ == or_empty(ov(v)),
{
    match v {
        Some(s) => s,
        None => String::new(),
    }
}

fn cut(v: Option<String>, max: usize) -> (r: Option<String>)
    ensures
        ov(r) == cut_opt(ov(v), max as nat),
{
    match v {
        Some(s) => Some(truncate(s.as_str(), max)),
        None => None,
    }
}

fn id_with_time(prefix: &str, session_id: &str, now: i64) -> (r: String)
    ensures
        r@ == prefix@ + session_id@ + "-"@ + decimal_int(now as int),
{
    let mut s = owned(prefix);
    push_str(&mut s, session_id);
    push_str(&mut s, "-");
    push_i64(&mut s, now);
    s
}

fn prefixed(prefix: &str, id: &String) -> (r: String)
    ensures
        r@ == prefix@ + id@,
{
    let mut s = owned(prefix);
    push_str(&mut s, id.as_str());
    s
}

/// Parses hook events delivered by the hook agent.
#[derive(Debug)]
pub struct HookParser;

impl HookParser {
    /// A parser.
    pub fn new() -> Self {
        HookParser
    }

    /// The observations of a hook event payload, at `now`.
    pub fn parse_hook_event_at(
        &self,
        session_id: &str,
        event_name: &str,
        input: &JsonValue,
        hook_input: &JsonValue,
        now: i64,
    ) -> (r: Vec<Observation>)
        ensures
            hook_result(session_id@, event_name@, *input, *hook_input, now, r@),
    {
        proof {
            reveal_strlit("UserPromptSubmit");
            reveal_strlit("PreToolUse");
            reveal_strlit("PostToolUse");
            reveal_strlit("PostToolUseFailure");
            reveal_strlit("SubagentStart");
            reveal_strlit("SubagentStop");
            reveal_strlit("Stop");
            reveal_strlit("StopFailure");
        }
        let mut out: Vec<Observation> = Vec::new();
        if str_eq(event_name, "UserPromptSubmit") {
            let prompt_id = str_or_empty(as_str(get(hook_input, "prompt_id")));
            let text = cut(as_str(get(hook_input, "prompt")), 1000);
            out.push(
                Observation {
                    event_id: id_with_time("hook-prompt-", session_id, now),
                    session_id: owned(session_id),
                    source: owned("hook"),
                    occurred_at: now,
                    received_at: now,
                    source_sequence: Some(owned(event_name)),
                    source_version: as_str(get(hook_input, "claude_code_version")),
                    payload_hash: prefixed("hook-prompt-", &prompt_id),
                    kind: ObservationKind::PromptSubmit {
                        prompt_id,
                        prompt_text: text,
                        started_at: now,
                    },
                },
            );
        } else if str_eq(event_name, "PreToolUse") || str_eq(event_name, "PostToolUse") || str_eq(
            event_name,
            "PostToolUseFailure",
        ) {
            assert(event_name@.len() != "UserPromptSubmit"@.len() || event_name@[0]
                != "UserPromptSubmit"@[0]);
            let tool_use_id = str_or_empty(as_str(get(hook_input, "tool_use_id")));
            let status = if str_eq(event_name, "PostToolUseFailure") {
                owned("failed")
            } else if str_eq(event_name, "PostToolUse") {
                owned("succeeded")
            } else {
                owned("running")
            };
            out.push(
                Observation {
                    event_id: id_with_time("hook-tool-", session_id, now),
                    session_id: owned(session_id),
                    source: owned("hook"),
                    occurred_at: now,
                    received_at: now,
                    source_sequence: Some(owned(event_name)),
                    source_version: None,
                    payload_hash: prefixed("hook-tool-", &tool_use_id),
                    kind: ObservationKind::ToolResult {
                        tool_use_id,
                        raw_result_preview: cut(as_str(get(input, "tool_input")), 500),
                        effective_result_preview: cut(as_str(get(input, "tool_response")), 500),
                        status,
                    },
                },
            );
        } else if str_eq(event_name, "SubagentStart") {
            assert(event_name@[0] != "UserPromptSubmit"@[0]);
            let agent_id = str_or_empty(as_str(get(hook_input, "agent_id")));
            let agent_type = match as_str(get(hook_input, "agent_type")) {
                Some(t) => t,
                None => owned("cc"),
            };
            out.push(
                Observation {
                    event_id: id_with_time("hook-agent-", session_id, now),
                    session_id: owned(session_id),
                    source: owned("hook"),
                    occurred_at: now,
                    received_at: now,
                    source_sequence: Some(owned(event_name)),
                    source_version: None,
                    payload_hash: prefixed("hook-agent-", &agent_id),
                    kind: ObservationKind::AgentStart { agent_id, agent_type, started_at: now },
                },
            );
        } else if str_eq(event_name, "SubagentStop") || str_eq(event_name, "Stop") || str_eq(
            event_name,
            "StopFailure",
        ) {
            assert(event_name@[0] != "UserPromptSubmit"@[0]);
            assert(event_name@[0] != "PreToolUse"@[0]);
            assert(event_name@.len() != "SubagentStart"@.len() || event_name@[8]
                != "SubagentStart"@[8]);
            let agent_id = str_or_empty(as_str(get(hook_input, "agent_id")));
            out.push(
                Observation {
                    event_id: id_with_time("hook-agent-stop-", session_id, now),
                    session_id: owned(session_id),
                    source: owned("hook"),
                    occurred_at: now,
                    received_at: now,
                    source_sequence: Some(owned(event_name)),
                    source_version: None,
                    payload_hash: prefixed("hook-agent-stop-", &agent_id),
                    kind: ObservationKind::AgentStop { agent_id, ended_at: now },
                },
            );
        }
        out
    }

    /// The observations of a hook event payload, stamped with the current time.
    pub fn parse_hook_event(
        &self,
        session_id: &str,
        event_name: &str,
        input: &JsonValue,
        hook_input: &JsonValue,
    ) -> (r: Vec<Observation>)
        ensures
            exists|now: i64|
                #[trigger] hook_result(session_id@, event_name@, *input, *hook_input, now, r@),
    {
        let now = now_millis();
        self.parse_hook_event_at(session_id, event_name, input, hook_input, now)
    }
}

} // verus!
