//! Observations: the append-only raw events fed into the reconciler.

use vstd::prelude::*;

use crate::text::{opt_view, str_eq};

verus! {

/// Token usage snapshot for a finished model call.
#[derive(Debug)]
pub struct TokenUsage {
    pub input_tokens: u64,
    pub output_tokens: u64,
    pub cache_creation_tokens: u64,
    pub cache_read_tokens: u64,
}

impl Default for TokenUsage {
    fn default() -> (r: Self)
        ensures
            r.input_tokens == 0 && r.output_tokens == 0 && r.cache_creation_tokens == 0
                && r.cache_read_tokens == 0,
    {
        TokenUsage { input_tokens: 0, output_tokens: 0, cache_creation_tokens: 0, cache_read_tokens: 0 }
    }
}

/// Typed payload of an observation.
#[derive(Debug)]
pub enum ObservationKind {
    ModelCallStart {
        call_id: String,
        client_request_id: Option<String>,
        requested_model: Option<String>,
        prompt_text: Option<String>,
        started_at: i64,
    },
    ModelCallFirstToken { call_id: String, ttft_ms: u64 },
    ToolEmitted { call_id: String, tool_use_id: String, tool_name: String, started_at: i64 },
    ToolInputDelta { tool_use_id: String, partial_json: String },
    ToolInputComplete { tool_use_id: String, input_json: String },
    ToolResult {
        tool_use_id: String,
        raw_result_preview: Option<String>,
        effective_result_preview: Option<String>,
        status: String,
    },
    ModelCallEnd {
        call_id: String,
        status: String,
        tokens: TokenUsage,
        stop_reason: Option<String>,
        cost_microusd: i64,
        ended_at: i64,
        provider_request_id: Option<String>,
        error: Option<String>,
        http_status_code: Option<u16>,
    },
    PromptSubmit { prompt_id: String, prompt_text: Option<String>, started_at: i64 },
    AgentStart { agent_id: String, agent_type: String, started_at: i64 },
    AgentStop { agent_id: String, ended_at: i64 },
}

/// Raw event appended to the observation log.
#[derive(Debug)]
pub struct Observation {
    pub event_id: String,
    pub session_id: String,
    pub source: String,
    pub occurred_at: i64,
    pub received_at: i64,
    pub source_sequence: Option<String>,
    pub source_version: Option<String>,
    pub payload_hash: String,
    pub kind: ObservationKind,
}

/// The event type name of a payload kind.
pub open spec fn event_type_name(k: ObservationKind) -> Seq<char> {
    match k {
        ObservationKind::ModelCallStart { .. } => "model_call_start"@,
        ObservationKind::ModelCallFirstToken { .. } => "model_call_first_token"@,
        ObservationKind::ToolEmitted { .. } => "tool_emitted"@,
        ObservationKind::ToolInputDelta { .. } => "tool_input_delta"@,
        ObservationKind::ToolInputComplete { .. } => "tool_input_complete"@,
        ObservationKind::ToolResult { .. } => "tool_result"@,
        ObservationKind::ModelCallEnd { .. } => "model_call_end"@,
        ObservationKind::PromptSubmit { .. } => "prompt_submit"@,
        ObservationKind::AgentStart { .. } => "agent_start"@,
        ObservationKind::AgentStop { .. } => "agent_stop"@,
    }
}

/// The id that correlates a payload: its call, tool use, prompt or agent id.
pub open spec fn correlation_id(k: ObservationKind) -> Seq<char> {
    match k {
        ObservationKind::ModelCallStart { call_id, .. } => call_id@,
        ObservationKind::ModelCallFirstToken { call_id, .. } => call_id@,
        ObservationKind::ModelCallEnd { call_id, .. } => call_id@,
        ObservationKind::ToolEmitted { tool_use_id, .. } => tool_use_id@,
        ObservationKind::ToolInputDelta { tool_use_id, .. } => tool_use_id@,
        ObservationKind::ToolInputComplete { tool_use_id, .. } => tool_use_id@,
        ObservationKind::ToolResult { tool_use_id, .. } => tool_use_id@,
        ObservationKind::PromptSubmit { prompt_id, .. } => prompt_id@,
        ObservationKind::AgentStart { agent_id, .. } => agent_id@,
        ObservationKind::AgentStop { agent_id, .. } => agent_id@,
    }
}

impl Observation {
    /// Human-readable event type derived from the payload kind.
    pub fn event_type(&self) -> (r: &'static str)
        ensures
            r@ == event_type_name(self.kind),
    {
        match &self.kind {
            ObservationKind::ModelCallStart { .. } => "model_call_start",
            ObservationKind::ModelCallFirstToken { .. } => "model_call_first_token",
            ObservationKind::ToolEmitted { .. } => "tool_emitted",
            ObservationKind::ToolInputDelta { .. } => "tool_input_delta",
            ObservationKind::ToolInputComplete { .. } => "tool_input_complete",
            ObservationKind::ToolResult { .. } => "tool_result",
            ObservationKind::ModelCallEnd { .. } => "model_call_end",
            ObservationKind::PromptSubmit { .. } => "prompt_submit",
            ObservationKind::AgentStart { .. } => "agent_start",
            ObservationKind::AgentStop { .. } => "agent_stop",
        }
    }

    /// Correlation hint for the reconciler (call, tool use, prompt or agent id).
    /// Every payload kind has one.
    pub fn correlation_hint(&self) -> (r: Option<&str>)
        ensures
            r matches Some(h) && h@ == correlation_id(self.kind),
    {
        match &self.kind {
            ObservationKind::ModelCallStart { call_id, .. } => Some(call_id.as_str()),
            ObservationKind::ModelCallFirstToken { call_id, .. } => Some(call_id.as_str()),
            ObservationKind::ModelCallEnd { call_id, .. } => Some(call_id.as_str()),
            ObservationKind::ToolEmitted { tool_use_id, .. } => Some(tool_use_id.as_str()),
            ObservationKind::ToolInputDelta { tool_use_id, .. } => Some(tool_use_id.as_str()),
            ObservationKind::ToolInputComplete { tool_use_id, .. } => Some(tool_use_id.as_str()),
            ObservationKind::ToolResult { tool_use_id, .. } => Some(tool_use_id.as_str()),
            ObservationKind::PromptSubmit { prompt_id, .. } => Some(prompt_id.as_str()),
            ObservationKind::AgentStart { agent_id, .. } => Some(agent_id.as_str()),
            ObservationKind::AgentStop { agent_id, .. } => Some(agent_id.as_str()),
        }
    }
}


/// The identifier named `field` that a payload carries: `call_id` of the model
/// call events, `tool_use_id` of the tool events, `prompt_id` of a prompt and
/// `agent_id` of the agent events; none for any other pair.
pub open spec fn spec_extract_field(kind: ObservationKind, field: Seq<char>) -> Option<Seq<char>> {
    match kind {
        ObservationKind::ModelCallStart { call_id, .. }
        | ObservationKind::ModelCallFirstToken { call_id, .. }
        | ObservationKind::ModelCallEnd { call_id, .. } => if field == "call_id"@ {
            Some(call_id@)
        } else {
            None
        },
        ObservationKind::ToolEmitted { tool_use_id, .. }
        | ObservationKind::ToolInputDelta { tool_use_id, .. }
        | ObservationKind::ToolInputComplete { tool_use_id, .. }
        | ObservationKind::ToolResult { tool_use_id, .. } => if field == "tool_use_id"@ {
            Some(tool_use_id@)
        } else {
            None
        },
        ObservationKind::PromptSubmit { prompt_id, .. } => if field == "prompt_id"@ {
            Some(prompt_id@)
        } else {
            None
        },
        ObservationKind::AgentStart { agent_id, .. }
        | ObservationKind::AgentStop { agent_id, .. } => if field == "agent_id"@ {
            Some(agent_id@)
        } else {
            None
        },
    }
}

/// The identifier named `field` that a payload carries, if it carries one.
pub fn extract_field(kind: &ObservationKind, field: &str) -> (r: Option<String>)
    ensures
        opt_view(r) == spec_extract_field(*kind, field@),
{
    match kind {
        ObservationKind::ModelCallStart { call_id, .. }
        | ObservationKind::ModelCallFirstToken { call_id, .. }
        | ObservationKind::ModelCallEnd { call_id, .. } => if str_eq(field, "call_id") {
            Some(call_id.clone())
        } else {
            None
        },
        ObservationKind::ToolEmitted { tool_use_id, .. }
        | ObservationKind::ToolInputDelta { tool_use_id, .. }
        | ObservationKind::ToolInputComplete { tool_use_id, .. }
        | ObservationKind::ToolResult { tool_use_id, .. } => if str_eq(field, "tool_use_id") {
            Some(tool_use_id.clone())
        } else {
            None
        },
        ObservationKind::PromptSubmit { prompt_id, .. } => if str_eq(field, "prompt_id") {
            Some(prompt_id.clone())
        } else {
            None
        },
        ObservationKind::AgentStart { agent_id, .. }
        | ObservationKind::AgentStop { agent_id, .. } => if str_eq(field, "agent_id") {
            Some(agent_id.clone())
        } else {
            None
        },
    }
}

} // verus!
