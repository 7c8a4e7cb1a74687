//! The session domain model: status enums, run kinds, classifications and the
//! row projections of the session store.

use vstd::prelude::*;

use crate::text::{owned, str_eq};

verus! {

/// Lifecycle status of a model call (one logical HTTP request).
#[derive(Debug, Clone, Copy, PartialEq, Eq, Structural)]
pub enum CallStatus {
    InProgress,
    Completed,
    Failed,
    Cancelled,
    Interrupted,
}

/// The stored name of a call status.
pub open spec fn call_status_name(s: CallStatus) -> Seq<char> {
    match s {
        CallStatus::InProgress => "in_progress"@,
        CallStatus::Completed => "completed"@,
        CallStatus::Failed => "failed"@,
        CallStatus::Cancelled => "cancelled"@,
        CallStatus::Interrupted => "interrupted"@,
    }
}

/// The call status a stored name denotes; unknown names are in progress.
pub open spec fn call_status_of(s: Seq<char>) -> CallStatus {
    if s == "completed"@ {
        CallStatus::Completed
    } else if s == "failed"@ {
        CallStatus::Failed
    } else if s == "cancelled"@ {
        CallStatus::Cancelled
    } else if s == "interrupted"@ {
        CallStatus::Interrupted
    } else {
        CallStatus::InProgress
    }
}

impl CallStatus {
    /// The stored name of this status.
    pub fn as_str(&self) -> (r: &'static str)
        ensures
            r@ == call_status_name(*self),
    {
        match self {
            CallStatus::InProgress => "in_progress",
            CallStatus::Completed => "completed",
            CallStatus::Failed => "failed",
            CallStatus::Cancelled => "cancelled",
            CallStatus::Interrupted => "interrupted",
        }
    }

    /// The status a stored name denotes; unknown names are in progress.
    pub fn parse(s: &str) -> (r: CallStatus)
        ensures
            r == call_status_of(s@),
    {
        if str_eq(s, "completed") {
            CallStatus::Completed
        } else if str_eq(s, "failed") {
            CallStatus::Failed
        } else if str_eq(s, "cancelled") {
            CallStatus::Cancelled
        } else if str_eq(s, "interrupted") {
            CallStatus::Interrupted
        } else {
            CallStatus::InProgress
        }
    }
}

impl<'a> From<&'a str> for CallStatus {
    fn from(s: &'a str) -> (r: CallStatus) {
        CallStatus::parse(s)
    }
}

impl<'a> vstd::std_specs::convert::FromSpecImpl<&'a str> for CallStatus {
    open spec fn obeys_from_spec() -> bool {
        true
    }

    open spec fn from_spec(s: &'a str) -> CallStatus {
        call_status_of(s@)
    }
}

/// Every call status reads back from its stored name.
pub proof fn call_status_roundtrip(s: CallStatus)
    ensures
        call_status_of(call_status_name(s)) == s,
{
    reveal_strlit("in_progress");
    reveal_strlit("completed");
    reveal_strlit("failed");
    reveal_strlit("cancelled");
    reveal_strlit("interrupted");
    assert("in_progress"@.len() != "completed"@.len());
    assert("in_progress"@.len() != "failed"@.len());
    assert("in_progress"@[0] != "cancelled"@[0]);
    assert("in_progress"@[2] != "interrupted"@[2]);
    assert("failed"@.len() != "completed"@.len());
    assert("cancelled"@[1] != "completed"@[1]);
    assert("cancelled"@.len() != "failed"@.len());
    assert("interrupted"@.len() != "completed"@.len());
    assert("interrupted"@.len() != "failed"@.len());
    assert("interrupted"@.len() != "cancelled"@.len());
}

/// Lifecycle status of a tool invocation. `Emitted` means the model produced a
/// tool-use intent, not that the tool ran.
#[derive(Debug, Clone, Copy, PartialEq, Eq, Structural)]
pub enum ToolStatus {
    Emitted,
    InputComplete,
    AwaitingPermission,
    Running,
    Succeeded,
    Failed,
    Denied,
    Interrupted,
    Abandoned,
}

/// The stored name of a tool status.
pub open spec fn tool_status_name(s: ToolStatus) -> Seq<char> {
    match s {
        ToolStatus::Emitted => "emitted"@,
        ToolStatus::InputComplete => "input_complete"@,
        ToolStatus::AwaitingPermission => "awaiting_permission"@,
        ToolStatus::Running => "running"@,
        ToolStatus::Succeeded => "succeeded"@,
        ToolStatus::Failed => "failed"@,
        ToolStatus::Denied => "denied"@,
        ToolStatus::Interrupted => "interrupted"@,
        ToolStatus::Abandoned => "abandoned"@,
    }
}

/// The tool status a stored name denotes; unknown names are `Emitted`.
pub open spec fn tool_status_of(s: Seq<char>) -> ToolStatus {
    if s == "input_complete"@ {
        ToolStatus::InputComplete
    } else if s == "awaiting_permission"@ {
        ToolStatus::AwaitingPermission
    } else if s == "running"@ {
        ToolStatus::Running
    } else if s == "succeeded"@ {
        ToolStatus::Succeeded
    } else if s == "failed"@ {
        ToolStatus::Failed
    } else if s == "denied"@ {
        ToolStatus::Denied
    } else if s == "interrupted"@ {
        ToolStatus::Interrupted
    } else if s == "abandoned"@ {
        ToolStatus::Abandoned
    } else {
        ToolStatus::Emitted
    }
}

impl ToolStatus {
    /// The stored name of this status.
    pub fn as_str(&self) -> (r: &'static str)
        ensures
            r@ == tool_status_name(*self),
    {
        match self {
            ToolStatus::Emitted => "emitted",
            ToolStatus::InputComplete => "input_complete",
            ToolStatus::AwaitingPermission => "awaiting_permission",
            ToolStatus::Running => "running",
            ToolStatus::Succeeded => "succeeded",
            ToolStatus::Failed => "failed",
            ToolStatus::Denied => "denied",
            ToolStatus::Interrupted => "interrupted",
            ToolStatus::Abandoned => "abandoned",
        }
    }

    /// The status a stored name denotes; unknown names are `Emitted`.
    pub fn parse(s: &str) -> (r: ToolStatus)
        ensures
            r == tool_status_of(s@),
    {
        if str_eq(s, "input_complete") {
            ToolStatus::InputComplete
        } else if str_eq(s, "awaiting_permission") {
            ToolStatus::AwaitingPermission
        } else if str_eq(s, "running") {
            ToolStatus::Running
        } else if str_eq(s, "succeeded") {
            ToolStatus::Succeeded
        } else if str_eq(s, "failed") {
            ToolStatus::Failed
        } else if str_eq(s, "denied") {
            ToolStatus::Denied
        } else if str_eq(s, "interrupted") {
            ToolStatus::Interrupted
        } else if str_eq(s, "abandoned") {
            ToolStatus::Abandoned
        } else {
            ToolStatus::Emitted
        }
    }
}

impl<'a> From<&'a str> for ToolStatus {
    fn from(s: &'a str) -> (r: ToolStatus) {
        ToolStatus::parse(s)
    }
}

impl<'a> vstd::std_specs::convert::FromSpecImpl<&'a str> for ToolStatus {
    open spec fn obeys_from_spec() -> bool {
        true
    }

    open spec fn from_spec(s: &'a str) -> ToolStatus {
        tool_status_of(s@)
    }
}

/// A run kind distinguishes user-initiated work from internal system runs.
#[derive(Debug, Clone, Copy, PartialEq, Eq, Structural)]
pub enum RunKind {
    Main,
    Subagent,
    Compact,
    Title,
    Memory,
    Recap,
    System,
}

/// The stored name of a run kind.
pub open spec fn run_kind_name(k: RunKind) -> Seq<char> {
    match k {
        RunKind::Main => "main"@,
        RunKind::Subagent => "subagent"@,
        RunKind::Compact => "compact"@,
        RunKind::Title => "title"@,
        RunKind::Memory => "memory"@,
        RunKind::Recap => "recap"@,
        RunKind::System => "system"@,
    }
}

/// The run kind a stored name denotes; unknown names are `Main`.
pub open spec fn run_kind_of(s: Seq<char>) -> RunKind {
    if s == "subagent"@ {
        RunKind::Subagent
    } else if s == "compact"@ {
        RunKind::Compact
    } else if s == "title"@ {
        RunKind::Title
    } else if s == "memory"@ {
        RunKind::Memory
    } else if s == "recap"@ {
        RunKind::Recap
    } else if s == "system"@ {
        RunKind::System
    } else {
        RunKind::Main
    }
}

impl RunKind {
    /// The stored name of this kind.
    pub fn as_str(&self) -> (r: &'static str)
        ensures
            r@ == run_kind_name(*self),
    {
        match self {
            RunKind::Main => "main",
            RunKind::Subagent => "subagent",
            RunKind::Compact => "compact",
            RunKind::Title => "title",
            RunKind::Memory => "memory",
            RunKind::Recap => "recap",
            RunKind::System => "system",
        }
    }

    /// The kind a stored name denotes; unknown names are `Main`.
    pub fn parse(s: &str) -> (r: RunKind)
        ensures
            r == run_kind_of(s@),
    {
        if str_eq(s, "subagent") {
            RunKind::Subagent
        } else if str_eq(s, "compact") {
            RunKind::Compact
        } else if str_eq(s, "title") {
            RunKind::Title
        } else if str_eq(s, "memory") {
            RunKind::Memory
        } else if str_eq(s, "recap") {
            RunKind::Recap
        } else if str_eq(s, "system") {
            RunKind::System
        } else {
            RunKind::Main
        }
    }
}

impl<'a> From<&'a str> for RunKind {
    fn from(s: &'a str) -> (r: RunKind) {
        RunKind::parse(s)
    }
}

impl<'a> vstd::std_specs::convert::FromSpecImpl<&'a str> for RunKind {
    open spec fn obeys_from_spec() -> bool {
        true
    }

    open spec fn from_spec(s: &'a str) -> RunKind {
        run_kind_of(s@)
    }
}

/// Every tool status reads back from its stored name.
pub proof fn tool_status_roundtrip(s: ToolStatus)
    ensures
        tool_status_of(tool_status_name(s)) == s,
{
    reveal_strlit("emitted");
    reveal_strlit("input_complete");
    reveal_strlit("awaiting_permission");
    reveal_strlit("running");
    reveal_strlit("succeeded");
    reveal_strlit("failed");
    reveal_strlit("denied");
    reveal_strlit("interrupted");
    reveal_strlit("abandoned");
    assert("emitted"@.len() != "input_complete"@.len());
    assert("emitted"@.len() != "awaiting_permission"@.len());
    assert("emitted"@[0] != "running"@[0]);
    assert("emitted"@.len() != "succeeded"@.len());
    assert("emitted"@.len() != "failed"@.len());
    assert("emitted"@.len() != "denied"@.len());
    assert("emitted"@.len() != "interrupted"@.len());
    assert("emitted"@.len() != "abandoned"@.len());
    assert("input_complete"@.len() != "awaiting_permission"@.len());
    assert("input_complete"@.len() != "running"@.len());
    assert("input_complete"@.len() != "succeeded"@.len());
    assert("input_complete"@.len() != "failed"@.len());
    assert("input_complete"@.len() != "denied"@.len());
    assert("input_complete"@.len() != "interrupted"@.len());
    assert("input_complete"@.len() != "abandoned"@.len());
    assert("awaiting_permission"@.len() != "running"@.len());
    assert("awaiting_permission"@.len() != "succeeded"@.len());
    assert("awaiting_permission"@.len() != "failed"@.len());
    assert("awaiting_permission"@.len() != "denied"@.len());
    assert("awaiting_permission"@.len() != "interrupted"@.len());
    assert("awaiting_permission"@.len() != "abandoned"@.len());
    assert("running"@.len() != "succeeded"@.len());
    assert("running"@.len() != "failed"@.len());
    assert("running"@.len() != "denied"@.len());
    assert("running"@.len() != "interrupted"@.len());
    assert("running"@.len() != "abandoned"@.len());
    assert("succeeded"@.len() != "failed"@.len());
    assert("succeeded"@.len() != "denied"@.len());
    assert("succeeded"@.len() != "interrupted"@.len());
    assert("succeeded"@[0] != "abandoned"@[0]);
    assert("failed"@[0] != "denied"@[0]);
    assert("failed"@.len() != "interrupted"@.len());
    assert("failed"@.len() != "abandoned"@.len());
    assert("denied"@.len() != "interrupted"@.len());
    assert("denied"@.len() != "abandoned"@.len());
    assert("interrupted"@.len() != "abandoned"@.len());
}

/// Every run kind reads back from its stored name.
pub proof fn run_kind_roundtrip(k: RunKind)
    ensures
        run_kind_of(run_kind_name(k)) == k,
{
    reveal_strlit("main");
    reveal_strlit("subagent");
    reveal_strlit("compact");
    reveal_strlit("title");
    reveal_strlit("memory");
    reveal_strlit("recap");
    reveal_strlit("system");
    assert("main"@.len() != "subagent"@.len());
    assert("main"@.len() != "compact"@.len());
    assert("main"@.len() != "title"@.len());
    assert("main"@.len() != "memory"@.len());
    assert("main"@.len() != "recap"@.len());
    assert("main"@.len() != "system"@.len());
    assert("subagent"@.len() != "compact"@.len());
    assert("subagent"@.len() != "title"@.len());
    assert("subagent"@.len() != "memory"@.len());
    assert("subagent"@.len() != "recap"@.len());
    assert("subagent"@.len() != "system"@.len());
    assert("compact"@.len() != "title"@.len());
    assert("compact"@.len() != "memory"@.len());
    assert("compact"@.len() != "recap"@.len());
    assert("compact"@.len() != "system"@.len());
    assert("title"@.len() != "memory"@.len());
    assert("title"@[0] != "recap"@[0]);
    assert("title"@.len() != "system"@.len());
    assert("memory"@.len() != "recap"@.len());
    assert("memory"@[0] != "system"@[0]);
    assert("recap"@.len() != "system"@.len());
}

/// Classification source and confidence for a derived relation.
#[derive(Debug)]
pub struct Classification {
    pub source: String,
    pub confidence: String,
    pub version: String,
}

impl Default for Classification {
    fn default() -> (r: Self)
        ensures
            r.source@ == "heuristic"@,
            r.confidence@ == "weak"@,
            r.version@ == "cc-v2"@,
    {
        Classification {
            source: owned("heuristic"),
            confidence: owned("weak"),
            version: owned("cc-v2"),
        }
    }
}

/// Merge precedence of a confidence level: weak < strong < exact; unknown
/// levels rank as weak.
pub open spec fn spec_confidence_rank(c: Seq<char>) -> u8 {
    if c == "exact"@ {
        3
    } else if c == "strong"@ {
        2
    } else {
        1
    }
}

/// Ranks confidence levels for merge precedence.
pub fn confidence_rank(c: &str) -> (r: u8)
    ensures
        r == spec_confidence_rank(c@),
{
    if str_eq(c, "exact") {
        3
    } else if str_eq(c, "strong") {
        2
    } else {
        1
    }
}

/// Row projection of an execution run.
#[derive(Debug)]
pub struct ExecutionRunRow {
    pub id: String,
    pub session_id: String,
    pub interaction_id: Option<String>,
    pub run_kind: RunKind,
    pub agent_run_id: Option<String>,
    pub started_at: i64,
    pub foreground_completed_at: Option<i64>,
    pub settled_at: Option<i64>,
    pub status: String,
    pub classification_source: String,
    pub classification_confidence: String,
}

/// Row projection of a stable agent identity.
#[derive(Debug)]
pub struct AgentIdentityRow {
    pub id: String,
    pub session_id: String,
    pub external_agent_id: Option<String>,
    pub agent_type: String,
    pub synthetic: bool,
}

/// Row projection of one agent run segment (a start or resume).
#[derive(Debug)]
pub struct AgentRunRow {
    pub id: String,
    pub session_id: String,
    pub identity_id: String,
    pub run_no: i64,
    pub parent_agent_run_id: Option<String>,
    pub spawned_by_tool_invocation_id: Option<String>,
    pub interaction_id: Option<String>,
    pub started_at: i64,
    pub ended_at: Option<i64>,
    pub status: String,
}

/// Row projection of a user interaction.
#[derive(Debug)]
pub struct InteractionRow {
    pub id: String,
    pub session_id: String,
    pub external_prompt_id: Option<String>,
    pub prompt_text: Option<String>,
    pub started_at: i64,
    pub ended_at: Option<i64>,
    pub status: String,
    pub classification_source: String,
    pub classification_confidence: String,
    pub classifier_version: String,
}

/// Row projection of a tool invocation.
#[derive(Debug)]
pub struct ToolInvocationRow {
    pub id: String,
    pub model_call_id: String,
    pub tool_use_id: Option<String>,
    pub operation_seq: i64,
    pub tool_name: String,
    pub status: ToolStatus,
    pub started_at: Option<i64>,
    pub ended_at: Option<i64>,
    pub duration_ms: Option<i64>,
    pub model_input_preview: Option<String>,
    pub effective_input_preview: Option<String>,
    pub raw_result_preview: Option<String>,
    pub effective_result_preview: Option<String>,
}

/// Row projection of a model call for timeline queries.
#[derive(Debug)]
pub struct ModelCallRow {
    pub id: String,
    pub session_id: String,
    pub execution_run_id: Option<String>,
    pub sequence_no: i64,
    pub previous_model_call_id: Option<String>,
    pub client_request_id: Option<String>,
    pub provider_request_id: Option<String>,
    pub status: CallStatus,
    pub started_at: i64,
    pub requested_model: Option<String>,
    pub resolved_model: String,
    pub provider: String,
    pub upstream: Option<String>,
    pub input_tokens: i64,
    pub output_tokens: i64,
    pub cache_creation_tokens: i64,
    pub cache_read_tokens: i64,
    pub cost_microusd: i64,
    pub duration_ms: Option<i64>,
    pub ttft_ms: Option<i64>,
    pub stop_reason: Option<String>,
    pub http_status_code: Option<i64>,
    pub error_type: Option<String>,
    pub error_message: Option<String>,
}

} // verus!
