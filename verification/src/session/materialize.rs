//! The materialised session tables: what each observation does to a session's
//! model-call and tool-invocation rows. Storage reads and writes the rows; the
//! rules of the change stand here.

use vstd::prelude::*;

use crate::session::domain::{
    call_status_of, tool_status_of, CallStatus, ModelCallRow, ToolInvocationRow, ToolStatus,
};
use crate::session::observation::{Observation, ObservationKind};
use crate::text::{opt_view, owned, str_eq, truncate, truncate_seq};

verus! {

/// Characters kept of a tool's effective input.
pub const INPUT_PREVIEW_CHARS: usize = 1000;

/// Characters kept of a tool's result previews.
pub const RESULT_PREVIEW_CHARS: usize = 500;

/// A model-call row as plain values.
pub struct ModelCallView {
    pub id: Seq<char>,
    pub session_id: Seq<char>,
    pub execution_run_id: Option<Seq<char>>,
    pub sequence_no: i64,
    pub previous_model_call_id: Option<Seq<char>>,
    pub client_request_id: Option<Seq<char>>,
    pub provider_request_id: Option<Seq<char>>,
    pub status: CallStatus,
    pub started_at: i64,
    pub requested_model: Option<Seq<char>>,
    pub resolved_model: Seq<char>,
    pub provider: Seq<char>,
    pub upstream: Option<Seq<char>>,
    pub input_tokens: i64,
    pub output_tokens: i64,
    pub cache_creation_tokens: i64,
    pub cache_read_tokens: i64,
    pub cost_microusd: i64,
    pub duration_ms: Option<i64>,
    pub ttft_ms: Option<i64>,
    pub stop_reason: Option<Seq<char>>,
    pub http_status_code: Option<i64>,
    pub error_type: Option<Seq<char>>,
    pub error_message: Option<Seq<char>>,
}

impl View for ModelCallRow {
    type V = ModelCallView;

    open spec fn view(&self) -> ModelCallView {
        ModelCallView {
            id: self.id@,
            session_id: self.session_id@,
            execution_run_id: opt_view(self.execution_run_id),
            sequence_no: self.sequence_no,
            previous_model_call_id: opt_view(self.previous_model_call_id),
            client_request_id: opt_view(self.client_request_id),
            provider_request_id: opt_view(self.provider_request_id),
            status: self.status,
            started_at: self.started_at,
            requested_model: opt_view(self.requested_model),
            resolved_model: self.resolved_model@,
            provider: self.provider@,
            upstream: opt_view(self.upstream),
            input_tokens: self.input_tokens,
            output_tokens: self.output_tokens,
            cache_creation_tokens: self.cache_creation_tokens,
            cache_read_tokens: self.cache_read_tokens,
            cost_microusd: self.cost_microusd,
            duration_ms: self.duration_ms,
            ttft_ms: self.ttft_ms,
            stop_reason: opt_view(self.stop_reason),
            http_status_code: self.http_status_code,
            error_type: opt_view(self.error_type),
            error_message: opt_view(self.error_message),
        }
    }
}

/// A tool-invocation row as plain values.
pub struct ToolRowView {
    pub id: Seq<char>,
    pub model_call_id: Seq<char>,
    pub tool_use_id: Option<Seq<char>>,
    pub operation_seq: i64,
    pub tool_name: Seq<char>,
    pub status: ToolStatus,
    pub started_at: Option<i64>,
    pub ended_at: Option<i64>,
    pub duration_ms: Option<i64>,
    pub model_input_preview: Option<Seq<char>>,
    pub effective_input_preview: Option<Seq<char>>,
    pub raw_result_preview: Option<Seq<char>>,
    pub effective_result_preview: Option<Seq<char>>,
}

impl View for ToolInvocationRow {
    type V = ToolRowView;

    open spec fn view(&self) -> ToolRowView {
        ToolRowView {
            id: self.id@,
            model_call_id: self.model_call_id@,
            tool_use_id: opt_view(self.tool_use_id),
            operation_seq: self.operation_seq,
            tool_name: self.tool_name@,
            status: self.status,
            started_at: self.started_at,
            ended_at: self.ended_at,
            duration_ms: self.duration_ms,
            model_input_preview: opt_view(self.model_input_preview),
            effective_input_preview: opt_view(self.effective_input_preview),
            raw_result_preview: opt_view(self.raw_result_preview),
            effective_result_preview: opt_view(self.effective_result_preview),
        }
    }
}

/// The model calls and tool invocations of a session.
#[derive(Debug)]
pub struct SessionRows {
    pub model_calls: Vec<ModelCallRow>,
    pub tool_invocations: Vec<ToolInvocationRow>,
}

/// A session's rows as plain values.
pub struct SessionRowsView {
    pub model_calls: Seq<ModelCallView>,
    pub tool_invocations: Seq<ToolRowView>,
}

/// The rows of a list, each as plain values.
pub open spec fn call_views(s: Seq<ModelCallRow>) -> Seq<ModelCallView> {
    s.map_values(|c: ModelCallRow| c@)
}

/// The rows of a list, each as plain values.
pub open spec fn tool_views(s: Seq<ToolInvocationRow>) -> Seq<ToolRowView> {
    s.map_values(|t: ToolInvocationRow| t@)
}

impl View for SessionRows {
    type V = SessionRowsView;

    open spec fn view(&self) -> SessionRowsView {
        SessionRowsView {
            model_calls: call_views(self.model_calls@),
            tool_invocations: tool_views(self.tool_invocations@),
        }
    }
}

/// The highest sequence number among a session's calls, or -1.
pub open spec fn max_call_seq(cs: Seq<ModelCallView>, session_id: Seq<char>) -> int
    decreases cs.len(),
{
    if cs.len() == 0 {
        -1
    } else {
        let m = max_call_seq(cs.drop_last(), session_id);
        let c = cs.last();
        if c.session_id == session_id && c.sequence_no > m {
            c.sequence_no as int
        } else {
            m
        }
    }
}

/// An existing call keeps a new one out: the same id, or a call of the same
/// session at the same sequence number.
pub open spec fn blocks_call(c: ModelCallView, call_id: Seq<char>, session_id: Seq<char>, seq: int) -> bool {
    c.id == call_id || (c.session_id == session_id && c.sequence_no == seq)
}

/// The row of a call that has just started: in progress, at sequence number
/// `seq`, with the defaults of every column the start does not carry.
pub open spec fn started_call(
    call_id: Seq<char>,
    session_id: Seq<char>,
    seq: i64,
    client_request_id: Option<Seq<char>>,
    requested_model: Option<Seq<char>>,
) -> ModelCallView {
    ModelCallView {
        id: call_id,
        session_id,
        execution_run_id: None,
        sequence_no: seq,
        previous_model_call_id: None,
        client_request_id,
        provider_request_id: None,
        status: CallStatus::InProgress,
        started_at: 0,
        requested_model,
        resolved_model: "unknown"@,
        provider: "unknown"@,
        upstream: None,
        input_tokens: 0,
        output_tokens: 0,
        cache_creation_tokens: 0,
        cache_read_tokens: 0,
        cost_microusd: 0,
        duration_ms: None,
        ttft_ms: None,
        stop_reason: None,
        http_status_code: None,
        error_type: None,
        error_message: None,
    }
}

/// The first time-to-first-token of a call is kept; later ones are ignored.
pub open spec fn with_first_token(c: ModelCallView, call_id: Seq<char>, ttft: i64) -> ModelCallView {
    if c.id == call_id && c.ttft_ms is None {
        ModelCallView { ttft_ms: Some(ttft), ..c }
    } else {
        c
    }
}

/// The end of a call overwrites its status, usage, cost, stop reason, provider
/// request id, error and HTTP status. Its duration column takes the end time.
pub open spec fn with_end(
    c: ModelCallView,
    call_id: Seq<char>,
    status: Seq<char>,
    tokens: (i64, i64, i64, i64),
    stop_reason: Option<Seq<char>>,
    cost_microusd: i64,
    ended_at: i64,
    provider_request_id: Option<Seq<char>>,
    error: Option<Seq<char>>,
    http_status_code: Option<i64>,
) -> ModelCallView {
    if c.id == call_id {
        ModelCallView {
            status: call_status_of(status),
            input_tokens: tokens.0,
            output_tokens: tokens.1,
            cache_creation_tokens: tokens.2,
            cache_read_tokens: tokens.3,
            cost_microusd,
            duration_ms: Some(ended_at),
            stop_reason,
            provider_request_id,
            error_type: if error is Some {
                Some("upstream_error"@)
            } else {
                None
            },
            error_message: error,
            http_status_code,
            ..c
        }
    } else {
        c
    }
}

/// The highest operation number among a call's tools, or -1.
pub open spec fn max_op_seq(ts: Seq<ToolRowView>, call_id: Seq<char>) -> int
    decreases ts.len(),
{
    if ts.len() == 0 {
        -1
    } else {
        let m = max_op_seq(ts.drop_last(), call_id);
        let t = ts.last();
        if t.model_call_id == call_id && t.operation_seq > m {
            t.operation_seq as int
        } else {
            m
        }
    }
}

/// The id of the row of a tool use.
pub open spec fn tool_row_id(tool_use_id: Seq<char>) -> Seq<char> {
    "tool-"@ + tool_use_id
}

/// An existing row keeps a new tool row out: the same id, the same tool use,
/// or the same operation number of the same call.
pub open spec fn blocks_tool(t: ToolRowView, call_id: Seq<char>, tool_use_id: Seq<char>, seq: int) -> bool {
    t.id == tool_row_id(tool_use_id) || t.tool_use_id == Some(tool_use_id) || (t.model_call_id
        == call_id && t.operation_seq == seq)
}

/// The row of a tool that a call has just emitted.
pub open spec fn emitted_tool(
    call_id: Seq<char>,
    tool_use_id: Seq<char>,
    seq: i64,
    tool_name: Seq<char>,
    started_at: i64,
) -> ToolRowView {
    ToolRowView {
        id: tool_row_id(tool_use_id),
        model_call_id: call_id,
        tool_use_id: Some(tool_use_id),
        operation_seq: seq,
        tool_name,
        status: ToolStatus::Emitted,
        started_at: Some(started_at),
        ended_at: None,
        duration_ms: None,
        model_input_preview: None,
        effective_input_preview: None,
        raw_result_preview: None,
        effective_result_preview: None,
    }
}

/// A tool's input is complete: its status and its effective input preview.
pub open spec fn with_input(t: ToolRowView, tool_use_id: Seq<char>, input_json: Seq<char>) -> ToolRowView {
    if t.tool_use_id == Some(tool_use_id) {
        ToolRowView {
            status: ToolStatus::InputComplete,
            effective_input_preview: Some(truncate_seq(input_json, INPUT_PREVIEW_CHARS as nat)),
            ..t
        }
    } else {
        t
    }
}

/// A preview cut to the result limit.
pub open spec fn result_preview(p: Option<Seq<char>>) -> Option<Seq<char>> {
    match p {
        Some(s) => Some(truncate_seq(s, RESULT_PREVIEW_CHARS as nat)),
        None => None,
    }
}

/// A tool's result: its status, both previews and its end time.
pub open spec fn with_result(
    t: ToolRowView,
    tool_use_id: Seq<char>,
    raw: Option<Seq<char>>,
    effective: Option<Seq<char>>,
    status: Seq<char>,
    occurred_at: i64,
) -> ToolRowView {
    if t.tool_use_id == Some(tool_use_id) {
        ToolRowView {
            status: tool_status_of(status),
            raw_result_preview: result_preview(raw),
            effective_result_preview: result_preview(effective),
            ended_at: Some(occurred_at),
            ..t
        }
    } else {
        t
    }
}

/// What an observation does to a session's rows.
/// - A call start adds an in-progress call at the session's next sequence
///   number (0 for its first call) unless a row keeps it out (or that number
///   does not fit).
/// - A first token sets the time-to-first-token of a call that has none.
/// - A tool emission adds a tool row at the call's next operation number
///   unless a row keeps it out (or that number does not fit).
/// - A complete input and a result update the rows of that tool use.
/// - A call end updates the call's row.
/// - Input deltas, prompts and agent starts and stops change nothing here.
pub open spec fn spec_apply_observation(t: SessionRowsView, o: Observation) -> SessionRowsView {
    match o.kind {
        ObservationKind::ModelCallStart { call_id, client_request_id, requested_model, .. } => {
            let seq = max_call_seq(t.model_calls, o.session_id@) + 1;
            if seq > i64::MAX || exists|i: int|
                0 <= i < t.model_calls.len() && blocks_call(
                    #[trigger] t.model_calls[i],
                    call_id@,
                    o.session_id@,
                    seq,
                ) {
                t
            } else {
                SessionRowsView {
                    model_calls: t.model_calls.push(
                        started_call(
                            call_id@,
                            o.session_id@,
                            seq as i64,
                            opt_view(client_request_id),
                            opt_view(requested_model),
                        ),
                    ),
                    tool_invocations: t.tool_invocations,
                }
            }
        },
        ObservationKind::ModelCallFirstToken { call_id, ttft_ms } => SessionRowsView {
            model_calls: t.model_calls.map_values(
                |c: ModelCallView| with_first_token(c, call_id@, ttft_ms as i64),
            ),
            tool_invocations: t.tool_invocations,
        },
        ObservationKind::ToolEmitted { call_id, tool_use_id, tool_name, started_at } => {
            let seq = max_op_seq(t.tool_invocations, call_id@) + 1;
            if seq > i64::MAX || exists|i: int|
                0 <= i < t.tool_invocations.len() && blocks_tool(
                    #[trigger] t.tool_invocations[i],
                    call_id@,
                    tool_use_id@,
                    seq,
                ) {
                t
            } else {
                SessionRowsView {
                    model_calls: t.model_calls,
                    tool_invocations: t.tool_invocations.push(
                        emitted_tool(call_id@, tool_use_id@, seq as i64, tool_name@, started_at),
                    ),
                }
            }
        },
        ObservationKind::ToolInputComplete { tool_use_id, input_json } => SessionRowsView {
            model_calls: t.model_calls,
            tool_invocations: t.tool_invocations.map_values(
                |r: ToolRowView| with_input(r, tool_use_id@, input_json@),
            ),
        },
        ObservationKind::ToolResult {
            tool_use_id,
            raw_result_preview,
            effective_result_preview,
            status,
        } => SessionRowsView {
            model_calls: t.model_calls,
            tool_invocations: t.tool_invocations.map_values(
                |r: ToolRowView|
                    with_result(
                        r,
                        tool_use_id@,
                        opt_view(raw_result_preview),
                        opt_view(effective_result_preview),
                        status@,
                        o.occurred_at,
                    ),
            ),
        },
        ObservationKind::ModelCallEnd {
            call_id,
            status,
            tokens,
            stop_reason,
            cost_microusd,
            ended_at,
            provider_request_id,
            error,
            http_status_code,
        } => SessionRowsView {
            model_calls: t.model_calls.map_values(
                |c: ModelCallView|
                    with_end(
                        c,
                        call_id@,
                        status@,
                        (
                            tokens.input_tokens as i64,
                            tokens.output_tokens as i64,
                            tokens.cache_creation_tokens as i64,
                            tokens.cache_read_tokens as i64,
                        ),
                        opt_view(stop_reason),
                        cost_microusd,
                        ended_at,
                        opt_view(provider_request_id),
                        opt_view(error),
                        match http_status_code {
                            Some(h) => Some(h as i64),
                            None => None,
                        },
                    ),
            ),
            tool_invocations: t.tool_invocations,
        },
        _ => t,
    }
}

/// Applying an observation a second time changes nothing: a start or an
/// emission that was added now finds its own row, and every update sets the
/// same values again.
pub proof fn apply_observation_idempotent(t: SessionRowsView, o: Observation)
    ensures
        spec_apply_observation(spec_apply_observation(t, o), o) == spec_apply_observation(t, o),
{
    let once = spec_apply_observation(t, o);
    match o.kind {
        ObservationKind::ModelCallStart { call_id, .. } => {
            if once != t {
                let n = once.model_calls.len() - 1;
                let seq2 = max_call_seq(once.model_calls, o.session_id@) + 1;
                assert(blocks_call(once.model_calls[n], call_id@, o.session_id@, seq2));
            }
        },
        ObservationKind::ModelCallFirstToken { call_id, ttft_ms } => {
            assert(once.model_calls.map_values(
                |c: ModelCallView| with_first_token(c, call_id@, ttft_ms as i64),
            ) =~= once.model_calls);
        },
        ObservationKind::ToolEmitted { call_id, tool_use_id, .. } => {
            if once != t {
                let n = once.tool_invocations.len() - 1;
                let seq2 = max_op_seq(once.tool_invocations, call_id@) + 1;
                assert(blocks_tool(once.tool_invocations[n], call_id@, tool_use_id@, seq2));
            }
        },
        ObservationKind::ToolInputComplete { tool_use_id, input_json } => {
            assert(once.tool_invocations.map_values(
                |r: ToolRowView| with_input(r, tool_use_id@, input_json@),
            ) =~= once.tool_invocations);
        },
        ObservationKind::ToolResult {
            tool_use_id,
            raw_result_preview,
            effective_result_preview,
            status,
        } => {
            assert(once.tool_invocations.map_values(
                |r: ToolRowView|
                    with_result(
                        r,
                        tool_use_id@,
                        opt_view(raw_result_preview),
                        opt_view(effective_result_preview),
                        status@,
                        o.occurred_at,
                    ),
            ) =~= once.tool_invocations);
        },
        ObservationKind::ModelCallEnd {
            call_id,
            status,
            tokens,
            stop_reason,
            cost_microusd,
            ended_at,
            provider_request_id,
            error,
            http_status_code,
        } => {
            assert(once.model_calls.map_values(
                |c: ModelCallView|
                    with_end(
                        c,
                        call_id@,
                        status@,
                        (
                            tokens.input_tokens as i64,
                            tokens.output_tokens as i64,
                            tokens.cache_creation_tokens as i64,
                            tokens.cache_read_tokens as i64,
                        ),
                        opt_view(stop_reason),
                        cost_microusd,
                        ended_at,
                        opt_view(provider_request_id),
                        opt_view(error),
                        match http_status_code {
                            Some(h) => Some(h as i64),
                            None => None,
                        },
                    ),
            ) =~= once.model_calls);
        },
        _ => {},
    }
}

fn opt_eq(a: &Option<String>, b: &str) -> (r: bool)
    ensures
        r == (opt_view(*a) == Some(b@)),
{
    match a {
        Some(x) => str_eq(x.as_str(), b),
        None => false,
    }
}

fn max_call_seq_of(calls: &Vec<ModelCallRow>, session_id: &String) -> (m: i64)
    ensures
        m as int == max_call_seq(call_views(calls@), session_id@),
{
    let mut m: i64 = -1;
    let mut i: usize = 0;
    while i < calls.len()
        invariant
            i <= calls@.len(),
            m as int == max_call_seq(call_views(calls@).take(i as int), session_id@),
        decreases calls.len() - i,
    {
        proof {
            let w = call_views(calls@).take(i + 1);
            assert(w.drop_last() =~= call_views(calls@).take(i as int));
            assert(w.last() == calls@[i as int]@);
        }
        if str_eq(calls[i].session_id.as_str(), session_id.as_str()) && calls[i].sequence_no > m {
            m = calls[i].sequence_no;
        }
        i += 1;
    }
    assert(call_views(calls@).take(i as int) =~= call_views(calls@));
    m
}

fn start_call(
    calls: &mut Vec<ModelCallRow>,
    call_id: &String,
    session_id: &String,
    client_request_id: &Option<String>,
    requested_model: &Option<String>,
)
    ensures
        ({
            let before = call_views(old(calls)@);
            let seq = max_call_seq(before, session_id@) + 1;
            call_views(final(calls)@) == (if seq > i64::MAX || exists|i: int|
                0 <= i < before.len() && blocks_call(#[trigger] before[i], call_id@, session_id@, seq) {
                before
            } else {
                before.push(
                    started_call(
                        call_id@,
                        session_id@,
                        seq as i64,
                        opt_view(*client_request_id),
                        opt_view(*requested_model),
                    ),
                )
            })
        }),
{
    let m = max_call_seq_of(calls, session_id);
    if m == i64::MAX {
        return;
    }
    let seq = m + 1;
    let mut i: usize = 0;
    while i < calls.len()
        invariant
            i <= calls@.len(),
            seq as int == max_call_seq(call_views(calls@), session_id@) + 1,
            forall|j: int|
                0 <= j < i ==> !blocks_call(#[trigger] call_views(calls@)[j], call_id@, session_id@, seq as int),
        decreases calls.len() - i,
    {
        let c = &calls[i];
        if str_eq(c.id.as_str(), call_id.as_str()) || (str_eq(c.session_id.as_str(), session_id.as_str())
            && c.sequence_no == seq) {
            assert(blocks_call(call_views(calls@)[i as int], call_id@, session_id@, seq as int));
            return;
        }
        i += 1;
    }
    let row = ModelCallRow {
        id: call_id.clone(),
        session_id: session_id.clone(),
        execution_run_id: None,
        sequence_no: seq,
        previous_model_call_id: None,
        client_request_id: crate::text::copy_opt(client_request_id),
        provider_request_id: None,
        status: CallStatus::InProgress,
        started_at: 0,
        requested_model: crate::text::copy_opt(requested_model),
        resolved_model: owned("unknown"),
        provider: owned("unknown"),
        upstream: None,
        input_tokens: 0,
        output_tokens: 0,
        cache_creation_tokens: 0,
        cache_read_tokens: 0,
        cost_microusd: 0,
        duration_ms: None,
        ttft_ms: None,
        stop_reason: None,
        http_status_code: None,
        error_type: None,
        error_message: None,
    };
    proof {
        reveal_strlit("unknown");
    }
    let ghost before = calls@;
    calls.push(row);
    assert(call_views(calls@) =~= call_views(before).push(row@));
}

fn first_token(calls: &mut Vec<ModelCallRow>, call_id: &String, ttft: i64)
    ensures
        call_views(final(calls)@) == call_views(old(calls)@).map_values(
            |c: ModelCallView| with_first_token(c, call_id@, ttft),
        ),
{
    let ghost before = calls@;
    let mut i: usize = 0;
    while i < calls.len()
        invariant
            calls@.len() == before.len(),
            i <= calls@.len(),
            forall|j: int| 0 <= j < i ==> #[trigger] calls@[j]@ == with_first_token(before[j]@, call_id@, ttft),
            forall|j: int| i <= j < calls@.len() ==> #[trigger] calls@[j] == before[j],
        decreases calls.len() - i,
    {
        if str_eq(calls[i].id.as_str(), call_id.as_str()) && calls[i].ttft_ms.is_none() {
            calls[i].ttft_ms = Some(ttft);
        }
        i += 1;
    }
    assert(call_views(calls@) =~= call_views(before).map_values(
        |c: ModelCallView| with_first_token(c, call_id@, ttft),
    ));
}

fn max_seq_of(tools: &Vec<ToolInvocationRow>, call_id: &String) -> (m: i64)
    ensures
        m as int == max_op_seq(tool_views(tools@), call_id@),
{
    let mut m: i64 = -1;
    let mut i: usize = 0;
    while i < tools.len()
        invariant
            i <= tools@.len(),
            m as int == max_op_seq(tool_views(tools@).take(i as int), call_id@),
        decreases tools.len() - i,
    {
        proof {
            let w = tool_views(tools@).take(i + 1);
            assert(w.drop_last() =~= tool_views(tools@).take(i as int));
            assert(w.last() == tools@[i as int]@);
        }
        if str_eq(tools[i].model_call_id.as_str(), call_id.as_str()) && tools[i].operation_seq > m {
            m = tools[i].operation_seq;
        }
        i += 1;
    }
    assert(tool_views(tools@).take(i as int) =~= tool_views(tools@));
    m
}

fn emit_tool(
    tools: &mut Vec<ToolInvocationRow>,
    call_id: &String,
    tool_use_id: &String,
    tool_name: &String,
    started_at: i64,
)
    ensures
        ({
            let before = tool_views(old(tools)@);
            let seq = max_op_seq(before, call_id@) + 1;
            tool_views(final(tools)@) == (if seq > i64::MAX || exists|i: int|
                0 <= i < before.len() && blocks_tool(#[trigger] before[i], call_id@, tool_use_id@, seq) {
                before
            } else {
                before.push(emitted_tool(call_id@, tool_use_id@, seq as i64, tool_name@, started_at))
            })
        }),
{
    let m = max_seq_of(tools, call_id);
    if m == i64::MAX {
        return;
    }
    let seq = m + 1;
    let mut id = owned("tool-");
    crate::text::push_str(&mut id, tool_use_id.as_str());
    proof {
        reveal_strlit("tool-");
    }
    let mut i: usize = 0;
    while i < tools.len()
        invariant
            i <= tools@.len(),
            id@ == tool_row_id(tool_use_id@),
            seq as int == max_op_seq(tool_views(tools@), call_id@) + 1,
            forall|j: int|
                0 <= j < i ==> !blocks_tool(#[trigger] tool_views(tools@)[j], call_id@, tool_use_id@, seq as int),
        decreases tools.len() - i,
    {
        let t = &tools[i];
        if str_eq(t.id.as_str(), id.as_str()) || opt_eq(&t.tool_use_id, tool_use_id.as_str()) || (str_eq(
            t.model_call_id.as_str(),
            call_id.as_str(),
        ) && t.operation_seq == seq) {
            assert(blocks_tool(tool_views(tools@)[i as int], call_id@, tool_use_id@, seq as int));
            return;
        }
        i += 1;
    }
    let row = ToolInvocationRow {
        id,
        model_call_id: call_id.clone(),
        tool_use_id: Some(tool_use_id.clone()),
        operation_seq: seq,
        tool_name: tool_name.clone(),
        status: ToolStatus::Emitted,
        started_at: Some(started_at),
        ended_at: None,
        duration_ms: None,
        model_input_preview: None,
        effective_input_preview: None,
        raw_result_preview: None,
        effective_result_preview: None,
    };
    let ghost before = tools@;
    tools.push(row);
    assert(tool_views(tools@) =~= tool_views(before).push(row@));
}

fn complete_input(tools: &mut Vec<ToolInvocationRow>, tool_use_id: &String, input_json: &String)
    ensures
        tool_views(final(tools)@) == tool_views(old(tools)@).map_values(
            |r: ToolRowView| with_input(r, tool_use_id@, input_json@),
        ),
{
    let ghost before = tools@;
    let mut i: usize = 0;
    while i < tools.len()
        invariant
            tools@.len() == before.len(),
            i <= tools@.len(),
            forall|j: int| 0 <= j < i ==> #[trigger] tools@[j]@ == with_input(before[j]@, tool_use_id@, input_json@),
            forall|j: int| i <= j < tools@.len() ==> #[trigger] tools@[j] == before[j],
        decreases tools.len() - i,
    {
        if opt_eq(&tools[i].tool_use_id, tool_use_id.as_str()) {
            tools[i].status = ToolStatus::InputComplete;
            tools[i].effective_input_preview = Some(truncate(input_json.as_str(), INPUT_PREVIEW_CHARS));
        }
        i += 1;
    }
    assert(tool_views(tools@) =~= tool_views(before).map_values(
        |r: ToolRowView| with_input(r, tool_use_id@, input_json@),
    ));
}

fn preview_of(p: &Option<String>) -> (r: Option<String>)
    ensures
        opt_view(r) == result_preview(opt_view(*p)),
{
    match p {
        Some(s) => Some(truncate(s.as_str(), RESULT_PREVIEW_CHARS)),
        None => None,
    }
}

fn record_result(
    tools: &mut Vec<ToolInvocationRow>,
    tool_use_id: &String,
    raw: &Option<String>,
    effective: &Option<String>,
    status: &String,
    occurred_at: i64,
)
    ensures
        tool_views(final(tools)@) == tool_views(old(tools)@).map_values(
            |r: ToolRowView|
                with_result(r, tool_use_id@, opt_view(*raw), opt_view(*effective), status@, occurred_at),
        ),
{
    let ghost before = tools@;
    let st = ToolStatus::parse(status.as_str());
    let mut i: usize = 0;
    while i < tools.len()
        invariant
            tools@.len() == before.len(),
            i <= tools@.len(),
            st == tool_status_of(status@),
            forall|j: int|
                0 <= j < i ==> #[trigger] tools@[j]@ == with_result(
                    before[j]@,
                    tool_use_id@,
                    opt_view(*raw),
                    opt_view(*effective),
                    status@,
                    occurred_at,
                ),
            forall|j: int| i <= j < tools@.len() ==> #[trigger] tools@[j] == before[j],
        decreases tools.len() - i,
    {
        if opt_eq(&tools[i].tool_use_id, tool_use_id.as_str()) {
            tools[i].status = st;
            tools[i].raw_result_preview = preview_of(raw);
            tools[i].effective_result_preview = preview_of(effective);
            tools[i].ended_at = Some(occurred_at);
        }
        i += 1;
    }
    assert(tool_views(tools@) =~= tool_views(before).map_values(
        |r: ToolRowView|
            with_result(r, tool_use_id@, opt_view(*raw), opt_view(*effective), status@, occurred_at),
    ));
}

/// The end of a call, as the row takes it.
struct CallEnd {
    status: CallStatus,
    tokens: (i64, i64, i64, i64),
    cost_microusd: i64,
    ended_at: i64,
    http_status_code: Option<i64>,
}

fn end_call(
    calls: &mut Vec<ModelCallRow>,
    call_id: &String,
    status: &String,
    end: &CallEnd,
    stop_reason: &Option<String>,
    provider_request_id: &Option<String>,
    error: &Option<String>,
)
    requires
        end.status == call_status_of(status@),
    ensures
        call_views(final(calls)@) == call_views(old(calls)@).map_values(
            |c: ModelCallView|
                with_end(
                    c,
                    call_id@,
                    status@,
                    end.tokens,
                    opt_view(*stop_reason),
                    end.cost_microusd,
                    end.ended_at,
                    opt_view(*provider_request_id),
                    opt_view(*error),
                    end.http_status_code,
                ),
        ),
{
    let ghost before = calls@;
    let mut i: usize = 0;
    while i < calls.len()
        invariant
            calls@.len() == before.len(),
            i <= calls@.len(),
            end.status == call_status_of(status@),
            forall|j: int|
                0 <= j < i ==> #[trigger] calls@[j]@ == with_end(
                    before[j]@,
                    call_id@,
                    status@,
                    end.tokens,
                    opt_view(*stop_reason),
                    end.cost_microusd,
                    end.ended_at,
                    opt_view(*provider_request_id),
                    opt_view(*error),
                    end.http_status_code,
                ),
            forall|j: int| i <= j < calls@.len() ==> #[trigger] calls@[j] == before[j],
        decreases calls.len() - i,
    {
        if str_eq(calls[i].id.as_str(), call_id.as_str()) {
            calls[i].status = end.status;
            calls[i].input_tokens = end.tokens.0;
            calls[i].output_tokens = end.tokens.1;
            calls[i].cache_creation_tokens = end.tokens.2;
            calls[i].cache_read_tokens = end.tokens.3;
            calls[i].cost_microusd = end.cost_microusd;
            calls[i].duration_ms = Some(end.ended_at);
            calls[i].stop_reason = crate::text::copy_opt(stop_reason);
            calls[i].provider_request_id = crate::text::copy_opt(provider_request_id);
            calls[i].error_type = match error {
                Some(_) => Some(owned("upstream_error")),
                None => None,
            };
            calls[i].error_message = crate::text::copy_opt(error);
            calls[i].http_status_code = end.http_status_code;
            proof {
                reveal_strlit("upstream_error");
            }
        }
        i += 1;
    }
    assert(call_views(calls@) =~= call_views(before).map_values(
        |c: ModelCallView|
            with_end(
                c,
                call_id@,
                status@,
                end.tokens,
                opt_view(*stop_reason),
                end.cost_microusd,
                end.ended_at,
                opt_view(*provider_request_id),
                opt_view(*error),
                end.http_status_code,
            ),
    ));
}

/// Applies one observation to a session's rows, as `spec_apply_observation`
/// says; applying it again changes nothing (`apply_observation_idempotent`).
pub fn apply_observation(rows: &mut SessionRows, obs: &Observation)
    ensures
        final(rows)@ == spec_apply_observation(old(rows)@, *obs),
{
    match &obs.kind {
        ObservationKind::ModelCallStart { call_id, client_request_id, requested_model, .. } => {
            start_call(&mut rows.model_calls, call_id, &obs.session_id, client_request_id, requested_model);
        },
        ObservationKind::ModelCallFirstToken { call_id, ttft_ms } => {
            first_token(&mut rows.model_calls, call_id, #[verifier::truncate] (*ttft_ms as i64));
        },
        ObservationKind::ToolEmitted { call_id, tool_use_id, tool_name, started_at } => {
            emit_tool(&mut rows.tool_invocations, call_id, tool_use_id, tool_name, *started_at);
        },
        ObservationKind::ToolInputComplete { tool_use_id, input_json } => {
            complete_input(&mut rows.tool_invocations, tool_use_id, input_json);
        },
        ObservationKind::ToolResult { tool_use_id, raw_result_preview, effective_result_preview, status } => {
            record_result(
                &mut rows.tool_invocations,
                tool_use_id,
                raw_result_preview,
                effective_result_preview,
                status,
                obs.occurred_at,
            );
        },
        ObservationKind::ModelCallEnd {
            call_id,
            status,
            tokens,
            stop_reason,
            cost_microusd,
            ended_at,
            provider_request_id,
            error,
            http_status_code,
        } => {
            let end = CallEnd {
                status: CallStatus::parse(status.as_str()),
                tokens: (
                    #[verifier::truncate] (tokens.input_tokens as i64),
                    #[verifier::truncate] (tokens.output_tokens as i64),
                    #[verifier::truncate] (tokens.cache_creation_tokens as i64),
                    #[verifier::truncate] (tokens.cache_read_tokens as i64),
                ),
                cost_microusd: *cost_microusd,
                ended_at: *ended_at,
                http_status_code: match http_status_code {
                    Some(h) => Some(*h as i64),
                    None => None,
                },
            };
            end_call(&mut rows.model_calls, call_id, status, &end, stop_reason, provider_request_id, error);
            assert(rows@.model_calls =~= spec_apply_observation(old(rows)@, *obs).model_calls);
        },
        _ => {},
    }
}

/// The rows after a list of observations, applied in order.
pub open spec fn spec_materialize(t: SessionRowsView, obs: Seq<Observation>) -> SessionRowsView
    decreases obs.len(),
{
    if obs.len() == 0 {
        t
    } else {
        spec_apply_observation(spec_materialize(t, obs.drop_last()), obs.last())
    }
}

/// Applies a session's observations in the order given (the order in which
/// they were received).
pub fn materialize(rows: &mut SessionRows, observations: &Vec<Observation>)
    ensures
        final(rows)@ == spec_materialize(old(rows)@, observations@),
{
    let mut i: usize = 0;
    while i < observations.len()
        invariant
            i <= observations@.len(),
            rows@ == spec_materialize(old(rows)@, observations@.take(i as int)),
        decreases observations.len() - i,
    {
        proof {
            let w = observations@.take(i + 1);
            assert(w.drop_last() =~= observations@.take(i as int));
        }
        apply_observation(rows, &observations[i]);
        i += 1;
    }
    assert(observations@.take(i as int) =~= observations@);
}

/// The call of the first tool row of a tool use, if there is one.
pub open spec fn spec_call_for_tool(ts: Seq<ToolRowView>, tool_use_id: Seq<char>) -> Option<Seq<char>>
    decreases ts.len(),
{
    if ts.len() == 0 {
        None
    } else if ts[0].tool_use_id == Some(tool_use_id) {
        Some(ts[0].model_call_id)
    } else {
        spec_call_for_tool(ts.drop_first(), tool_use_id)
    }
}

/// The model call that emitted a tool use.
pub fn model_call_for_tool(rows: &SessionRows, tool_use_id: &str) -> (r: Option<String>)
    ensures
        opt_view(r) == spec_call_for_tool(rows@.tool_invocations, tool_use_id@),
{
    let ts = &rows.tool_invocations;
    let mut i: usize = 0;
    assert(tool_views(ts@).skip(0) =~= tool_views(ts@));
    while i < ts.len()
        invariant
            i <= ts@.len(),
            ts@ == rows.tool_invocations@,
            spec_call_for_tool(tool_views(ts@), tool_use_id@) == spec_call_for_tool(
                tool_views(ts@).skip(i as int),
                tool_use_id@,
            ),
        decreases ts.len() - i,
    {
        proof {
            let w = tool_views(ts@).skip(i as int);
            assert(w.drop_first() =~= tool_views(ts@).skip(i + 1));
            assert(w[0] == ts@[i as int]@);
        }
        if opt_eq(&ts[i].tool_use_id, tool_use_id) {
            let found = ts[i].model_call_id.clone();
            proof {
                let w = tool_views(ts@).skip(i as int);
                assert(w[0] == ts@[i as int]@);
                assert(w[0].tool_use_id == Some(tool_use_id@));
                assert(spec_call_for_tool(w, tool_use_id@) == Some(w[0].model_call_id));
            }
            return Some(found);
        }
        i += 1;
    }
    None
}

/// The observations stored for later materialisation, each event once.
#[derive(Debug)]
pub struct ObservationLog {
    pub observations: Vec<Observation>,
}

/// The event ids of a list of observations.
pub open spec fn event_ids(s: Seq<Observation>) -> Seq<Seq<char>> {
    s.map_values(|o: Observation| o.event_id@)
}

/// Storing an observation: one whose event id is stored already is ignored.
pub open spec fn spec_record(log: Seq<Observation>, obs: Observation) -> Seq<Observation> {
    if event_ids(log).contains(obs.event_id@) {
        log
    } else {
        log.push(obs)
    }
}

impl ObservationLog {
    /// An empty log.
    pub fn new() -> (r: Self)
        ensures
            r.observations@.len() == 0,
    {
        ObservationLog { observations: Vec::new() }
    }

    /// Stores an observation unless one with its event id is stored.
    pub fn record_observation(&mut self, obs: Observation)
        ensures
            final(self).observations@ == spec_record(old(self).observations@, obs),
    {
        let mut i: usize = 0;
        while i < self.observations.len()
            invariant
                i <= self.observations@.len(),
                forall|j: int| 0 <= j < i ==> #[trigger] event_ids(self.observations@)[j] != obs.event_id@,
            decreases self.observations.len() - i,
        {
            if str_eq(self.observations[i].event_id.as_str(), obs.event_id.as_str()) {
                assert(event_ids(self.observations@)[i as int] == obs.event_id@);
                return;
            }
            i += 1;
        }
        self.observations.push(obs);
    }
}

/// Storing the same observation twice stores it once.
pub proof fn record_is_idempotent(log: Seq<Observation>, obs: Observation)
    ensures
        spec_record(spec_record(log, obs), obs) == spec_record(log, obs),
{
    let once = spec_record(log, obs);
    if once != log {
        assert(event_ids(once)[log.len() as int] == obs.event_id@);
    }
}

/// A copy of a tool row.
pub fn copy_tool(t: &ToolInvocationRow) -> (c: ToolInvocationRow)
    ensures
        c == *t,
{
    ToolInvocationRow {
        id: t.id.clone(),
        model_call_id: t.model_call_id.clone(),
        tool_use_id: crate::text::copy_opt_exact(&t.tool_use_id),
        operation_seq: t.operation_seq,
        tool_name: t.tool_name.clone(),
        status: t.status,
        started_at: t.started_at,
        ended_at: t.ended_at,
        duration_ms: t.duration_ms,
        model_input_preview: crate::text::copy_opt_exact(&t.model_input_preview),
        effective_input_preview: crate::text::copy_opt_exact(&t.effective_input_preview),
        raw_result_preview: crate::text::copy_opt_exact(&t.raw_result_preview),
        effective_result_preview: crate::text::copy_opt_exact(&t.effective_result_preview),
    }
}

/// The tool rows of a call, in the order they were added.
pub open spec fn tools_of(ts: Seq<ToolInvocationRow>, call_id: Seq<char>) -> Seq<ToolInvocationRow> {
    ts.filter(|t: ToolInvocationRow| t.model_call_id@ == call_id)
}

/// The tool invocations of a model call.
pub fn tools_of_call(rows: &SessionRows, call_id: &str) -> (r: Vec<ToolInvocationRow>)
    ensures
        r@ == tools_of(rows.tool_invocations@, call_id@),
{
    let ts = &rows.tool_invocations;
    let mut out: Vec<ToolInvocationRow> = Vec::new();
    let mut i: usize = 0;
    while i < ts.len()
        invariant
            i <= ts@.len(),
            ts@ == rows.tool_invocations@,
            out@ == tools_of(ts@.take(i as int), call_id@),
        decreases ts.len() - i,
    {
        proof {
            reveal_with_fuel(Seq::filter, 1);
            assert(ts@.take(i + 1).drop_last() =~= ts@.take(i as int));
        }
        if str_eq(ts[i].model_call_id.as_str(), call_id) {
            out.push(copy_tool(&ts[i]));
        }
        i += 1;
    }
    assert(ts@.take(i as int) =~= ts@);
    out
}

proof fn lemma_max_call_seq_range(cs: Seq<ModelCallView>, session_id: Seq<char>)
    ensures
        -1 <= max_call_seq(cs, session_id) <= i64::MAX,
    decreases cs.len(),
{
    if cs.len() > 0 {
        lemma_max_call_seq_range(cs.drop_last(), session_id);
    }
}

proof fn lemma_max_call_seq_bound(cs: Seq<ModelCallView>, session_id: Seq<char>)
    ensures
        forall|i: int|
            0 <= i < cs.len() && (#[trigger] cs[i]).session_id == session_id ==> cs[i].sequence_no
                <= max_call_seq(cs, session_id),
    decreases cs.len(),
{
    if cs.len() > 0 {
        let d = cs.drop_last();
        lemma_max_call_seq_bound(d, session_id);
        assert forall|i: int|
            0 <= i < cs.len() && (#[trigger] cs[i]).session_id == session_id implies cs[i].sequence_no
                <= max_call_seq(cs, session_id) by {
            if i < d.len() {
                assert(cs[i] == d[i]);
            }
        }
    }
}

/// Within a session, no two calls share a sequence number.
pub open spec fn call_seqs_distinct(cs: Seq<ModelCallView>) -> bool {
    forall|i: int, j: int|
        0 <= i < j < cs.len() && (#[trigger] cs[i]).session_id == (#[trigger] cs[j]).session_id
            ==> cs[i].sequence_no != cs[j].sequence_no
}

/// The start of a call that has no row yet gives it a row of its own, at one
/// more than the highest sequence number of its session (0 for the first),
/// where that number fits.
pub proof fn new_call_gets_own_row(t: SessionRowsView, o: Observation)
    requires
        o.kind is ModelCallStart,
        forall|i: int| 0 <= i < t.model_calls.len() ==> (#[trigger] t.model_calls[i]).id != o.kind->ModelCallStart_call_id@,
        max_call_seq(t.model_calls, o.session_id@) < i64::MAX,
    ensures
        ({
            let r = spec_apply_observation(t, o).model_calls;
            &&& r.len() == t.model_calls.len() + 1
            &&& r.drop_last() == t.model_calls
            &&& r.last().id == o.kind->ModelCallStart_call_id@
            &&& r.last().session_id == o.session_id@
            &&& r.last().sequence_no == max_call_seq(t.model_calls, o.session_id@) + 1
        }),
{
    lemma_max_call_seq_bound(t.model_calls, o.session_id@);
    lemma_max_call_seq_range(t.model_calls, o.session_id@);
    let seq = max_call_seq(t.model_calls, o.session_id@) + 1;
    match o.kind {
        ObservationKind::ModelCallStart { call_id, client_request_id, requested_model, .. } => {
            assert(!exists|i: int|
                0 <= i < t.model_calls.len() && blocks_call(
                    #[trigger] t.model_calls[i],
                    call_id@,
                    o.session_id@,
                    seq,
                ));
            let r = spec_apply_observation(t, o).model_calls;
            assert(r == t.model_calls.push(
                started_call(
                    call_id@,
                    o.session_id@,
                    seq as i64,
                    opt_view(client_request_id),
                    opt_view(requested_model),
                ),
            ));
            assert(r.drop_last() =~= t.model_calls);
        },
        _ => {},
    }
}

/// Every observation keeps the sequence numbers of a session's calls distinct.
pub proof fn apply_keeps_call_seqs_distinct(t: SessionRowsView, o: Observation)
    requires
        call_seqs_distinct(t.model_calls),
    ensures
        call_seqs_distinct(spec_apply_observation(t, o).model_calls),
{
    let cs = t.model_calls;
    let r = spec_apply_observation(t, o).model_calls;
    match o.kind {
        ObservationKind::ModelCallStart { .. } => {
            lemma_max_call_seq_bound(cs, o.session_id@);
            if r != cs {
                assert forall|i: int, j: int|
                    0 <= i < j < r.len() && (#[trigger] r[i]).session_id == (#[trigger] r[j]).session_id
                    implies r[i].sequence_no != r[j].sequence_no by {
                    if j < cs.len() {
                        assert(r[i] == cs[i] && r[j] == cs[j]);
                    } else {
                        assert(r[i] == cs[i]);
                    }
                }
            }
        },
        ObservationKind::ModelCallFirstToken { .. } => {
            assert forall|i: int, j: int|
                0 <= i < j < r.len() && (#[trigger] r[i]).session_id == (#[trigger] r[j]).session_id
                implies r[i].sequence_no != r[j].sequence_no by {
                assert(r[i].session_id == cs[i].session_id && r[i].sequence_no == cs[i].sequence_no);
                assert(r[j].session_id == cs[j].session_id && r[j].sequence_no == cs[j].sequence_no);
            }
        },
        ObservationKind::ModelCallEnd { .. } => {
            assert forall|i: int, j: int|
                0 <= i < j < r.len() && (#[trigger] r[i]).session_id == (#[trigger] r[j]).session_id
                implies r[i].sequence_no != r[j].sequence_no by {
                assert(r[i].session_id == cs[i].session_id && r[i].sequence_no == cs[i].sequence_no);
                assert(r[j].session_id == cs[j].session_id && r[j].sequence_no == cs[j].sequence_no);
            }
        },
        _ => {},
    }
}

} // verus!
