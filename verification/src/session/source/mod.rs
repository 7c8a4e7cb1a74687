//! Client parsers: each translates one client's requests, stream events and
//! responses into normalised observations. This module holds what they share.

pub mod anthropic;
pub mod codex;
pub mod hook;
pub mod otel;
pub mod stream;

use vstd::prelude::*;

pub use crate::text::truncate;

use crate::config::validation::{join_seq, join_strings};
use crate::json::{
    as_array, as_bool, as_str, get, get_in, json_array, json_bool, json_get, json_in, json_str,
    ov, JsonValue,
};
use crate::relay::upstream::NormalizedResponse;
use crate::session::observation::{correlation_id, Observation, ObservationKind};
use crate::text::{decimal_int, owned, push_i64, push_str, str_eq, truncate_seq, views};

verus! {

/// The current time in milliseconds since the Unix epoch.
///
/// Trusted: calls `chrono::Utc::now().timestamp_millis()`. The result depends on
/// the clock, so nothing is claimed of it.
#[verifier::external_body]
pub(crate) fn now_millis() -> (r: i64) {
    chrono::Utc::now().timestamp_millis()
}

/// Errors of the session layer.
#[derive(Debug)]
pub enum SessionError {
    InvalidArgument(String),
    NotFound(String),
    Serialization(String),
}

/// Facts extracted from a client request body.
#[derive(Debug)]
pub struct RequestFacts {
    pub prompt_text: Option<String>,
    pub prompt_type: Option<String>,
    pub requested_model: Option<String>,
    pub is_tool_result_last: bool,
}

impl Default for RequestFacts {
    fn default() -> (r: Self)
        ensures
            r.prompt_text is None && r.prompt_type is None && r.requested_model is None
                && !r.is_tool_result_last,
    {
        RequestFacts {
            prompt_text: None,
            prompt_type: None,
            requested_model: None,
            is_tool_result_last: false,
        }
    }
}

/// Incremental metadata and observations produced by one streamed event.
#[derive(Debug)]
pub struct StreamUpdate {
    pub text: Option<String>,
    pub thinking: Option<String>,
    pub input_tokens: Option<u32>,
    pub output_tokens: Option<u32>,
    pub cache_creation_tokens: Option<u32>,
    pub cache_read_tokens: Option<u32>,
    pub stop_reason: Option<String>,
    pub message_id: Option<String>,
    pub model: Option<String>,
    pub error: Option<String>,
    pub observations: Vec<Observation>,
}

/// The update carries no metadata.
pub open spec fn no_metadata(u: StreamUpdate) -> bool {
    &&& u.text is None && u.thinking is None
    &&& u.input_tokens is None && u.output_tokens is None
    &&& u.cache_creation_tokens is None && u.cache_read_tokens is None
    &&& u.stop_reason is None && u.message_id is None && u.model is None && u.error is None
}

/// The update that carries nothing.
pub open spec fn is_empty_update(u: StreamUpdate) -> bool {
    no_metadata(u) && u.observations@.len() == 0
}

impl StreamUpdate {
    /// An update that carries nothing.
    pub fn empty() -> (r: Self)
        ensures
            is_empty_update(r),
    {
        StreamUpdate {
            text: None,
            thinking: None,
            input_tokens: None,
            output_tokens: None,
            cache_creation_tokens: None,
            cache_read_tokens: None,
            stop_reason: None,
            message_id: None,
            model: None,
            error: None,
            observations: Vec::new(),
        }
    }
}

impl Default for StreamUpdate {
    fn default() -> (r: Self)
        ensures
            is_empty_update(r),
    {
        StreamUpdate::empty()
    }
}

/// Context shared across a single model call while parsing.
#[derive(Debug)]
pub struct ParseContext {
    pub call_id: String,
    pub session_id: String,
    pub source: &'static str,
}

impl Default for ParseContext {
    fn default() -> (r: Self)
        ensures
            r.call_id@.len() == 0,
            r.session_id@.len() == 0,
            r.source@ == "proxy"@,
    {
        ParseContext { call_id: String::new(), session_id: String::new(), source: "proxy" }
    }
}

/// Checks that every observation names its session: the first one that does
/// not is an invalid argument.
pub fn validate_observations(obs: &[Observation]) -> (r: Result<(), SessionError>)
    ensures
        match r {
            Ok(()) => forall|i: int| 0 <= i < obs@.len() ==> #[trigger] obs@[i].session_id@.len() > 0,
            Err(SessionError::InvalidArgument(m)) => m@ == "observation missing session_id"@
                && exists|i: int| 0 <= i < obs@.len() && #[trigger] obs@[i].session_id@.len() == 0,
            Err(_) => false,
        },
{
    let mut i: usize = 0;
    while i < obs.len()
        invariant
            i <= obs@.len(),
            forall|j: int| 0 <= j < i ==> #[trigger] obs@[j].session_id@.len() > 0,
        decreases obs@.len() - i,
    {
        if crate::text::str_is_empty(obs[i].session_id.as_str()) {
            return Err(SessionError::InvalidArgument(owned("observation missing session_id")));
        }
        i += 1;
    }
    Ok(())
}

/// The prefix that tells observation kinds apart in event ids.
pub open spec fn kind_prefix(k: ObservationKind) -> Seq<char> {
    match k {
        ObservationKind::ToolEmitted { .. } => "emit"@,
        ObservationKind::ToolInputComplete { .. } => "input"@,
        ObservationKind::ToolResult { .. } => "result"@,
        ObservationKind::ToolInputDelta { .. } => "td"@,
        ObservationKind::ModelCallStart { .. } => "start"@,
        ObservationKind::ModelCallEnd { .. } => "end"@,
        ObservationKind::ModelCallFirstToken { .. } => "tft"@,
        ObservationKind::PromptSubmit { .. } => "prompt"@,
        ObservationKind::AgentStart { .. } => "astart"@,
        ObservationKind::AgentStop { .. } => "astop"@,
    }
}

/// The discriminator of an observation kind: its prefix and correlation id.
pub open spec fn spec_discriminator(k: ObservationKind) -> Seq<char> {
    kind_prefix(k) + "-"@ + correlation_id(k)
}

/// The discriminator of an observation kind, which keeps observations made in
/// the same millisecond apart.
pub fn kind_discriminator(kind: &ObservationKind) -> (r: String)
    ensures
        r@ == spec_discriminator(*kind),
{
    let (prefix, id): (&str, &String) = match kind {
        ObservationKind::ToolEmitted { tool_use_id, .. } => ("emit-", tool_use_id),
        ObservationKind::ToolInputComplete { tool_use_id, .. } => ("input-", tool_use_id),
        ObservationKind::ToolResult { tool_use_id, .. } => ("result-", tool_use_id),
        ObservationKind::ToolInputDelta { tool_use_id, .. } => ("td-", tool_use_id),
        ObservationKind::ModelCallStart { call_id, .. } => ("start-", call_id),
        ObservationKind::ModelCallEnd { call_id, .. } => ("end-", call_id),
        ObservationKind::ModelCallFirstToken { call_id, .. } => ("tft-", call_id),
        ObservationKind::PromptSubmit { prompt_id, .. } => ("prompt-", prompt_id),
        ObservationKind::AgentStart { agent_id, .. } => ("astart-", agent_id),
        ObservationKind::AgentStop { agent_id, .. } => ("astop-", agent_id),
    };
    let mut out = owned(prefix);
    push_str(&mut out, id.as_str());
    proof {
        reveal_strlit("emit-");
        reveal_strlit("emit");
        reveal_strlit("input-");
        reveal_strlit("input");
        reveal_strlit("result-");
        reveal_strlit("result");
        reveal_strlit("td-");
        reveal_strlit("td");
        reveal_strlit("start-");
        reveal_strlit("start");
        reveal_strlit("end-");
        reveal_strlit("end");
        reveal_strlit("tft-");
        reveal_strlit("tft");
        reveal_strlit("prompt-");
        reveal_strlit("prompt");
        reveal_strlit("astart-");
        reveal_strlit("astart");
        reveal_strlit("astop-");
        reveal_strlit("astop");
        reveal_strlit("-");
    }
    assert(out@ =~= spec_discriminator(*kind));
    out
}

/// The event id of an observation made at `now` for the call `call_id`.
pub open spec fn event_id_of(call_id: Seq<char>, now: i64, k: ObservationKind) -> Seq<char> {
    call_id + "-"@ + decimal_int(now as int) + "-"@ + spec_discriminator(k)
}

/// `r` is the observation of `kind` made at `now` in `ctx`: a tool emission
/// takes the context's call id; every other kind is kept as it is.
pub open spec fn obs_is(
    r: Observation,
    kind: ObservationKind,
    ctx: ParseContext,
    now: i64,
) -> bool {
    &&& r.event_id@ == event_id_of(ctx.call_id@, now, kind)
    &&& r.payload_hash@ == r.event_id@
    &&& r.session_id@ == ctx.session_id@
    &&& r.source@ == ctx.source@
    &&& r.occurred_at == now && r.received_at == now
    &&& r.source_sequence is None && r.source_version is None
    &&& match kind {
        ObservationKind::ToolEmitted { tool_use_id, tool_name, started_at, .. } => r.kind matches ObservationKind::ToolEmitted {
            call_id: c,
            tool_use_id: t,
            tool_name: n,
            started_at: s,
        } && c@ == ctx.call_id@ && t == tool_use_id && n == tool_name && s == started_at,
        _ => r.kind == kind,
    }
}

/// Wraps an observation kind made at `now` into a full observation.
pub fn obs_from_kind_at(kind: ObservationKind, ctx: &ParseContext, now: i64) -> (r: Observation)
    ensures
        obs_is(r, kind, *ctx, now),
{
    let disc = kind_discriminator(&kind);
    let mut event_id = ctx.call_id.clone();
    push_str(&mut event_id, "-");
    push_i64(&mut event_id, now);
    push_str(&mut event_id, "-");
    push_str(&mut event_id, disc.as_str());
    let kind = match kind {
        ObservationKind::ToolEmitted { tool_use_id, tool_name, started_at, .. } => {
            ObservationKind::ToolEmitted {
                call_id: ctx.call_id.clone(),
                tool_use_id,
                tool_name,
                started_at,
            }
        },
        other => other,
    };
    let hash = event_id.clone();
    Observation {
        event_id,
        session_id: ctx.session_id.clone(),
        source: owned(ctx.source),
        occurred_at: now,
        received_at: now,
        source_sequence: None,
        source_version: None,
        payload_hash: hash,
        kind,
    }
}

/// Wraps an observation kind into a full observation made now.
pub fn obs_from_kind(kind: ObservationKind, ctx: &ParseContext) -> (r: Observation)
    ensures
        exists|now: i64| #[trigger] obs_is(r, kind, *ctx, now),
{
    let now = now_millis();
    obs_from_kind_at(kind, ctx, now)
}

/// The error update of a stream `error` event: its `error.message`.
pub fn stream_error(ev: &JsonValue) -> (r: StreamUpdate)
    ensures
        ov(r.error) == json_str(json_in(json_get(*ev, "error"@), "message"@)),
        is_empty_update(StreamUpdate { error: None, ..r }),
{
    let mut u = StreamUpdate::empty();
    u.error = as_str(get_in(get(ev, "error"), "message"));
    u
}

/// `o` records that tool `id` named `name` was emitted by the call of `ctx` at `now`.
pub open spec fn is_response_tool_obs(
    o: Observation,
    ctx: ParseContext,
    id: Seq<char>,
    name: Seq<char>,
    now: i64,
) -> bool {
    &&& o.event_id@ == "resp-"@ + ctx.call_id@ + "-"@ + id
    &&& o.payload_hash@ == o.event_id@
    &&& o.session_id@ == ctx.session_id@
    &&& o.source@ == ctx.source@
    &&& o.occurred_at == now && o.received_at == now
    &&& o.source_sequence is None && o.source_version is None
    &&& o.kind matches ObservationKind::ToolEmitted { call_id, tool_use_id, tool_name, started_at }
        && call_id@ == ctx.call_id@ && tool_use_id@ == id && tool_name@ == name && started_at == now
}

/// The tool calls of a non-streaming response, as emissions made at `now`.
pub fn tool_calls_to_observations_at(
    normalized: &NormalizedResponse,
    ctx: &ParseContext,
    now: i64,
) -> (r: Vec<Observation>)
    ensures
        r@.len() == normalized.tool_calls@.len(),
        forall|i: int|
            0 <= i < r@.len() ==> is_response_tool_obs(
                #[trigger] r@[i],
                *ctx,
                normalized.tool_calls@[i].id@,
                normalized.tool_calls@[i].name@,
                now,
            ),
{
    let mut out: Vec<Observation> = Vec::new();
    let mut i: usize = 0;
    while i < normalized.tool_calls.len()
        invariant
            i <= normalized.tool_calls@.len(),
            out@.len() == i,
            forall|j: int|
                0 <= j < i ==> is_response_tool_obs(
                    #[trigger] out@[j],
                    *ctx,
                    normalized.tool_calls@[j].id@,
                    normalized.tool_calls@[j].name@,
                    now,
                ),
        decreases normalized.tool_calls@.len() - i,
    {
        let tool = &normalized.tool_calls[i];
        let mut event_id = owned("resp-");
        push_str(&mut event_id, ctx.call_id.as_str());
        push_str(&mut event_id, "-");
        push_str(&mut event_id, tool.id.as_str());
        let hash = event_id.clone();
        out.push(
            Observation {
                event_id,
                session_id: ctx.session_id.clone(),
                source: owned(ctx.source),
                occurred_at: now,
                received_at: now,
                source_sequence: None,
                source_version: None,
                payload_hash: hash,
                kind: ObservationKind::ToolEmitted {
                    call_id: ctx.call_id.clone(),
                    tool_use_id: tool.id.clone(),
                    tool_name: tool.name.clone(),
                    started_at: now,
                },
            },
        );
        i += 1;
    }
    out
}

/// What `tool_calls_to_observations_at` states of its result.
pub open spec fn response_tools_hold(
    normalized: NormalizedResponse,
    ctx: ParseContext,
    now: i64,
    r: Seq<Observation>,
) -> bool {
    &&& r.len() == normalized.tool_calls@.len()
    &&& forall|i: int|
        0 <= i < r.len() ==> is_response_tool_obs(
            #[trigger] r[i],
            ctx,
            normalized.tool_calls@[i].id@,
            normalized.tool_calls@[i].name@,
            now,
        )
}

/// The tool calls of a non-streaming response, as emissions made now.
pub fn tool_calls_to_observations(normalized: &NormalizedResponse, ctx: &ParseContext) -> (r: Vec<
    Observation,
>)
    ensures
        exists|now: i64| #[trigger] response_tools_hold(*normalized, *ctx, now, r@),
{
    let now = now_millis();
    let r = tool_calls_to_observations_at(normalized, ctx, now);
    assert(response_tools_hold(*normalized, *ctx, now, r@));
    r
}

/// A count clamped to `u32`.
pub fn u64_to_u32(v: u64) -> (r: u32)
    ensures
        r == (if v > u32::MAX {
            u32::MAX as int
        } else {
            v as int
        }),
{
    if v > u32::MAX as u64 {
        u32::MAX
    } else {
        v as u32
    }
}

/// A tool result found in a request: tool use id, preview text and whether it
/// is an error.
pub type ResultFact = (Seq<char>, Seq<char>, bool);

/// The text strings of the items of an array.
pub open spec fn item_texts(items: Seq<JsonValue>) -> Seq<Seq<char>>
    decreases items.len(),
{
    if items.len() == 0 {
        Seq::empty()
    } else {
        item_texts(items.drop_last()) + match json_str(json_get(items.last(), "text"@)) {
            Some(t) => seq![t],
            None => Seq::empty(),
        }
    }
}

/// The preview of a result's content: array item texts joined by newlines, or
/// the text itself, or nothing.
pub open spec fn content_preview(c: Option<JsonValue>) -> Seq<char> {
    match c {
        Some(JsonValue::Array(items)) => join_seq(item_texts(items@), "\n"@),
        Some(JsonValue::Str(s)) => s@,
        _ => Seq::empty(),
    }
}

/// The tool result a content block carries, if it is one.
pub open spec fn block_fact(
    block: JsonValue,
    block_type: Seq<char>,
    id_key: Seq<char>,
    content_key: Seq<char>,
) -> Option<ResultFact> {
    if json_str(json_get(block, "type"@)) == Some(block_type) {
        match json_str(json_get(block, id_key)) {
            Some(id) => Some(
                (
                    id,
                    content_preview(json_get(block, content_key)),
                    json_bool(json_get(block, "is_error"@)) == Some(true),
                ),
            ),
            None => None,
        }
    } else {
        None
    }
}

/// The tool results of a list of content blocks.
pub open spec fn blocks_facts(
    blocks: Seq<JsonValue>,
    block_type: Seq<char>,
    id_key: Seq<char>,
    content_key: Seq<char>,
) -> Seq<ResultFact>
    decreases blocks.len(),
{
    if blocks.len() == 0 {
        Seq::empty()
    } else {
        blocks_facts(blocks.drop_last(), block_type, id_key, content_key) + match block_fact(
            blocks.last(),
            block_type,
            id_key,
            content_key,
        ) {
            Some(f) => seq![f],
            None => Seq::empty(),
        }
    }
}

/// The tool results of one message: only user messages with a content array carry any.
pub open spec fn message_facts(
    msg: JsonValue,
    block_type: Seq<char>,
    id_key: Seq<char>,
    content_key: Seq<char>,
) -> Seq<ResultFact> {
    if json_str(json_get(msg, "role"@)) == Some("user"@) {
        match json_array(json_get(msg, "content"@)) {
            Some(blocks) => blocks_facts(blocks, block_type, id_key, content_key),
            None => Seq::empty(),
        }
    } else {
        Seq::empty()
    }
}

/// The tool results of a list of messages, in order.
pub open spec fn messages_facts(
    msgs: Seq<JsonValue>,
    block_type: Seq<char>,
    id_key: Seq<char>,
    content_key: Seq<char>,
) -> Seq<ResultFact>
    decreases msgs.len(),
{
    if msgs.len() == 0 {
        Seq::empty()
    } else {
        messages_facts(msgs.drop_last(), block_type, id_key, content_key) + message_facts(
            msgs.last(),
            block_type,
            id_key,
            content_key,
        )
    }
}

/// The tool results of a request body under one protocol's names.
pub open spec fn body_facts(
    body: JsonValue,
    array_key: Seq<char>,
    block_type: Seq<char>,
    id_key: Seq<char>,
    content_key: Seq<char>,
) -> Seq<ResultFact> {
    match json_array(json_get(body, array_key)) {
        Some(msgs) => messages_facts(msgs, block_type, id_key, content_key),
        None => Seq::empty(),
    }
}

/// Every tool result of a request body: Anthropic `tool_result` blocks of the
/// messages, then Responses-API `function_call_output` items of the input.
pub open spec fn request_result_facts(body: JsonValue) -> Seq<ResultFact> {
    body_facts(body, "messages"@, "tool_result"@, "tool_use_id"@, "content"@) + body_facts(
        body,
        "input"@,
        "function_call_output"@,
        "call_id"@,
        "output"@,
    )
}

/// `o` records the tool result `f` of `session_id`, observed at `now`.
pub open spec fn is_result_obs(o: Observation, f: ResultFact, session_id: Seq<char>, now: i64) -> bool {
    &&& o.event_id@ == "tool-result-"@ + f.0
    &&& o.payload_hash@ == o.event_id@
    &&& o.session_id@ == session_id
    &&& o.source@ == "proxy"@
    &&& o.occurred_at == now && o.received_at == now
    &&& o.source_sequence is None && o.source_version is None
    &&& o.kind matches ObservationKind::ToolResult {
        tool_use_id,
        raw_result_preview,
        effective_result_preview,
        status,
    } && tool_use_id@ == f.0 && ov(raw_result_preview) == Some(truncate_seq(f.1, 500))
        && effective_result_preview is None && status@ == (if f.2 {
        "failed"@
    } else {
        "succeeded"@
    })
}

fn content_preview_of(c: Option<&JsonValue>) -> (r: String)
    ensures
        r@ == content_preview(crate::json::deref_opt(c)),
{
    match c {
        Some(JsonValue::Array(items)) => {
            let mut texts: Vec<String> = Vec::new();
            let mut i: usize = 0;
            while i < items.len()
                invariant
                    i <= items@.len(),
                    views(texts@) == item_texts(items@.take(i as int)),
                decreases items@.len() - i,
            {
                assert(items@.take(i + 1).drop_last() =~= items@.take(i as int));
                assert(items@.take(i + 1).last() == items@[i as int]);
                match as_str(get(&items[i], "text")) {
                    Some(t) => {
                        texts.push(t);
                        assert(views(texts@) =~= item_texts(items@.take(i + 1)));
                    },
                    None => {
                        assert(item_texts(items@.take(i + 1)) =~= item_texts(
                            items@.take(i as int),
                        ));
                    },
                }
                i += 1;
            }
            assert(items@.take(i as int) =~= items@);
            join_strings(&texts, "\n")
        },
        Some(JsonValue::Str(s)) => s.clone(),
        _ => String::new(),
    }
}

fn result_obs(tool_use_id: &String, preview: &String, failed: bool, session_id: &str, now: i64) -> (o:
    Observation)
    ensures
        is_result_obs(o, (tool_use_id@, preview@, failed), session_id@, now),
{
    let mut event_id = owned("tool-result-");
    push_str(&mut event_id, tool_use_id.as_str());
    let hash = event_id.clone();
    Observation {
        event_id,
        session_id: owned(session_id),
        source: owned("proxy"),
        occurred_at: now,
        received_at: now,
        source_sequence: None,
        source_version: None,
        payload_hash: hash,
        kind: ObservationKind::ToolResult {
            tool_use_id: tool_use_id.clone(),
            raw_result_preview: Some(truncate(preview.as_str(), 500)),
            effective_result_preview: None,
            status: if failed {
                owned("failed")
            } else {
                owned("succeeded")
            },
        },
    }
}

/// `new` is `old` followed by one observation per fact.
pub open spec fn appended(
    old: Seq<Observation>,
    new: Seq<Observation>,
    facts: Seq<ResultFact>,
    session_id: Seq<char>,
    now: i64,
) -> bool {
    &&& new.len() == old.len() + facts.len()
    &&& forall|i: int| 0 <= i < old.len() ==> #[trigger] new[i] == old[i]
    &&& forall|i: int|
        0 <= i < facts.len() ==> is_result_obs(
            #[trigger] new[old.len() + i],
            facts[i],
            session_id,
            now,
        )
}

proof fn lemma_appended_trans(
    a: Seq<Observation>,
    b: Seq<Observation>,
    c: Seq<Observation>,
    f1: Seq<ResultFact>,
    f2: Seq<ResultFact>,
    sid: Seq<char>,
    now: i64,
)
    requires
        appended(a, b, f1, sid, now),
        appended(b, c, f2, sid, now),
    ensures
        appended(a, c, f1 + f2, sid, now),
{
    assert forall|i: int| 0 <= i < a.len() implies #[trigger] c[i] == a[i] by {
        assert(c[i] == b[i]);
    }
    assert forall|i: int| 0 <= i < (f1 + f2).len() implies is_result_obs(
        #[trigger] c[a.len() + i],
        (f1 + f2)[i],
        sid,
        now,
    ) by {
        if i < f1.len() {
            assert(c[a.len() + i] == b[a.len() + i]);
        } else {
            let k = i - f1.len();
            assert(b.len() + k == a.len() + i);
            assert(is_result_obs(c[b.len() + k], f2[k], sid, now));
        }
    }
}

proof fn lemma_appended_none(a: Seq<Observation>, sid: Seq<char>, now: i64)
    ensures
        appended(a, a, Seq::empty(), sid, now),
{
}

fn extract_blocks(
    blocks: &Vec<JsonValue>,
    block_type: &str,
    id_key: &str,
    content_key: &str,
    session_id: &str,
    now: i64,
    out: &mut Vec<Observation>,
)
    ensures
        appended(
            old(out)@,
            final(out)@,
            blocks_facts(blocks@, block_type@, id_key@, content_key@),
            session_id@,
            now,
        ),
{
    let mut j: usize = 0;
    proof {
        lemma_appended_none(out@, session_id@, now);
        assert(blocks@.take(0) =~= Seq::<JsonValue>::empty());
    }
    while j < blocks.len()
        invariant
            j <= blocks@.len(),
            appended(
                old(out)@,
                out@,
                blocks_facts(blocks@.take(j as int), block_type@, id_key@, content_key@),
                session_id@,
                now,
            ),
        decreases blocks@.len() - j,
    {
        assert(blocks@.take(j + 1).drop_last() =~= blocks@.take(j as int));
        assert(blocks@.take(j + 1).last() == blocks@[j as int]);
        let ghost before = out@;
        let block = &blocks[j];
        let typed = match as_str(get(block, "type")) {
            Some(t) => str_eq(t.as_str(), block_type),
            None => false,
        };
        let mut pushed = false;
        if typed {
            match as_str(get(block, id_key)) {
                Some(id) => {
                    let preview = content_preview_of(get(block, content_key));
                    let failed = match as_bool(get(block, "is_error")) {
                        Some(b) => b,
                        None => false,
                    };
                    let o = result_obs(&id, &preview, failed, session_id, now);
                    out.push(o);
                    pushed = true;
                    proof {
                        let f = block_fact(blocks@[j as int], block_type@, id_key@, content_key@);
                        assert(f == Some((id@, preview@, failed)));
                        assert(appended(before, out@, seq![f->0], session_id@, now));
                    }
                },
                None => {},
            }
        }
        proof {
            let f = block_fact(blocks@[j as int], block_type@, id_key@, content_key@);
            let prev = blocks_facts(blocks@.take(j as int), block_type@, id_key@, content_key@);
            if pushed {
                lemma_appended_trans(old(out)@, before, out@, prev, seq![f->0], session_id@, now);
            } else {
                assert(f is None);
                assert(prev + Seq::<ResultFact>::empty() =~= prev);
            }
        }
        j += 1;
    }
    assert(blocks@.take(j as int) =~= blocks@);
}

fn extract_message(
    msg: &JsonValue,
    block_type: &str,
    id_key: &str,
    content_key: &str,
    session_id: &str,
    now: i64,
    out: &mut Vec<Observation>,
)
    ensures
        appended(
            old(out)@,
            final(out)@,
            message_facts(*msg, block_type@, id_key@, content_key@),
            session_id@,
            now,
        ),
{
    let is_user = match as_str(get(msg, "role")) {
        Some(r) => str_eq(r.as_str(), "user"),
        None => false,
    };
    if is_user {
        match as_array(get(msg, "content")) {
            Some(blocks) => {
                extract_blocks(blocks, block_type, id_key, content_key, session_id, now, out);
                return;
            },
            None => {},
        }
    }
    proof {
        lemma_appended_none(out@, session_id@, now);
    }
}

/// The tool results of one protocol's messages, appended to `out`.
fn extract_result_blocks(
    value: &JsonValue,
    array_key: &str,
    block_type: &str,
    id_key: &str,
    content_key: &str,
    session_id: &str,
    now: i64,
    out: &mut Vec<Observation>,
)
    ensures
        appended(
            old(out)@,
            final(out)@,
            body_facts(*value, array_key@, block_type@, id_key@, content_key@),
            session_id@,
            now,
        ),
{
    let msgs = match as_array(get(value, array_key)) {
        Some(m) => m,
        None => {
            proof {
                lemma_appended_none(out@, session_id@, now);
            }
            return;
        },
    };
    let mut i: usize = 0;
    proof {
        lemma_appended_none(out@, session_id@, now);
        assert(msgs@.take(0) =~= Seq::<JsonValue>::empty());
    }
    while i < msgs.len()
        invariant
            i <= msgs@.len(),
            appended(
                old(out)@,
                out@,
                messages_facts(msgs@.take(i as int), block_type@, id_key@, content_key@),
                session_id@,
                now,
            ),
        decreases msgs@.len() - i,
    {
        assert(msgs@.take(i + 1).drop_last() =~= msgs@.take(i as int));
        assert(msgs@.take(i + 1).last() == msgs@[i as int]);
        let ghost before = out@;
        extract_message(&msgs[i], block_type, id_key, content_key, session_id, now, out);
        proof {
            lemma_appended_trans(
                old(out)@,
                before,
                out@,
                messages_facts(msgs@.take(i as int), block_type@, id_key@, content_key@),
                message_facts(msgs@[i as int], block_type@, id_key@, content_key@),
                session_id@,
                now,
            );
        }
        i += 1;
    }
    assert(msgs@.take(i as int) =~= msgs@);
}

/// The tool results of a request body, as observations made at `now`. `parsed`
/// is the body parsed as JSON; a body that is not JSON has none.
pub fn extract_tool_results_at(parsed: Option<&JsonValue>, session_id: &str, now: i64) -> (r: Vec<
    Observation,
>)
    ensures
        extract_results_hold(parsed, session_id@, now, r@),
{
    let v = match parsed {
        None => {
            return Vec::new();
        },
        Some(v) => v,
    };
    let mut out: Vec<Observation> = Vec::new();
    let ghost empty = out@;
    extract_result_blocks(
        v,
        "messages",
        "tool_result",
        "tool_use_id",
        "content",
        session_id,
        now,
        &mut out,
    );
    let ghost mid = out@;
    extract_result_blocks(
        v,
        "input",
        "function_call_output",
        "call_id",
        "output",
        session_id,
        now,
        &mut out,
    );
    proof {
        lemma_appended_trans(
            empty,
            mid,
            out@,
            body_facts(*v, "messages"@, "tool_result"@, "tool_use_id"@, "content"@),
            body_facts(*v, "input"@, "function_call_output"@, "call_id"@, "output"@),
            session_id@,
            now,
        );
        assert(empty.len() == 0);
        let facts = request_result_facts(*v);
        assert forall|i: int| 0 <= i < out@.len() implies is_result_obs(
            #[trigger] out@[i],
            facts[i],
            session_id@,
            now,
        ) by {
            assert(out@[empty.len() + i] == out@[i]);
        }
    }
    out
}

/// The tool results of a request body, as observations made now.
pub fn extract_tool_results(parsed: Option<&JsonValue>, session_id: &str) -> (r: Vec<Observation>)
    ensures
        exists|now: i64|
            #[trigger] extract_results_hold(parsed, session_id@, now, r@),
{
    let now = now_millis();
    let r = extract_tool_results_at(parsed, session_id, now);
    assert(extract_results_hold(parsed, session_id@, now, r@));
    r
}

/// What `extract_tool_results_at` states of its result.
pub open spec fn extract_results_hold(
    parsed: Option<&JsonValue>,
    session_id: Seq<char>,
    now: i64,
    r: Seq<Observation>,
) -> bool {
    match parsed {
        None => r.len() == 0,
        Some(v) => r.len() == request_result_facts(*v).len() && forall|i: int|
            0 <= i < r.len() ==> is_result_obs(
                #[trigger] r[i],
                request_result_facts(*v)[i],
                session_id,
                now,
            ),
    }
}

/// `o` records, at `now` in the call of `ctx`, that tool use `id` named `name`
/// was emitted at `started`.
pub open spec fn is_emit_obs(
    o: Observation,
    ctx: ParseContext,
    id: Seq<char>,
    name: Seq<char>,
    started: i64,
    now: i64,
) -> bool {
    &&& o.event_id@ == ctx.call_id@ + "-"@ + decimal_int(now as int) + "-"@ + ("emit"@ + "-"@ + id)
    &&& o.payload_hash@ == o.event_id@
    &&& o.session_id@ == ctx.session_id@
    &&& o.source@ == ctx.source@
    &&& o.occurred_at == now && o.received_at == now
    &&& o.source_sequence is None && o.source_version is None
    &&& o.kind matches ObservationKind::ToolEmitted { call_id, tool_use_id, tool_name, started_at }
        && call_id@ == ctx.call_id@ && tool_use_id@ == id && tool_name@ == name && started_at
        == started
}

/// `o` records, at `now` in the call of `ctx`, that the input of tool use `id` is `input`.
pub open spec fn is_complete_obs(
    o: Observation,
    ctx: ParseContext,
    id: Seq<char>,
    input: Seq<char>,
    now: i64,
) -> bool {
    &&& o.event_id@ == ctx.call_id@ + "-"@ + decimal_int(now as int) + "-"@ + ("input"@ + "-"@ + id)
    &&& o.payload_hash@ == o.event_id@
    &&& o.session_id@ == ctx.session_id@
    &&& o.source@ == ctx.source@
    &&& o.occurred_at == now && o.received_at == now
    &&& o.source_sequence is None && o.source_version is None
    &&& o.kind matches ObservationKind::ToolInputComplete { tool_use_id, input_json }
        && tool_use_id@ == id && input_json@ == input
}

/// `o` records, at `now` in the call of `ctx`, that tool use `id` was abandoned.
pub open spec fn is_abandon_obs(o: Observation, ctx: ParseContext, id: Seq<char>, now: i64) -> bool {
    &&& o.event_id@ == ctx.call_id@ + "-"@ + decimal_int(now as int) + "-"@ + ("result"@ + "-"@ + id)
    &&& o.payload_hash@ == o.event_id@
    &&& o.session_id@ == ctx.session_id@
    &&& o.source@ == ctx.source@
    &&& o.occurred_at == now && o.received_at == now
    &&& o.source_sequence is None && o.source_version is None
    &&& o.kind matches ObservationKind::ToolResult {
        tool_use_id,
        raw_result_preview,
        effective_result_preview,
        status,
    } && tool_use_id@ == id && raw_result_preview is None && effective_result_preview is None
        && status@ == "abandoned"@
}

/// Records, at `now`, that tool use `id` named `name` was emitted at `started`.
pub fn emit_obs_at(id: String, name: String, started: i64, ctx: &ParseContext, now: i64) -> (o:
    Observation)
    ensures
        is_emit_obs(o, *ctx, id@, name@, started, now),
{
    let ghost gid = id@;
    let ghost gname = name@;
    let kind = ObservationKind::ToolEmitted {
        call_id: ctx.call_id.clone(),
        tool_use_id: id,
        tool_name: name,
        started_at: started,
    };
    let ghost k = kind;
    let o = obs_from_kind_at(kind, ctx, now);
    proof {
        reveal_strlit("emit");
    }
    assert(spec_discriminator(k) == "emit"@ + "-"@ + gid);
    o
}

/// Records, at `now`, that the input of tool use `id` is `input`.
pub fn complete_obs_at(id: String, input: String, ctx: &ParseContext, now: i64) -> (o: Observation)
    ensures
        is_complete_obs(o, *ctx, id@, input@, now),
{
    let ghost gid = id@;
    let kind = ObservationKind::ToolInputComplete { tool_use_id: id, input_json: input };
    let ghost k = kind;
    let o = obs_from_kind_at(kind, ctx, now);
    assert(spec_discriminator(k) == "input"@ + "-"@ + gid);
    o
}

} // verus!
