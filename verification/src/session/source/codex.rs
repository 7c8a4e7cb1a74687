//! Codex client parser (OpenAI Responses API). Tool calls stream as
//! `response.function_call` (name, call id, arguments), then
//! `response.function_call_arguments.delta` (more arguments) and
//! `response.function_call_arguments.done` (arguments complete).

use vstd::prelude::*;

use super::{
    complete_obs_at, emit_obs_at, is_complete_obs, is_emit_obs, is_empty_update, no_metadata, now_millis,
    stream_error, u64_to_u32, ParseContext, RequestFacts, StreamUpdate,
};
use crate::relay::upstream::event_response;
use crate::config::validation::{join_seq, join_strings};
use crate::json::{
    as_array, as_str, as_u64, get, get_in, json_array, json_get, json_in, json_str, json_u64, ov,
    JsonValue,
};
use crate::messages::{has_block_of_type, has_block_type};
use crate::session::observation::{Observation, ObservationKind};
use crate::text::{owned, str_eq, str_is_empty, trim_seq, trim_str, truncate, truncate_seq, views};

verus! {

/// A count read from JSON, clamped to `u32`.
pub open spec fn clamp32(v: Option<u64>) -> Option<u32> {
    match v {
        Some(n) => Some(if n > u32::MAX { u32::MAX } else { n as u32 }),
        None => None,
    }
}

pub(crate) fn clamp32_of(v: Option<u64>) -> (r: Option<u32>)
    ensures
        r == clamp32(v),
{
    match v {
        Some(n) => Some(u64_to_u32(n)),
        None => None,
    }
}

/// The `input_text` strings of a list of blocks.
pub open spec fn input_texts(bs: Seq<JsonValue>) -> Seq<Seq<char>>
    decreases bs.len(),
{
    if bs.len() == 0 {
        Seq::empty()
    } else {
        input_texts(bs.drop_last()) + match json_str(json_get(bs.last(), "input_text"@)) {
            Some(t) => seq![t],
            None => Seq::empty(),
        }
    }
}

/// The input text of a Codex message: its blocks' `input_text` joined by
/// newlines, unless that is blank; nothing without a content array.
pub open spec fn spec_input_text(msg: JsonValue) -> Option<Seq<char>> {
    match json_array(json_get(msg, "content"@)) {
        Some(bs) => {
            let t = join_seq(input_texts(bs), "\n"@);
            if trim_seq(t).len() > 0 {
                Some(t)
            } else {
                None
            }
        },
        None => None,
    }
}

/// Extracts the input text of a Codex message.
pub fn extract_input_text(msg: &JsonValue) -> (r: Option<String>)
    ensures
        ov(r) == spec_input_text(*msg),
{
    let blocks = match as_array(get(msg, "content")) {
        Some(b) => b,
        None => {
            return None;
        },
    };
    let mut texts: Vec<String> = Vec::new();
    let mut i: usize = 0;
    while i < blocks.len()
        invariant
            i <= blocks@.len(),
            views(texts@) == input_texts(blocks@.take(i as int)),
        decreases blocks@.len() - i,
    {
        assert(blocks@.take(i + 1).drop_last() =~= blocks@.take(i as int));
        assert(blocks@.take(i + 1).last() == blocks@[i as int]);
        match as_str(get(&blocks[i], "input_text")) {
            Some(t) => {
                texts.push(t);
                assert(views(texts@) =~= input_texts(blocks@.take(i + 1)));
            },
            None => {
                assert(input_texts(blocks@.take(i + 1)) =~= input_texts(blocks@.take(i as int)));
            },
        }
        i += 1;
    }
    assert(blocks@.take(i as int) =~= blocks@);
    let text = join_strings(&texts, "\n");
    let t = trim_str(text.as_str());
    if str_is_empty(t.as_str()) {
        None
    } else {
        Some(text)
    }
}

/// The prompt of one Codex message: the input text of a user message that is
/// not a function-call output.
pub open spec fn codex_candidate(m: JsonValue) -> Option<Seq<char>> {
    if json_str(json_get(m, "role"@)) == Some("user"@) && !has_block_type(
        m,
        "function_call_output"@,
    ) {
        spec_input_text(m)
    } else {
        None
    }
}

/// The latest message that has a prompt gives it.
pub open spec fn latest_codex_prompt(msgs: Seq<JsonValue>) -> Option<Seq<char>>
    decreases msgs.len(),
{
    if msgs.len() == 0 {
        None
    } else if codex_candidate(msgs.last()) is Some {
        codex_candidate(msgs.last())
    } else {
        latest_codex_prompt(msgs.drop_last())
    }
}

/// The request facts of a Codex request body.
pub open spec fn codex_facts(body: JsonValue, r: RequestFacts) -> bool {
    let msgs = match json_array(json_get(body, "input"@)) {
        Some(m) => m,
        None => Seq::empty(),
    };
    let last_is_result = msgs.len() > 0 && has_block_type(msgs.last(), "function_call_output"@);
    &&& r.is_tool_result_last == last_is_result
    &&& ov(r.prompt_type) == Some(if last_is_result { "continuation"@ } else { "user"@ })
    &&& ov(r.requested_model) == json_str(json_get(body, "model"@))
    &&& ov(r.prompt_text) == match latest_codex_prompt(msgs) {
        Some(t) => Some(truncate_seq(t, 1000)),
        None => None,
    }
}

/// A function call in flight: call id, tool name and the arguments so far.
pub type CallView = (Seq<char>, Seq<char>, Seq<char>);

/// The event type of a Codex stream event.
pub open spec fn ev_type(ev: JsonValue) -> Option<Seq<char>> {
    json_str(json_get(ev, "type"@))
}

/// Parses Codex `input` array requests and `response.*` stream events.
#[derive(Debug)]
pub struct CodexParser {
    calls: Vec<(String, String, String)>,
    pending: Option<usize>,
}

impl CodexParser {
    /// The function calls seen so far.
    pub closed spec fn calls_view(&self) -> Seq<CallView> {
        self.calls@.map_values(|c: (String, String, String)| (c.0@, c.1@, c.2@))
    }

    /// The call whose arguments are accumulating.
    pub closed spec fn pending_call(&self) -> Option<usize> {
        self.pending
    }

    /// A parser that has seen nothing.
    pub fn new() -> (r: Self)
        ensures
            r.calls_view().len() == 0,
            r.pending_call() is None,
    {
        CodexParser { calls: Vec::new(), pending: None }
    }

    /// The request facts of a Codex request body.
    pub fn parse_request(&self, body: &JsonValue) -> (r: RequestFacts)
        ensures
            codex_facts(*body, r),
    {
        let empty: Vec<JsonValue> = Vec::new();
        let msgs: &Vec<JsonValue> = match as_array(get(body, "input")) {
            Some(m) => m,
            None => &empty,
        };
        let n = msgs.len();
        let is_tool_result_last = n > 0 && has_block_of_type(&msgs[n - 1], "function_call_output");
        let mut prompt: Option<String> = None;
        let mut k: usize = n;
        assert(msgs@.take(n as int) =~= msgs@);
        while k > 0 && prompt.is_none()
            invariant
                k <= msgs@.len(),
                prompt is None ==> latest_codex_prompt(msgs@) == latest_codex_prompt(
                    msgs@.take(k as int),
                ),
                prompt matches Some(t) ==> latest_codex_prompt(msgs@) == Some(t@),
            decreases k,
        {
            let m = &msgs[k - 1];
            assert(msgs@.take(k as int).last() == msgs@[k - 1]);
            assert(msgs@.take(k as int).drop_last() =~= msgs@.take(k - 1));
            let is_user = match as_str(get(m, "role")) {
                Some(r) => str_eq(r.as_str(), "user"),
                None => false,
            };
            if is_user && !has_block_of_type(m, "function_call_output") {
                prompt = extract_input_text(m);
            }
            k -= 1;
        }
        assert(prompt is None ==> msgs@.take(k as int) =~= Seq::<JsonValue>::empty());
        RequestFacts {
            prompt_text: match prompt {
                Some(t) => Some(truncate(t.as_str(), 1000)),
                None => None,
            },
            prompt_type: Some(
                if is_tool_result_last {
                    owned("continuation")
                } else {
                    owned("user")
                },
            ),
            requested_model: as_str(get(body, "model")),
            is_tool_result_last,
        }
    }
}

/// The usage update of `response.completed` / `response.created`: token
/// counts (clamped), message id and model of the response.
pub open spec fn completed_update(ev: JsonValue, u: StreamUpdate) -> bool {
    let resp = event_response(ev);
    let usage = json_get(resp, "usage"@);
    &&& u.input_tokens == clamp32(json_u64(json_in(usage, "input_tokens"@)))
    &&& u.output_tokens == clamp32(json_u64(json_in(usage, "output_tokens"@)))
    &&& u.cache_read_tokens == clamp32(
        json_u64(json_in(json_in(usage, "input_tokens_details"@), "cached_tokens"@)),
    )
    &&& ov(u.message_id) == json_str(json_get(resp, "id"@))
    &&& ov(u.model) == json_str(json_get(resp, "model"@))
    &&& is_empty_update(
        StreamUpdate {
            input_tokens: None,
            output_tokens: None,
            cache_read_tokens: None,
            message_id: None,
            model: None,
            ..u
        },
    )
}

/// The error update of `error` / `response.failed`: the `error.message` of the
/// event's response.
pub open spec fn error_update(ev: JsonValue, u: StreamUpdate) -> bool {
    &&& ov(u.error) == json_str(json_in(json_get(event_response(ev), "error"@), "message"@))
    &&& is_empty_update(StreamUpdate { error: None, ..u })
}

/// One stream event applied to the parser: the new calls and pending call, and
/// the update. `started` stamps an emitted tool; `now` stamps observations.
pub open spec fn codex_step(
    calls: Seq<CallView>,
    pending: Option<usize>,
    ev: JsonValue,
    ctx: ParseContext,
    started: i64,
    now: i64,
    ncalls: Seq<CallView>,
    npending: Option<usize>,
    u: StreamUpdate,
) -> bool {
    let t = ev_type(ev);
    if t == Some("response.output_text.delta"@) {
        ncalls == calls && npending == pending && ov(u.text) == json_str(json_get(ev, "delta"@))
            && is_empty_update(StreamUpdate { text: None, ..u })
    } else if t == Some("response.reasoning_summary_text.delta"@) {
        ncalls == calls && npending == pending && ov(u.thinking) == json_str(
            json_get(ev, "delta"@),
        ) && is_empty_update(StreamUpdate { thinking: None, ..u })
    } else if t == Some("response.function_call"@) {
        match json_str(json_get(ev, "call_id"@)) {
            None => ncalls == calls && npending == pending && is_empty_update(u),
            Some(cid) => {
                let name = match json_str(json_get(ev, "name"@)) {
                    Some(n) => n,
                    None => "tool"@,
                };
                let args = match json_str(json_get(ev, "arguments"@)) {
                    Some(a) => a,
                    None => Seq::empty(),
                };
                &&& ncalls == calls.push((cid, name, args))
                &&& npending == Some(calls.len() as usize)
                &&& u.observations@.len() == 1
                &&& is_emit_obs(u.observations@[0], ctx, cid, name, started, now)
                &&& no_metadata(u)
            },
        }
    } else if t == Some("response.function_call_arguments.delta"@) {
        &&& npending == pending
        &&& is_empty_update(u)
        &&& match pending {
            Some(i) => if i < calls.len() && json_str(json_get(ev, "delta"@)) is Some {
                let c = calls[i as int];
                ncalls == calls.update(
                    i as int,
                    (c.0, c.1, c.2 + json_str(json_get(ev, "delta"@))->0),
                )
            } else {
                ncalls == calls
            },
            None => ncalls == calls,
        }
    } else if t == Some("response.function_call_arguments.done"@) {
        match pending {
            None => ncalls == calls && npending is None && is_empty_update(u),
            Some(i) => {
                &&& npending is None
                &&& if i < calls.len() {
                    let c = calls[i as int];
                    &&& ncalls == calls.update(i as int, (Seq::empty(), c.1, Seq::empty()))
                    &&& u.observations@.len() == 1
                    &&& is_complete_obs(u.observations@[0], ctx, c.0, c.2, now)
                    &&& no_metadata(u)
                } else {
                    ncalls == calls && is_empty_update(u)
                }
            },
        }
    } else if t == Some("response.completed"@) || t == Some("response.created"@) {
        ncalls == calls && npending == pending && completed_update(ev, u)
    } else if t == Some("error"@) || t == Some("response.failed"@) {
        ncalls == calls && npending == pending && error_update(ev, u)
    } else {
        ncalls == calls && npending == pending && is_empty_update(u)
    }
}

impl CodexParser {
    fn on_completed(&self, ev: &JsonValue) -> (u: StreamUpdate)
        ensures
            completed_update(*ev, u),
    {
        let response = match get(ev, "response") {
            Some(r) => r,
            None => ev,
        };
        let usage = get(response, "usage");
        let mut u = StreamUpdate::empty();
        u.input_tokens = clamp32_of(as_u64(get_in(usage, "input_tokens")));
        u.output_tokens = clamp32_of(as_u64(get_in(usage, "output_tokens")));
        u.cache_read_tokens = clamp32_of(
            as_u64(get_in(get_in(usage, "input_tokens_details"), "cached_tokens")),
        );
        u.message_id = as_str(get(response, "id"));
        u.model = as_str(get(response, "model"));
        u
    }

    /// Feeds one parsed stream event: `started` stamps an emitted tool and
    /// `now` stamps the observations.
    pub fn feed_sse_at(&mut self, ev: &JsonValue, ctx: &ParseContext, started: i64, now: i64) -> (u:
        StreamUpdate)
        ensures
            codex_step(
                old(self).calls_view(),
                old(self).pending_call(),
                *ev,
                *ctx,
                started,
                now,
                final(self).calls_view(),
                final(self).pending_call(),
                u,
            ),
    {
        proof {
            reveal_strlit("response.output_text.delta");
            reveal_strlit("response.reasoning_summary_text.delta");
            reveal_strlit("response.function_call");
            reveal_strlit("response.function_call_arguments.delta");
            reveal_strlit("response.function_call_arguments.done");
            reveal_strlit("response.completed");
            reveal_strlit("response.created");
            reveal_strlit("error");
            reveal_strlit("response.failed");
        }
        let t = match as_str(get(ev, "type")) {
            Some(t) => t,
            None => {
                return StreamUpdate::empty();
            },
        };
        let k = t.as_str();
        if str_eq(k, "response.output_text.delta") {
            assert(t@.len() != "response.reasoning_summary_text.delta"@.len());
            assert(t@.len() != "response.function_call"@.len());
            assert(t@.len() != "response.function_call_arguments.delta"@.len());
            assert(t@.len() != "response.function_call_arguments.done"@.len());
            assert(t@.len() != "response.completed"@.len());
            assert(t@.len() != "response.created"@.len());
            assert(t@.len() != "error"@.len());
            assert(t@.len() != "response.failed"@.len());
            let mut u = StreamUpdate::empty();
            u.text = as_str(get(ev, "delta"));
            u
        } else if str_eq(k, "response.reasoning_summary_text.delta") {
            assert(t@.len() != "response.function_call"@.len());
            assert(t@.len() != "response.function_call_arguments.delta"@.len());
            assert(t@[9] != "response.function_call_arguments.done"@[9]);
            assert(t@.len() != "response.completed"@.len());
            assert(t@.len() != "response.created"@.len());
            assert(t@.len() != "error"@.len());
            assert(t@.len() != "response.failed"@.len());
            let mut u = StreamUpdate::empty();
            u.thinking = as_str(get(ev, "delta"));
            u
        } else if str_eq(k, "response.function_call") {
            assert(t@.len() != "response.function_call_arguments.delta"@.len());
            assert(t@.len() != "response.function_call_arguments.done"@.len());
            assert(t@.len() != "response.completed"@.len());
            assert(t@.len() != "response.created"@.len());
            assert(t@.len() != "error"@.len());
            assert(t@.len() != "response.failed"@.len());
            self.on_function_call(ev, ctx, started, now)
        } else if str_eq(k, "response.function_call_arguments.delta") {
            assert(t@.len() != "response.function_call_arguments.done"@.len());
            assert(t@.len() != "response.completed"@.len());
            assert(t@.len() != "response.created"@.len());
            assert(t@.len() != "error"@.len());
            assert(t@.len() != "response.failed"@.len());
            self.on_args_delta(ev);
            StreamUpdate::empty()
        } else if str_eq(k, "response.function_call_arguments.done") {
            assert(t@.len() != "response.completed"@.len());
            assert(t@.len() != "response.created"@.len());
            assert(t@.len() != "error"@.len());
            assert(t@.len() != "response.failed"@.len());
            self.on_args_done(ctx, now)
        } else if str_eq(k, "response.completed") || str_eq(k, "response.created") {
            assert(t@.len() != "error"@.len());
            assert(t@[9] != "response.failed"@[9]);
            self.on_completed(ev)
        } else if str_eq(k, "error") || str_eq(k, "response.failed") {
            let response = match get(ev, "response") {
                Some(r) => r,
                None => ev,
            };
            stream_error(response)
        } else {
            StreamUpdate::empty()
        }
    }

    /// Feeds one parsed stream event, stamping it with the current time.
    pub fn feed_sse(&mut self, ev: &JsonValue, ctx: &ParseContext) -> (u: StreamUpdate)
        ensures
            exists|started: i64, now: i64|
                #[trigger] codex_step(
                    old(self).calls_view(),
                    old(self).pending_call(),
                    *ev,
                    *ctx,
                    started,
                    now,
                    final(self).calls_view(),
                    final(self).pending_call(),
                    u,
                ),
    {
        let started = now_millis();
        let now = now_millis();
        self.feed_sse_at(ev, ctx, started, now)
    }

    fn on_function_call(&mut self, ev: &JsonValue, ctx: &ParseContext, started: i64, now: i64) -> (u:
        StreamUpdate)
        ensures
            match json_str(json_get(*ev, "call_id"@)) {
                None => final(self).calls_view() == old(self).calls_view()
                    && final(self).pending_call() == old(self).pending_call() && is_empty_update(u),
                Some(cid) => {
                    let name = match json_str(json_get(*ev, "name"@)) {
                        Some(n) => n,
                        None => "tool"@,
                    };
                    let args = match json_str(json_get(*ev, "arguments"@)) {
                        Some(a) => a,
                        None => Seq::empty(),
                    };
                    &&& final(self).calls_view() == old(self).calls_view().push((cid, name, args))
                    &&& final(self).pending_call() == Some(old(self).calls_view().len() as usize)
                    &&& u.observations@.len() == 1
                    &&& is_emit_obs(u.observations@[0], *ctx, cid, name, started, now)
                    &&& no_metadata(u)
                },
            },
    {
        let call_id = match as_str(get(ev, "call_id")) {
            Some(c) => c,
            None => {
                return StreamUpdate::empty();
            },
        };
        let name = match as_str(get(ev, "name")) {
            Some(n) => n,
            None => owned("tool"),
        };
        let arguments = match as_str(get(ev, "arguments")) {
            Some(a) => a,
            None => String::new(),
        };
        let ghost olds = self.calls_view();
        self.calls.push((call_id.clone(), name.clone(), arguments));
        assert(self.calls_view() =~= olds.push((call_id@, name@, self.calls@.last().2@)));
        let idx = self.calls.len() - 1;
        self.pending = Some(idx);
        let o = emit_obs_at(call_id, name, started, ctx, now);
        let mut u = StreamUpdate::empty();
        u.observations.push(o);
        u
    }

    fn on_args_delta(&mut self, ev: &JsonValue)
        ensures
            final(self).pending_call() == old(self).pending_call(),
            match old(self).pending_call() {
                Some(i) => if i < old(self).calls_view().len() && json_str(json_get(*ev, "delta"@))
                    is Some {
                    let c = old(self).calls_view()[i as int];
                    final(self).calls_view() == old(self).calls_view().update(
                        i as int,
                        (c.0, c.1, c.2 + json_str(json_get(*ev, "delta"@))->0),
                    )
                } else {
                    final(self).calls_view() == old(self).calls_view()
                },
                None => final(self).calls_view() == old(self).calls_view(),
            },
    {
        let i = match self.pending {
            Some(i) => i,
            None => {
                return;
            },
        };
        if i >= self.calls.len() {
            return;
        }
        let delta = match as_str(get(ev, "delta")) {
            Some(d) => d,
            None => {
                return;
            },
        };
        let c = &self.calls[i];
        let mut acc = c.2.clone();
        crate::text::push_str(&mut acc, delta.as_str());
        let updated = (c.0.clone(), c.1.clone(), acc);
        let ghost olds = self.calls_view();
        self.calls.set(i, updated);
        assert(self.calls_view() =~= olds.update(i as int, (updated.0@, updated.1@, updated.2@)));
    }

    fn take_pending(&mut self, ctx: &ParseContext, now: i64) -> (r: Option<Observation>)
        ensures
            final(self).pending_call() is None,
            match old(self).pending_call() {
                None => final(self).calls_view() == old(self).calls_view() && r is None,
                Some(i) => if i < old(self).calls_view().len() {
                    let c = old(self).calls_view()[i as int];
                    &&& final(self).calls_view() == old(self).calls_view().update(
                        i as int,
                        (Seq::empty(), c.1, Seq::empty()),
                    )
                    &&& r matches Some(o) && is_complete_obs(o, *ctx, c.0, c.2, now)
                } else {
                    final(self).calls_view() == old(self).calls_view() && r is None
                },
            },
    {
        let i = match self.pending {
            Some(i) => i,
            None => {
                return None;
            },
        };
        self.pending = None;
        if i >= self.calls.len() {
            return None;
        }
        let c = &self.calls[i];
        let id = c.0.clone();
        let args = c.2.clone();
        let emptied = (String::new(), c.1.clone(), String::new());
        let ghost olds = self.calls_view();
        self.calls.set(i, emptied);
        assert(self.calls_view() =~= olds.update(
            i as int,
            (Seq::empty(), olds[i as int].1, Seq::empty()),
        ));
        Some(complete_obs_at(id, args, ctx, now))
    }

    fn on_args_done(&mut self, ctx: &ParseContext, now: i64) -> (u: StreamUpdate)
        ensures
            final(self).pending_call() is None,
            match old(self).pending_call() {
                None => final(self).calls_view() == old(self).calls_view() && is_empty_update(u),
                Some(i) => if i < old(self).calls_view().len() {
                    let c = old(self).calls_view()[i as int];
                    &&& final(self).calls_view() == old(self).calls_view().update(
                        i as int,
                        (Seq::empty(), c.1, Seq::empty()),
                    )
                    &&& u.observations@.len() == 1
                    &&& is_complete_obs(u.observations@[0], *ctx, c.0, c.2, now)
                    &&& no_metadata(u)
                } else {
                    final(self).calls_view() == old(self).calls_view() && is_empty_update(u)
                },
            },
    {
        let mut u = StreamUpdate::empty();
        match self.take_pending(ctx, now) {
            Some(o) => {
                u.observations.push(o);
            },
            None => {},
        }
        u
    }

    /// Ends the stream at `now`: a call whose arguments were still accumulating
    /// is reported complete with what arrived.
    pub fn finish_stream_at(&mut self, ctx: &ParseContext, now: i64) -> (r: Vec<Observation>)
        ensures
            codex_finished(
                old(self).calls_view(),
                old(self).pending_call(),
                *ctx,
                now,
                final(self).calls_view(),
                final(self).pending_call(),
                r@,
            ),
    {
        let mut out: Vec<Observation> = Vec::new();
        match self.take_pending(ctx, now) {
            Some(o) => {
                out.push(o);
            },
            None => {},
        }
        out
    }

    /// Ends the stream, stamping the closing observation with the current time.
    pub fn finish_stream(&mut self, ctx: &ParseContext) -> (r: Vec<Observation>)
        ensures
            exists|now: i64|
                #[trigger] codex_finished(
                    old(self).calls_view(),
                    old(self).pending_call(),
                    *ctx,
                    now,
                    final(self).calls_view(),
                    final(self).pending_call(),
                    r@,
                ),
    {
        let now = now_millis();
        self.finish_stream_at(ctx, now)
    }
}

/// The end of a stream at `now`: a call whose arguments were still
/// accumulating is reported complete with what arrived, and nothing is pending.
pub open spec fn codex_finished(
    calls: Seq<CallView>,
    pending: Option<usize>,
    ctx: ParseContext,
    now: i64,
    calls2: Seq<CallView>,
    pending2: Option<usize>,
    r: Seq<Observation>,
) -> bool {
    &&& pending2 is None
    &&& match pending {
        Some(i) => if i < calls.len() {
            let c = calls[i as int];
            &&& calls2 == calls.update(i as int, (Seq::empty(), c.1, Seq::empty()))
            &&& r.len() == 1
            &&& is_complete_obs(r[0], ctx, c.0, c.2, now)
        } else {
            calls2 == calls && r.len() == 0
        },
        None => calls2 == calls && r.len() == 0,
    }
}

/// The observations of one stream event read by a fresh parser: only a
/// function call with a call id is emitted.
pub open spec fn codex_sse_obs(
    ev: JsonValue,
    ctx: ParseContext,
    started: i64,
    now: i64,
    r: Seq<Observation>,
) -> bool {
    if ev_type(ev) == Some("response.function_call"@) && json_str(json_get(ev, "call_id"@)) is Some {
        let name = match json_str(json_get(ev, "name"@)) {
            Some(n) => n,
            None => "tool"@,
        };
        r.len() == 1 && is_emit_obs(
            r[0],
            ctx,
            json_str(json_get(ev, "call_id"@))->0,
            name,
            started,
            now,
        )
    } else {
        r.len() == 0
    }
}

impl CodexParser {
    /// The observations of one stream event read on its own by a fresh parser.
    /// `parsed` is the event's data parsed as JSON, when it is.
    pub fn parse_sse(&self, parsed: Option<&JsonValue>, ctx: &ParseContext) -> (r: Vec<Observation>)
        ensures
            parsed is None ==> r@.len() == 0,
            parsed matches Some(p) ==> exists|started: i64, now: i64|
                #[trigger] codex_sse_obs(*p, *ctx, started, now, r@),
    {
        match parsed {
            None => Vec::new(),
            Some(p) => {
                let mut fresh = CodexParser::new();
                let started = now_millis();
                let now = now_millis();
                let u = fresh.feed_sse_at(p, ctx, started, now);
                proof {
                    reveal_strlit("response.function_call");
                    reveal_strlit("response.function_call_arguments.done");
                    reveal_strlit("response.function_call_arguments.delta");
                    reveal_strlit("response.output_text.delta");
                    reveal_strlit("response.reasoning_summary_text.delta");
                    let t = ev_type(*p);
                    if t == Some("response.function_call"@) {
                        assert(t->0.len() != "response.output_text.delta"@.len());
                        assert(t->0.len() != "response.reasoning_summary_text.delta"@.len());
                    }
                    if t == Some("response.function_call_arguments.done"@) {
                        assert(t->0.len() != "response.function_call"@.len());
                    }
                    if t == Some("response.function_call_arguments.delta"@) {
                        assert(t->0.len() != "response.function_call"@.len());
                    }
                    assert(codex_sse_obs(*p, *ctx, started, now, u.observations@));
                }
                u.observations
            },
        }
    }

    /// The tool calls of a non-streaming response, as emissions made now.
    pub fn parse_response(&self, normalized: &crate::relay::upstream::NormalizedResponse, ctx: &ParseContext) -> (r: Vec<Observation>)
        ensures
            exists|now: i64| #[trigger] super::response_tools_hold(*normalized, *ctx, now, r@),
    {
        super::tool_calls_to_observations(normalized, ctx)
    }
}

} // verus!
