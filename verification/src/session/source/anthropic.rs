//! Anthropic messages API parser: requests, streamed events and responses to observations.

use vstd::prelude::*;
use vstd::string::StringSliceAdditionalSpecFns;

use super::codex::clamp32;
use super::stream::{
    event_index, event_type, feed_result, is_abandoned, is_emitted, is_input_complete,
    is_tool_start, open_ids, started_tool, Slot, ToolStreamParser,
};
use super::{
    is_abandon_obs, is_complete_obs, is_emit_obs, is_empty_update, no_metadata, now_millis,
    obs_from_kind, obs_from_kind_at, obs_is, spec_discriminator, stream_error, u64_to_u32,
    ParseContext, RequestFacts, StreamUpdate,
};
use crate::json::{
    as_array, as_str, as_u64, get, get_in, json_array, json_get, json_in, json_str, json_u64, ov,
    JsonValue,
};
use crate::messages::{
    extract_user_text, has_block_type, is_real_user_prompt, is_tool_result,
    spec_is_real_user_prompt, spec_user_text,
};
use crate::relay::upstream::event_response;
use crate::session::observation::{Observation, ObservationKind};
use crate::text::{decimal, owned, push_str, push_u64, str_eq, trim_seq, trim_str, truncate, truncate_seq};

verus! {

/// The prompt of one Anthropic message: the text of a real user prompt, unless blank.
pub open spec fn anthropic_candidate(m: JsonValue) -> Option<Seq<char>> {
    if json_str(json_get(m, "role"@)) == Some("user"@) && !has_block_type(m, "tool_result"@)
        && spec_is_real_user_prompt(m) && trim_seq(spec_user_text(m)).len() > 0 {
        Some(spec_user_text(m))
    } else {
        None
    }
}

/// The latest message that has a prompt gives it.
pub open spec fn latest_anthropic_prompt(msgs: Seq<JsonValue>) -> Option<Seq<char>>
    decreases msgs.len(),
{
    if msgs.len() == 0 {
        None
    } else if anthropic_candidate(msgs.last()) is Some {
        anthropic_candidate(msgs.last())
    } else {
        latest_anthropic_prompt(msgs.drop_last())
    }
}

/// The request facts of an Anthropic request body.
pub open spec fn anthropic_facts(body: JsonValue, r: RequestFacts) -> bool {
    let msgs = match json_array(json_get(body, "messages"@)) {
        Some(m) => m,
        None => Seq::empty(),
    };
    let last_is_result = msgs.len() > 0 && has_block_type(msgs.last(), "tool_result"@);
    &&& r.is_tool_result_last == last_is_result
    &&& ov(r.prompt_type) == Some(if last_is_result { "continuation"@ } else { "user"@ })
    &&& ov(r.requested_model) == json_str(json_get(body, "model"@))
    &&& ov(r.prompt_text) == match latest_anthropic_prompt(msgs) {
        Some(t) => Some(truncate_seq(t, 1000)),
        None => None,
    }
}

/// A request continues a turn exactly when its last message carries a
/// `tool_result` block: it is then recorded as a `continuation`, otherwise as a
/// `user` prompt. Earlier messages do not decide it.
pub proof fn last_message_decides_continuation(body: JsonValue, r: RequestFacts)
    requires
        anthropic_facts(body, r),
    ensures
        r.is_tool_result_last == (json_array(json_get(body, "messages"@)) matches Some(ms) && ms.len() > 0
            && has_block_type(ms[ms.len() - 1], "tool_result"@)),
        (ov(r.prompt_type) == Some("continuation"@)) == r.is_tool_result_last,
        (ov(r.prompt_type) == Some("user"@)) == !r.is_tool_result_last,
{
    reveal_strlit("continuation");
    reveal_strlit("user");
    assert("continuation"@.len() != "user"@.len());
}

/// `o` records, at `now`, that tool use `id` named `name` started a block of
/// the call of `ctx`.
pub open spec fn is_block_start_obs(
    o: Observation,
    ctx: ParseContext,
    id: Seq<char>,
    name: Seq<char>,
    now: i64,
) -> bool {
    &&& o.event_id@ == "tool-emit-"@ + id
    &&& o.payload_hash@ == o.event_id@
    &&& o.session_id@ == ctx.session_id@
    &&& o.source@ == ctx.source@
    &&& o.occurred_at == now && o.received_at == now
    &&& o.source_sequence is None && o.source_version is None
    &&& o.kind matches ObservationKind::ToolEmitted { call_id, tool_use_id, tool_name, started_at }
        && call_id@ == ctx.call_id@ && tool_use_id@ == id && tool_name@ == name && started_at
        == now
}

/// `o` records a partial tool input of block `index` (when the event names
/// one), keyed by its length in bytes.
pub open spec fn is_delta_obs(o: Observation, index: Option<u64>, partial: Seq<char>) -> bool {
    let id = match index {
        Some(i) => "block-"@ + decimal(i as nat),
        None => Seq::empty(),
    };
    &&& o.event_id@ == "tool-delta-"@ + id + "-"@ + decimal(
        vstd::utf8::encode_utf8(partial).len(),
    )
    &&& o.payload_hash@.len() == 0
    &&& o.session_id@.len() == 0
    &&& o.source@ == "proxy"@
    &&& o.occurred_at == 0 && o.received_at == 0
    &&& o.source_sequence is None && o.source_version is None
    &&& o.kind matches ObservationKind::ToolInputDelta { tool_use_id, partial_json }
        && tool_use_id@ == id && partial_json@ == partial
}

/// The observations of one stream event read on its own, at `now`: a tool-use
/// block start, or a partial tool input.
pub open spec fn sse_obs(parsed: JsonValue, ctx: ParseContext, now: i64, r: Seq<Observation>) -> bool {
    let t = event_type(parsed);
    if t == Some("content_block_start"@) {
        match started_tool(parsed) {
            Some((id, name)) => r.len() == 1 && is_block_start_obs(r[0], ctx, id, name, now),
            None => r.len() == 0,
        }
    } else if t == Some("content_block_delta"@) {
        let delta = json_get(parsed, "delta"@);
        if delta is Some && json_str(json_in(delta, "type"@)) == Some("input_json_delta"@) {
            r.len() == 1 && is_delta_obs(
                r[0],
                json_u64(json_get(parsed, "index"@)),
                match json_str(json_in(delta, "partial_json"@)) {
                    Some(p) => p,
                    None => Seq::empty(),
                },
            )
        } else {
            r.len() == 0
        }
    } else {
        r.len() == 0
    }
}

/// The metadata of an Anthropic stream event, and whether it goes to the tool
/// parser.
pub open spec fn anthropic_meta(parsed: JsonValue, u: StreamUpdate) -> bool {
    let t = event_type(parsed);
    if t == Some("message_start"@) {
        let m = match json_get(parsed, "message"@) {
            Some(x) => x,
            None => parsed,
        };
        let usage = json_get(m, "usage"@);
        &&& ov(u.message_id) == json_str(json_get(m, "id"@))
        &&& ov(u.model) == json_str(json_get(m, "model"@))
        &&& u.input_tokens == clamp32(json_u64(json_in(usage, "input_tokens"@)))
        &&& u.cache_creation_tokens == clamp32(
            json_u64(json_in(usage, "cache_creation_input_tokens"@)),
        )
        &&& u.cache_read_tokens == clamp32(json_u64(json_in(usage, "cache_read_input_tokens"@)))
        &&& u.text is None && u.thinking is None && u.output_tokens is None
        &&& u.stop_reason is None && u.error is None
    } else if t == Some("message_delta"@) {
        let d = match json_get(parsed, "delta"@) {
            Some(x) => x,
            None => parsed,
        };
        &&& u.output_tokens == clamp32(
            json_u64(json_in(json_get(parsed, "usage"@), "output_tokens"@)),
        )
        &&& ov(u.stop_reason) == json_str(json_get(d, "stop_reason"@))
        &&& u.text is None && u.thinking is None && u.input_tokens is None
        &&& u.cache_creation_tokens is None && u.cache_read_tokens is None
        &&& u.message_id is None && u.model is None && u.error is None
    } else if t == Some("content_block_delta"@) {
        let d = match json_get(parsed, "delta"@) {
            Some(x) => x,
            None => parsed,
        };
        &&& ov(u.text) == json_str(json_get(d, "text"@))
        &&& ov(u.thinking) == json_str(json_get(d, "thinking"@))
        &&& u.input_tokens is None && u.output_tokens is None
        &&& u.cache_creation_tokens is None && u.cache_read_tokens is None
        &&& u.stop_reason is None && u.message_id is None && u.model is None && u.error is None
    } else if t == Some("error"@) {
        &&& ov(u.error) == json_str(json_in(json_get(parsed, "error"@), "message"@))
        &&& u.text is None && u.thinking is None && u.input_tokens is None
        &&& u.output_tokens is None && u.cache_creation_tokens is None
        &&& u.cache_read_tokens is None && u.stop_reason is None && u.message_id is None
        &&& u.model is None
    } else {
        no_metadata(u)
    }
}

/// Whether an event goes to the tool parser.
pub open spec fn is_block_event(parsed: JsonValue) -> bool {
    let t = event_type(parsed);
    t == Some("content_block_start"@) || t == Some("content_block_delta"@) || t == Some(
        "content_block_stop"@,
    )
}

/// The observations the tool parser's output becomes, at `now` in `ctx`: an
/// emission at `started`, or a completed input.
pub open spec fn tool_obs(
    slots: Seq<Slot>,
    parsed: JsonValue,
    ctx: ParseContext,
    started: i64,
    now: i64,
    r: Seq<Observation>,
) -> bool {
    let t = event_type(parsed);
    let idx = event_index(parsed) as int;
    if t == Some("content_block_start"@) {
        match started_tool(parsed) {
            Some((id, name)) => r.len() == 1 && is_emit_obs(r[0], ctx, id, name, started, now),
            None => r.len() == 0,
        }
    } else if t == Some("content_block_stop"@) && idx < slots.len() && slots[idx] is Some {
        r.len() == 1 && is_complete_obs(r[0], ctx, slot_id(slots[idx]), slot_input(slots[idx]), now)
    } else {
        r.len() == 0
    }
}

/// The tool use id of an open slot.
pub open spec fn slot_id(s: Slot) -> Seq<char> {
    match s {
        Some(t) => t.0,
        None => Seq::empty(),
    }
}

/// The input received so far by an open slot.
pub open spec fn slot_input(s: Slot) -> Seq<char> {
    match s {
        Some(t) => t.2,
        None => Seq::empty(),
    }
}

/// What one stream event does: its metadata, and for block events the tool
/// parser's step and the observations it gives.
pub open spec fn anthropic_feed(
    slots: Seq<Slot>,
    parsed: JsonValue,
    ctx: ParseContext,
    started: i64,
    now: i64,
    nslots: Seq<Slot>,
    u: StreamUpdate,
) -> bool {
    &&& anthropic_meta(parsed, u)
    &&& is_block_event(parsed) ==> (exists|kinds: Seq<ObservationKind>|
        #[trigger] feed_result(slots, parsed, started, nslots, kinds)) && tool_obs(
        slots,
        parsed,
        ctx,
        started,
        now,
        u.observations@,
    )
    &&& !is_block_event(parsed) ==> nslots == slots && u.observations@.len() == 0
}

/// Each observation records that the tool use of the same position was abandoned.
pub open spec fn all_abandoned(
    r: Seq<Observation>,
    ctx: ParseContext,
    ids: Seq<Seq<char>>,
    now: i64,
) -> bool {
    forall|i: int| 0 <= i < r.len() ==> is_abandon_obs(#[trigger] r[i], ctx, ids[i], now)
}

/// Parses Anthropic `messages` format requests and SSE streams.
#[derive(Debug)]
pub struct AnthropicParser {
    tools: ToolStreamParser,
}

impl AnthropicParser {
    /// The tool-use blocks in flight.
    pub closed spec fn slots(&self) -> Seq<Slot> {
        self.tools.slots()
    }

    /// A parser that has seen nothing.
    pub fn new() -> (r: Self)
        ensures
            r.slots().len() == 0,
    {
        AnthropicParser { tools: ToolStreamParser::new() }
    }

    /// The request facts of an Anthropic request body.
    pub fn parse_request(&self, body: &JsonValue) -> (r: RequestFacts)
        ensures
            anthropic_facts(*body, r),
    {
        let empty: Vec<JsonValue> = Vec::new();
        let msgs: &Vec<JsonValue> = match as_array(get(body, "messages")) {
            Some(m) => m,
            None => &empty,
        };
        let n = msgs.len();
        let is_tool_result_last = n > 0 && is_tool_result(&msgs[n - 1]);
        let mut prompt: Option<String> = None;
        let mut k: usize = n;
        assert(msgs@.take(n as int) =~= msgs@);
        while k > 0 && prompt.is_none()
            invariant
                k <= msgs@.len(),
                prompt is None ==> latest_anthropic_prompt(msgs@) == latest_anthropic_prompt(
                    msgs@.take(k as int),
                ),
                prompt matches Some(t) ==> latest_anthropic_prompt(msgs@) == Some(t@),
            decreases k,
        {
            let m = &msgs[k - 1];
            assert(msgs@.take(k as int).last() == msgs@[k - 1]);
            assert(msgs@.take(k as int).drop_last() =~= msgs@.take(k - 1));
            let is_user = match as_str(get(m, "role")) {
                Some(r) => str_eq(r.as_str(), "user"),
                None => false,
            };
            if is_user && !is_tool_result(m) && is_real_user_prompt(m) {
                let text = extract_user_text(m);
                let t = trim_str(text.as_str());
                if !crate::text::str_is_empty(t.as_str()) {
                    prompt = Some(text);
                }
            }
            k -= 1;
        }
        assert(prompt is None ==> msgs@.take(k as int) =~= Seq::<JsonValue>::empty());
        RequestFacts {
            prompt_text: match prompt {
                Some(t) => Some(truncate(t.as_str(), 1000)),
                None => None,
            },
            prompt_type: Some(
                if is_tool_result_last {
                    owned("continuation")
                } else {
                    owned("user")
                },
            ),
            requested_model: as_str(get(body, "model")),
            is_tool_result_last,
        }
    }

    /// The observations of one stream event read on its own, at `now`.
    /// `parsed` is the event's data parsed as JSON, when it is.
    pub fn parse_sse_at(&self, parsed: Option<&JsonValue>, ctx: &ParseContext, now: i64) -> (r: Vec<
        Observation,
    >)
        ensures
            match parsed {
                Some(p) => sse_obs(*p, *ctx, now, r@),
                None => r@.len() == 0,
            },
    {
        proof {
            reveal_strlit("content_block_start");
            reveal_strlit("content_block_delta");
        }
        let p = match parsed {
            Some(p) => p,
            None => {
                return Vec::new();
            },
        };
        let t = match as_str(get(p, "type")) {
            Some(t) => t,
            None => {
                return Vec::new();
            },
        };
        if str_eq(t.as_str(), "content_block_start") {
            assert(t@[14] != "content_block_delta"@[14]);
            parse_tool_use_start(p, ctx, now)
        } else if str_eq(t.as_str(), "content_block_delta") {
            parse_input_json_delta(p)
        } else {
            Vec::new()
        }
    }

    fn obs_of_tools(
        &mut self,
        parsed: &JsonValue,
        ctx: &ParseContext,
        started: i64,
        now: i64,
    ) -> (r: Vec<Observation>)
        requires
            is_tool_start(*parsed) ==> event_index(*parsed) < usize::MAX,
        ensures
            exists|kinds: Seq<ObservationKind>|
                #[trigger] feed_result(old(self).slots(), *parsed, started, final(self).slots(), kinds),
            tool_obs(old(self).slots(), *parsed, *ctx, started, now, r@),
    {
        let ghost olds = self.tools.slots();
        let kinds = self.tools.feed_at(parsed, started);
        let _n = kinds.len();
        let ghost gk = kinds@;
        assert(feed_result(old(self).slots(), *parsed, started, self.slots(), gk));
        let mut out: Vec<Observation> = Vec::new();
        let mut rest = kinds;
        let mut i: usize = 0;
        while rest.len() > 0
            invariant
                i <= gk.len(),
                i + rest@.len() == gk.len(),
                gk.len() <= usize::MAX,
                rest@ == gk.skip(i as int),
                out@.len() == i,
                forall|j: int| 0 <= j < i ==> #[trigger] obs_is(out@[j], gk[j], *ctx, now),
            decreases rest@.len(),
        {
            assert(gk.skip(i as int)[0] == gk[i as int]);
            let k = rest.remove(0);
            assert(rest@ =~= gk.skip(i + 1));
            out.push(obs_from_kind_at(k, ctx, now));
            i += 1;
        }
        assert(gk.skip(i as int).len() == 0);
        proof {
            reveal_strlit("content_block_start");
            reveal_strlit("content_block_delta");
            reveal_strlit("content_block_stop");
            reveal_strlit("emit");
            reveal_strlit("input");
            let t = event_type(*parsed);
            assert(i == gk.len());
            if gk.len() == 1 {
                let k = gk[0];
                assert(obs_is(out@[0], k, *ctx, now));
                if t == Some("content_block_start"@) {
                    let (id, name) = started_tool(*parsed)->0;
                    assert(is_emitted(k, id, name, started));
                    assert(spec_discriminator(k) == "emit"@ + "-"@ + id);
                } else if t == Some("content_block_stop"@) {
                    assert(t->0[16] != "content_block_start"@[16]);
                    let idx = event_index(*parsed) as int;
                    assert(is_input_complete(k, slot_id(olds[idx]), slot_input(olds[idx])));
                    assert(spec_discriminator(k) == "input"@ + "-"@ + slot_id(olds[idx]));
                }
            }
            if t == Some("content_block_stop"@) {
                assert(t->0[16] != "content_block_start"@[16]);
                assert(t->0.len() != "content_block_delta"@.len());
            }
            if t == Some("content_block_delta"@) {
                assert(t->0[16] != "content_block_start"@[16]);
                assert(t->0.len() != "content_block_stop"@.len());
            }
        }
        out
    }

    /// Feeds one parsed stream event: `started` stamps an emitted tool and
    /// `now` stamps the observations.
    pub fn feed_sse_at(&mut self, parsed: &JsonValue, ctx: &ParseContext, started: i64, now: i64) -> (u:
        StreamUpdate)
        requires
            is_tool_start(*parsed) ==> event_index(*parsed) < usize::MAX,
        ensures
            anthropic_feed(old(self).slots(), *parsed, *ctx, started, now, final(self).slots(), u),
    {
        proof {
            reveal_strlit("message_start");
            reveal_strlit("message_delta");
            reveal_strlit("content_block_delta");
            reveal_strlit("content_block_start");
            reveal_strlit("content_block_stop");
            reveal_strlit("error");
        }
        let t = match as_str(get(parsed, "type")) {
            Some(t) => t,
            None => {
                return StreamUpdate::empty();
            },
        };
        let k = t.as_str();
        if str_eq(k, "message_start") {
            assert(t@[8] != "message_delta"@[8]);
            assert(t@.len() != "content_block_delta"@.len());
            assert(t@.len() != "content_block_start"@.len());
            assert(t@.len() != "content_block_stop"@.len());
            assert(t@.len() != "error"@.len());
            let message = match get(parsed, "message") {
                Some(m) => m,
                None => parsed,
            };
            let mut u = StreamUpdate::empty();
            u.message_id = as_str(get(message, "id"));
            u.model = as_str(get(message, "model"));
            u.input_tokens = usage_u64(message, "input_tokens");
            u.cache_creation_tokens = usage_u64(message, "cache_creation_input_tokens");
            u.cache_read_tokens = usage_u64(message, "cache_read_input_tokens");
            u
        } else if str_eq(k, "message_delta") {
            assert(t@.len() != "content_block_delta"@.len());
            assert(t@.len() != "content_block_start"@.len());
            assert(t@.len() != "content_block_stop"@.len());
            assert(t@.len() != "error"@.len());
            let delta = match get(parsed, "delta") {
                Some(d) => d,
                None => parsed,
            };
            let mut u = StreamUpdate::empty();
            u.output_tokens = usage_u64(parsed, "output_tokens");
            u.stop_reason = as_str(get(delta, "stop_reason"));
            u
        } else if str_eq(k, "content_block_delta") {
            assert(t@.len() != "error"@.len());
            let delta = match get(parsed, "delta") {
                Some(d) => d,
                None => parsed,
            };
            let mut u = StreamUpdate::empty();
            u.text = as_str(get(delta, "text"));
            u.thinking = as_str(get(delta, "thinking"));
            u.observations = self.obs_of_tools(parsed, ctx, started, now);
            u
        } else if str_eq(k, "content_block_start") || str_eq(k, "content_block_stop") {
            assert(t@.len() != "error"@.len());
            let mut u = StreamUpdate::empty();
            u.observations = self.obs_of_tools(parsed, ctx, started, now);
            u
        } else if str_eq(k, "error") {
            stream_error(parsed)
        } else {
            StreamUpdate::empty()
        }
    }

    /// Ends the stream at `now`: every tool-use block still in flight is
    /// reported abandoned, in block order.
    pub fn finish_stream_at(&mut self, ctx: &ParseContext, now: i64) -> (r: Vec<Observation>)
        ensures
            final(self).slots().len() == 0,
            r@.len() == open_ids(old(self).slots()).len(),
            forall|i: int|
                0 <= i < r@.len() ==> is_abandon_obs(
                    #[trigger] r@[i],
                    *ctx,
                    open_ids(old(self).slots())[i],
                    now,
                ),
    {
        let ghost ids = open_ids(self.tools.slots());
        let kinds = self.tools.finish();
        let _n = kinds.len();
        let ghost gk = kinds@;
        let mut out: Vec<Observation> = Vec::new();
        let mut rest = kinds;
        let mut i: usize = 0;
        while rest.len() > 0
            invariant
                i <= gk.len(),
                i + rest@.len() == gk.len(),
                gk.len() <= usize::MAX,
                gk.len() == ids.len(),
                forall|j: int| 0 <= j < gk.len() ==> is_abandoned(#[trigger] gk[j], ids[j]),
                rest@ == gk.skip(i as int),
                out@.len() == i,
                forall|j: int| 0 <= j < i ==> #[trigger] is_abandon_obs(out@[j], *ctx, ids[j], now),
            decreases rest@.len(),
        {
            assert(gk.skip(i as int)[0] == gk[i as int]);
            let k = rest.remove(0);
            assert(rest@ =~= gk.skip(i + 1));
            let ghost gkk = k;
            let o = obs_from_kind_at(k, ctx, now);
            proof {
                reveal_strlit("result");
                assert(is_abandoned(gkk, ids[i as int]));
                assert(spec_discriminator(gkk) == "result"@ + "-"@ + ids[i as int]);
            }
            out.push(o);
            i += 1;
        }
        assert(gk.skip(i as int).len() == 0);
        out
    }
}

/// The emission of a tool-use block start, at `now`.
fn parse_tool_use_start(parsed: &JsonValue, ctx: &ParseContext, now: i64) -> (r: Vec<Observation>)
    ensures
        match started_tool(*parsed) {
            Some((id, name)) => r@.len() == 1 && is_block_start_obs(r@[0], *ctx, id, name, now),
            None => r@.len() == 0,
        },
{
    proof {
        reveal_strlit("tool_use");
    }
    let block = get(parsed, "content_block");
    if block.is_none() {
        return Vec::new();
    }
    let typed = match as_str(get_in(block, "type")) {
        Some(t) => str_eq(t.as_str(), "tool_use"),
        None => false,
    };
    if !typed {
        return Vec::new();
    }
    let (id, name) = match (as_str(get_in(block, "id")), as_str(get_in(block, "name"))) {
        (Some(a), Some(b)) => (a, b),
        _ => {
            return Vec::new();
        },
    };
    let mut event_id = owned("tool-emit-");
    push_str(&mut event_id, id.as_str());
    let hash = event_id.clone();
    let mut out: Vec<Observation> = Vec::new();
    out.push(
        Observation {
            event_id,
            session_id: ctx.session_id.clone(),
            source: owned(ctx.source),
            occurred_at: now,
            received_at: now,
            source_sequence: None,
            source_version: None,
            payload_hash: hash,
            kind: ObservationKind::ToolEmitted {
                call_id: ctx.call_id.clone(),
                tool_use_id: id,
                tool_name: name,
                started_at: now,
            },
        },
    );
    out
}

/// The partial tool input of an `input_json_delta`, keyed by block index.
fn parse_input_json_delta(parsed: &JsonValue) -> (r: Vec<Observation>)
    ensures
        ({
            let delta = json_get(*parsed, "delta"@);
            if delta is Some && json_str(json_in(delta, "type"@)) == Some("input_json_delta"@) {
                r@.len() == 1 && is_delta_obs(
                    r@[0],
                    json_u64(json_get(*parsed, "index"@)),
                    match json_str(json_in(delta, "partial_json"@)) {
                        Some(p) => p,
                        None => Seq::empty(),
                    },
                )
            } else {
                r@.len() == 0
            }
        }),
{
    let delta = get(parsed, "delta");
    if delta.is_none() {
        return Vec::new();
    }
    let typed = match as_str(get_in(delta, "type")) {
        Some(t) => str_eq(t.as_str(), "input_json_delta"),
        None => false,
    };
    if !typed {
        return Vec::new();
    }
    let tool_use_id = match as_u64(get(parsed, "index")) {
        Some(i) => {
            let mut s = owned("block-");
            push_u64(&mut s, i);
            s
        },
        None => String::new(),
    };
    let partial = match as_str(get_in(delta, "partial_json")) {
        Some(p) => p,
        None => String::new(),
    };
    let mut event_id = owned("tool-delta-");
    push_str(&mut event_id, tool_use_id.as_str());
    push_str(&mut event_id, "-");
    let n = partial.as_str().as_bytes().len();
    push_u64(&mut event_id, n as u64);
    let mut out: Vec<Observation> = Vec::new();
    out.push(
        Observation {
            event_id,
            session_id: String::new(),
            source: owned("proxy"),
            occurred_at: 0,
            received_at: 0,
            source_sequence: None,
            source_version: None,
            payload_hash: String::new(),
            kind: ObservationKind::ToolInputDelta { tool_use_id, partial_json: partial },
        },
    );
    out
}

impl AnthropicParser {
    /// Feeds one parsed stream event, stamping it with the current time.
    pub fn feed_sse(&mut self, parsed: &JsonValue, ctx: &ParseContext) -> (u: StreamUpdate)
        requires
            is_tool_start(*parsed) ==> event_index(*parsed) < usize::MAX,
        ensures
            exists|started: i64, now: i64|
                #[trigger] anthropic_feed(
                    old(self).slots(),
                    *parsed,
                    *ctx,
                    started,
                    now,
                    final(self).slots(),
                    u,
                ),
    {
        let started = now_millis();
        let now = now_millis();
        self.feed_sse_at(parsed, ctx, started, now)
    }

    /// Ends the stream, stamping the closing observations with the current time.
    pub fn finish_stream(&mut self, ctx: &ParseContext) -> (r: Vec<Observation>)
        ensures
            final(self).slots().len() == 0,
            r@.len() == open_ids(old(self).slots()).len(),
            exists|now: i64| #[trigger] all_abandoned(r@, *ctx, open_ids(old(self).slots()), now),
    {
        let now = now_millis();
        let r = self.finish_stream_at(ctx, now);
        assert(all_abandoned(r@, *ctx, open_ids(old(self).slots()), now));
        r
    }

    /// The observations of one stream event read on its own, stamped with the
    /// current time.
    pub fn parse_sse(&self, parsed: Option<&JsonValue>, ctx: &ParseContext) -> (r: Vec<Observation>)
        ensures
            parsed is None ==> r@.len() == 0,
            parsed matches Some(p) ==> exists|now: i64| #[trigger] sse_obs(*p, *ctx, now, r@),
    {
        let now = now_millis();
        self.parse_sse_at(parsed, ctx, now)
    }

    /// The tool calls of a non-streaming response, as emissions made now.
    pub fn parse_response(&self, normalized: &crate::relay::upstream::NormalizedResponse, ctx: &ParseContext) -> (r: Vec<Observation>)
        ensures
            exists|now: i64| #[trigger] super::response_tools_hold(*normalized, *ctx, now, r@),
    {
        super::tool_calls_to_observations(normalized, ctx)
    }
}


/// The token count `key` of an event's `usage` object, clamped to `u32`.
fn usage_u64(ev: &JsonValue, key: &str) -> (r: Option<u32>)
    ensures
        r == clamp32(json_u64(json_in(json_get(*ev, "usage"@), key@))),
{
    super::codex::clamp32_of(as_u64(get_in(get(ev, "usage"), key)))
}

} // verus!
