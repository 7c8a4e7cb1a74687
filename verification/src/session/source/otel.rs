//! OpenTelemetry span parser: exact correlation of model calls.

use vstd::prelude::*;

use super::hook::{member, or_empty};
use super::now_millis;
use crate::json::{as_str, get, ov, JsonValue};
use crate::session::observation::{Observation, ObservationKind};
use crate::text::{owned, push_str, str_is_empty};

verus! {

/// The observations of an OTel span at `now`: the start of the model call
/// named by its `client_request_id`; nothing when that is missing or empty.
pub open spec fn span_result(session_id: Seq<char>, span: JsonValue, now: i64, r: Seq<Observation>) -> bool {
    let trace = or_empty(member(span, "trace_id"@));
    let sid = or_empty(member(span, "span_id"@));
    let call = or_empty(member(span, "client_request_id"@));
    if call.len() == 0 {
        r.len() == 0
    } else {
        &&& r.len() == 1
        &&& r[0].event_id@ == "otel-span-"@ + session_id + "-"@ + trace + "-"@ + sid
        &&& r[0].payload_hash@ == "otel-span-"@ + trace + "-"@ + sid
        &&& r[0].session_id@ == session_id
        &&& r[0].source@ == "otel"@
        &&& r[0].occurred_at == now && r[0].received_at == now
        &&& ov(r[0].source_sequence) == Some(sid)
        &&& r[0].source_version is None
        &&& r[0].kind matches ObservationKind::ModelCallStart {
            call_id,
            client_request_id,
            requested_model,
            prompt_text,
            started_at,
        } && call_id@ == call && ov(client_request_id) == Some(call) && ov(requested_model)
            == member(span, "model"@) && ov(prompt_text) == member(span, "prompt"@) && started_at
            == now
    }
}

/// Parses OTel span events for exact correlation.
#[derive(Debug)]
pub struct OtelParser;

impl OtelParser {
    /// A parser.
    pub fn new() -> Self {
        OtelParser
    }

    /// The model-call start of an OTel span payload, at `now`.
    pub fn parse_span_at(&self, session_id: &str, span: &JsonValue, now: i64) -> (r: Vec<Observation>)
        ensures
            span_result(session_id@, *span, now, r@),
    {
        let trace_id = match as_str(get(span, "trace_id")) {
            Some(t) => t,
            None => String::new(),
        };
        let span_id = match as_str(get(span, "span_id")) {
            Some(t) => t,
            None => String::new(),
        };
        let call_id = match as_str(get(span, "client_request_id")) {
            Some(t) => t,
            None => String::new(),
        };
        if str_is_empty(call_id.as_str()) {
            return Vec::new();
        }
        let mut event_id = owned("otel-span-");
        push_str(&mut event_id, session_id);
        push_str(&mut event_id, "-");
        push_str(&mut event_id, trace_id.as_str());
        push_str(&mut event_id, "-");
        push_str(&mut event_id, span_id.as_str());
        let mut hash = owned("otel-span-");
        push_str(&mut hash, trace_id.as_str());
        push_str(&mut hash, "-");
        push_str(&mut hash, span_id.as_str());
        let mut out: Vec<Observation> = Vec::new();
        out.push(
            Observation {
                event_id,
                session_id: owned(session_id),
                source: owned("otel"),
                occurred_at: now,
                received_at: now,
                source_sequence: Some(span_id),
                source_version: None,
                payload_hash: hash,
                kind: ObservationKind::ModelCallStart {
                    call_id: call_id.clone(),
                    client_request_id: Some(call_id),
                    requested_model: as_str(get(span, "model")),
                    prompt_text: as_str(get(span, "prompt")),
                    started_at: now,
                },
            },
        );
        out
    }

    /// The model-call start of an OTel span payload, stamped with the current time.
    pub fn parse_span(&self, session_id: &str, span: &JsonValue) -> (r: Vec<Observation>)
        ensures
            exists|now: i64| #[trigger] span_result(session_id@, *span, now, r@),
    {
        let now = now_millis();
        self.parse_span_at(session_id, span, now)
    }
}

} // verus!
