use cc_proxy::json::{JsonNumber, JsonValue};
use cc_proxy::relay::sse::SseParser;
use cc_proxy::relay::upstream::{non_streaming_response, ApiProtocol, StreamCollector};
use cc_proxy::relay::sse::SseEvent;
use cc_proxy::session::domain::{CallStatus, ExecutionRunRow, InteractionRow, ModelCallRow, RunKind, ToolInvocationRow, ToolStatus};
use cc_proxy::session::observation::ObservationKind;
use cc_proxy::session::priority::{can_overwrite, pick_strongest, Candidate, CorrelationClass};
use cc_proxy::session::source::hook::HookParser;
use cc_proxy::session::source::otel::OtelParser;
use cc_proxy::session::timeline::build_timeline;

fn s(x: &str) -> JsonValue {
    JsonValue::Str(x.to_string())
}

fn obj(members: Vec<(&str, JsonValue)>) -> JsonValue {
    JsonValue::Object(members.into_iter().map(|(k, v)| (k.to_string(), v)).collect())
}

fn call(id: &str, run: Option<&str>, seq: i64) -> ModelCallRow {
    ModelCallRow {
        id: id.into(),
        session_id: "s".into(),
        execution_run_id: run.map(String::from),
        sequence_no: seq,
        previous_model_call_id: None,
        client_request_id: None,
        provider_request_id: None,
        status: CallStatus::Completed,
        started_at: 100 + seq,
        requested_model: Some("m".into()),
        resolved_model: "m-1".into(),
        provider: "p".into(),
        upstream: None,
        input_tokens: 10,
        output_tokens: 5,
        cache_creation_tokens: 0,
        cache_read_tokens: 0,
        cost_microusd: 7,
        duration_ms: Some(20),
        ttft_ms: None,
        stop_reason: Some("end_turn".into()),
        http_status_code: Some(200),
        error_type: None,
        error_message: None,
    }
}

fn run(id: &str, interaction: Option<&str>, kind: RunKind, at: i64) -> ExecutionRunRow {
    ExecutionRunRow {
        id: id.into(),
        session_id: "s".into(),
        interaction_id: interaction.map(String::from),
        run_kind: kind,
        agent_run_id: None,
        started_at: at,
        foreground_completed_at: None,
        settled_at: None,
        status: "completed".into(),
        classification_source: "heuristic".into(),
        classification_confidence: "weak".into(),
    }
}

fn tool(call_id: &str) -> ToolInvocationRow {
    ToolInvocationRow {
        id: "tool-t1".into(),
        model_call_id: call_id.into(),
        tool_use_id: Some("t1".into()),
        operation_seq: 0,
        tool_name: "Bash".into(),
        status: ToolStatus::InputComplete,
        started_at: Some(1),
        ended_at: None,
        duration_ms: None,
        model_input_preview: None,
        effective_input_preview: Some("{\"cmd\":\"ls\"}".into()),
        raw_result_preview: None,
        effective_result_preview: None,
    }
}

#[test]
fn timeline_groups_runs_and_internal_work() {
    let interactions = vec![InteractionRow {
        id: "i1".into(),
        session_id: "s".into(),
        external_prompt_id: None,
        prompt_text: Some("hello".into()),
        started_at: 1,
        ended_at: None,
        status: "completed".into(),
        classification_source: "hook".into(),
        classification_confidence: "exact".into(),
        classifier_version: "v".into(),
    }];
    let runs = vec![run("r1", Some("i1"), RunKind::Main, 10), run("r2", None, RunKind::Title, 30)];
    let calls = vec![call("c1", Some("r1"), 1), call("c2", Some("r2"), 2), call("c3", None, 3)];
    let tools = vec![vec![tool("c1")], vec![], vec![]];
    let doc = build_timeline("s", &calls, &interactions, &runs, &tools);
    assert_eq!(doc.total_model_calls, 3);
    assert_eq!(doc.user_interactions, 1);
    assert_eq!(doc.interactions.len(), 2);
    let main = &doc.interactions[0];
    assert_eq!(main.id, "i1");
    assert_eq!(main.runs.len(), 1);
    assert_eq!(main.runs[0].run_kind, "main");
    assert_eq!(main.runs[0].tool_call_count, 1);
    assert_eq!(main.runs[0].model_calls[0].operations[0].tool_name, "Bash");
    let internal = &doc.interactions[1];
    assert_eq!(internal.id, "inter-s-internal");
    assert_eq!(internal.started_at, 30);
    assert_eq!(internal.runs[0].run_kind, "title");
}

#[test]
fn timeline_counts_match_what_it_shows() {
    let runs = vec![run("r1", None, RunKind::Main, 10), run("r1", None, RunKind::Main, 20)];
    let calls = vec![call("c1", Some("r1"), 1), call("c2", Some("r1"), 2)];
    let tools = vec![vec![tool("c1"), tool("c1")], vec![tool("c2")]];
    let doc = build_timeline("s", &calls, &vec![], &runs, &tools);
    let mut ids: Vec<&str> = Vec::new();
    let mut with_main = 0;
    for n in &doc.interactions {
        if n.runs.iter().any(|r| r.run_kind == "main") {
            with_main += 1;
        }
        for r in &n.runs {
            assert_eq!(r.tool_call_count, r.model_calls.iter().map(|c| c.operations.len()).sum::<usize>());
            for c in &r.model_calls {
                assert!(!ids.contains(&c.id.as_str()));
                ids.push(c.id.as_str());
            }
        }
    }
    assert_eq!(doc.user_interactions, with_main);
    assert_eq!(ids.len(), 2);
    assert_eq!(doc.interactions[0].runs[1].model_calls.len(), 0);
}

// ── correlation priority ──

#[test]
fn strongest_candidate_wins_and_exact_is_kept() {
    let cands = vec![
        Candidate { class: CorrelationClass::ModelCall, subject: "a".into(), value: "x".into(), confidence: "weak" },
        Candidate { class: CorrelationClass::ModelCall, subject: "a".into(), value: "y".into(), confidence: "exact" },
        Candidate { class: CorrelationClass::ToolLink, subject: "a".into(), value: "z".into(), confidence: "exact" },
    ];
    let best = pick_strongest(&cands, CorrelationClass::ModelCall).unwrap();
    assert_eq!(best.value, "y");
    assert!(pick_strongest(&cands, CorrelationClass::AgentGroup).is_none());
    assert!(!can_overwrite("exact", "weak"));
    assert!(can_overwrite("weak", "exact"));
    assert!(!can_overwrite("exact", "exact"));
}

// ── hooks and telemetry ──

#[test]
fn prompt_hook_becomes_prompt_submit() {
    let input = obj(vec![]);
    let hook = obj(vec![("prompt_id", s("p1")), ("prompt", s("hi"))]);
    let obs = HookParser::new().parse_hook_event_at("s1", "UserPromptSubmit", &input, &hook, 5);
    assert_eq!(obs.len(), 1);
    assert_eq!(obs[0].event_id, "hook-prompt-s1-5");
    assert_eq!(obs[0].source, "hook");
    assert_eq!(obs[0].payload_hash, "hook-prompt-p1");
    match &obs[0].kind {
        ObservationKind::PromptSubmit { prompt_id, prompt_text, started_at } => {
            assert_eq!(prompt_id, "p1");
            assert_eq!(prompt_text.as_deref(), Some("hi"));
            assert_eq!(*started_at, 5);
        }
        other => panic!("unexpected: {other:?}"),
    }
}

#[test]
fn spans_without_request_id_are_ignored() {
    let p = OtelParser::new();
    assert!(p.parse_span_at("s", &obj(vec![("trace_id", s("t"))]), 9).is_empty());
    let obs = p.parse_span_at(
        "s",
        &obj(vec![("trace_id", s("t")), ("span_id", s("u")), ("client_request_id", s("req-1")), ("model", s("m"))]),
        9,
    );
    assert_eq!(obs.len(), 1);
    assert_eq!(obs[0].event_id, "otel-span-s-t-u");
    assert!(matches!(&obs[0].kind, ObservationKind::ModelCallStart { call_id, requested_model, .. }
        if call_id == "req-1" && requested_model.as_deref() == Some("m")));
}

// ── replies ──

#[test]
fn unreadable_body_text_is_decoded_lossily() {
    let r = non_streaming_response(200, vec![], vec![b'o', b'k', 0xff], None, ApiProtocol::Anthropic, 3);
    assert_eq!(r.content_text.as_deref(), Some("ok\u{fffd}"));
    assert_eq!(r.duration_ms, 3);
}

#[test]
fn stream_collector_gathers_text_and_usage() {
    let mut c = StreamCollector::new();
    let start = obj(vec![
        ("type", s("message_start")),
        (
            "message",
            obj(vec![
                ("id", s("msg_1")),
                ("model", s("m")),
                ("usage", obj(vec![("input_tokens", JsonValue::Number(JsonNumber::PosInt(12)))])),
            ]),
        ),
    ]);
    c.on_event(
        ApiProtocol::Anthropic,
        SseEvent { event_type: Some("message_start".into()), data: Some("{}".into()) },
        Some(&start),
    );
    let delta = obj(vec![
        ("type", s("content_block_delta")),
        ("delta", obj(vec![("type", s("text_delta")), ("text", s("Hi"))])),
    ]);
    c.on_event(
        ApiProtocol::Anthropic,
        SseEvent { event_type: Some("content_block_delta".into()), data: Some("{}".into()) },
        Some(&delta),
    );
    let r = c.finish(200, vec![], vec![], 8, Some(2));
    assert_eq!(r.input_tokens, 12);
    assert_eq!(r.message_id.as_deref(), Some("msg_1"));
    assert_eq!(r.content_text.as_deref(), Some("Hi"));
    assert_eq!(r.sse_events.len(), 2);
    assert_eq!(r.ttft_ms, Some(2));
}

#[test]
fn oversized_sse_buffer_is_dropped() {
    let mut p = SseParser::new();
    let big = vec![b'a'; 2 * 1024 * 1024];
    let events = p.feed(&big);
    assert!(events.is_empty());
    assert!(p.was_truncated());
    let events = p.feed(b"event: ping\ndata: x\n\n");
    assert_eq!(events.len(), 1);
}
