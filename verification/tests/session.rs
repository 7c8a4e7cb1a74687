use cc_proxy::json::{JsonNumber, JsonValue};
use cc_proxy::relay::upstream::{NormalizedResponse, ToolCallRecord};
use cc_proxy::session::domain::{CallStatus, RunKind, ToolStatus};
use cc_proxy::session::heuristic::HeuristicClassifier;
use cc_proxy::session::materialize::{
    apply_observation, materialize, model_call_for_tool, tools_of_call, ObservationLog, SessionRows,
};
use cc_proxy::session::observation::{extract_field, Observation, ObservationKind, TokenUsage};
use cc_proxy::session::reconcile::{main_identity_id, plan_execution_runs, ReconcilerConfig};
use cc_proxy::session::reconcile::{
    call_prompt, interaction_for_run, parent_links, plan_agent_runs, plan_prompt_submits,
    InteractionChoice,
};
use cc_proxy::session::source::codex::CodexParser;
use cc_proxy::session::source::stream::ToolStreamParser;
use cc_proxy::session::source::{extract_tool_results, ParseContext};

fn s(x: &str) -> JsonValue {
    JsonValue::Str(x.to_string())
}

fn n(x: u64) -> JsonValue {
    JsonValue::Number(JsonNumber::PosInt(x))
}

fn arr(items: Vec<JsonValue>) -> JsonValue {
    JsonValue::Array(items)
}

fn obj(members: Vec<(&str, JsonValue)>) -> JsonValue {
    JsonValue::Object(members.into_iter().map(|(k, v)| (k.to_string(), v)).collect())
}

fn ctx() -> ParseContext {
    ParseContext {
        call_id: "call-1".into(),
        session_id: "sess-1".into(),
        source: "proxy",
    }
}

fn obs(session_id: &str, seq: i64, kind: ObservationKind) -> Observation {
    Observation {
        event_id: format!("ev-{session_id}-{seq}"),
        session_id: session_id.into(),
        source: "proxy".into(),
        occurred_at: 1_700_000_000_000 + seq,
        received_at: 1_700_000_000_000 + seq,
        source_sequence: Some(seq.to_string()),
        source_version: None,
        payload_hash: format!("hash-{session_id}-{seq}"),
        kind,
    }
}

// ── Anthropic requests ──

#[test]
fn extracts_tool_results_with_task_number() {
    let body = obj(vec![(
        "messages",
        arr(vec![
            obj(vec![("role", s("user")), ("content", s("hello"))]),
            obj(vec![
                ("role", s("assistant")),
                (
                    "content",
                    arr(vec![obj(vec![
                        ("type", s("tool_use")),
                        ("id", s("call_1")),
                        ("name", s("TaskCreate")),
                        ("input", obj(vec![("subject", s("修复导出"))])),
                    ])]),
                ),
            ]),
            obj(vec![
                ("role", s("user")),
                (
                    "content",
                    arr(vec![obj(vec![
                        ("type", s("tool_result")),
                        ("tool_use_id", s("call_1")),
                        ("content", s("Task #1 created successfully: 修复导出")),
                    ])]),
                ),
            ]),
        ]),
    )]);
    let obs = extract_tool_results(Some(&body), "sess-1");
    assert_eq!(obs.len(), 1);
    let ObservationKind::ToolResult { tool_use_id, raw_result_preview, status, .. } = &obs[0].kind else {
        panic!("expected ToolResult");
    };
    assert_eq!(tool_use_id, "call_1");
    assert_eq!(raw_result_preview.as_deref(), Some("Task #1 created successfully: 修复导出"));
    assert_eq!(status, "succeeded");
}

#[test]
fn tool_result_error_sets_failed_status() {
    let body = obj(vec![(
        "messages",
        arr(vec![obj(vec![
            ("role", s("user")),
            (
                "content",
                arr(vec![obj(vec![
                    ("type", s("tool_result")),
                    ("tool_use_id", s("call_2")),
                    ("is_error", JsonValue::Bool(true)),
                    ("content", s("boom")),
                ])]),
            ),
        ])]),
    )]);
    let obs = extract_tool_results(Some(&body), "sess-1");
    assert_eq!(obs.len(), 1);
    let ObservationKind::ToolResult { status, .. } = &obs[0].kind else { panic!() };
    assert_eq!(status, "failed");
}

#[test]
fn unparsable_body_has_no_tool_results() {
    assert!(extract_tool_results(None, "sess-1").is_empty());
}

// ── Codex ──

#[test]
fn function_call_stream_accumulates_arguments() {
    let mut parser = CodexParser::new();
    let c = ctx();
    let u = parser.feed_sse(
        &obj(vec![
            ("type", s("response.function_call")),
            ("call_id", s("fc_1")),
            ("name", s("Bash")),
            ("arguments", s("")),
        ]),
        &c,
    );
    assert_eq!(u.observations.len(), 1);
    assert!(matches!(&u.observations[0].kind,
        ObservationKind::ToolEmitted { tool_use_id, tool_name, .. }
        if tool_use_id == "fc_1" && tool_name == "Bash"));

    parser.feed_sse(
        &obj(vec![
            ("type", s("response.function_call_arguments.delta")),
            ("call_id", s("fc_1")),
            ("delta", s("{\"cmd\":")),
        ]),
        &c,
    );
    parser.feed_sse(
        &obj(vec![
            ("type", s("response.function_call_arguments.delta")),
            ("call_id", s("fc_1")),
            ("delta", s("\"ls\"}")),
        ]),
        &c,
    );
    let done = parser.feed_sse(
        &obj(vec![("type", s("response.function_call_arguments.done")), ("call_id", s("fc_1"))]),
        &c,
    );
    assert_eq!(done.observations.len(), 1);
    assert!(matches!(&done.observations[0].kind,
        ObservationKind::ToolInputComplete { tool_use_id, input_json }
        if tool_use_id == "fc_1" && input_json == r#"{"cmd":"ls"}"#));
}

#[test]
fn parse_response_emits_tool_calls() {
    let parser = CodexParser::new();
    let mut normalized = NormalizedResponse::default();
    normalized.tool_calls.push(ToolCallRecord {
        id: "fc_9".into(),
        name: "Read".into(),
        input: obj(vec![("file_path", s("a.rs"))]),
    });
    let obs = parser.parse_response(&normalized, &ctx());
    assert_eq!(obs.len(), 1);
    assert!(matches!(&obs[0].kind,
        ObservationKind::ToolEmitted { tool_use_id, tool_name, .. }
        if tool_use_id == "fc_9" && tool_name == "Read"));
}

#[test]
fn extract_tool_results_handles_function_call_output() {
    let body = obj(vec![(
        "input",
        arr(vec![obj(vec![
            ("role", s("user")),
            (
                "content",
                arr(vec![obj(vec![
                    ("type", s("function_call_output")),
                    ("call_id", s("fc_1")),
                    ("output", s("ok")),
                ])]),
            ),
        ])]),
    )]);
    let obs = extract_tool_results(Some(&body), "sess-1");
    assert_eq!(obs.len(), 1);
    assert!(matches!(&obs[0].kind,
        ObservationKind::ToolResult { tool_use_id, status, .. }
        if tool_use_id == "fc_1" && status == "succeeded"));
}

#[test]
fn codex_completion_reports_usage() {
    let mut parser = CodexParser::new();
    let u = parser.feed_sse(
        &obj(vec![
            ("type", s("response.completed")),
            (
                "response",
                obj(vec![
                    ("id", s("resp_9")),
                    ("usage", obj(vec![("input_tokens", n(11)), ("output_tokens", n(2))])),
                ]),
            ),
        ]),
        &ctx(),
    );
    assert_eq!(u.input_tokens, Some(11));
    assert_eq!(u.output_tokens, Some(2));
    assert_eq!(u.message_id.as_deref(), Some("resp_9"));
}

// ── heuristics ──

#[test]
fn classifies_internal_run_kinds() {
    assert_eq!(HeuristicClassifier::classify("<session>\nFix\n</session>\n\nWrite the title").0, RunKind::Title);
    assert_eq!(HeuristicClassifier::classify("<conversation>\n# Recap").0, RunKind::Memory);
    assert_eq!(HeuristicClassifier::classify("<transcript>\nUser: hello").0, RunKind::Subagent);
    assert_eq!(
        HeuristicClassifier::classify("The user stepped away and is coming back. Recap in under 40 words").0,
        RunKind::Recap
    );
    assert_eq!(HeuristicClassifier::classify("normal prompt").0, RunKind::Main);
}

#[test]
fn classification_ignores_leading_whitespace() {
    assert_eq!(HeuristicClassifier::classify("  \n<transcript>x").0, RunKind::Subagent);
}

// ── streamed tool blocks ──

fn ev(parsed: JsonValue) -> Vec<ObservationKind> {
    ToolStreamParser::new().feed(&parsed)
}

#[test]
fn parses_tool_emit() {
    let kinds = ev(obj(vec![
        ("type", s("content_block_start")),
        ("index", n(0)),
        (
            "content_block",
            obj(vec![("type", s("tool_use")), ("id", s("call_1")), ("name", s("Bash")), ("input", obj(vec![]))]),
        ),
    ]));
    assert_eq!(kinds.len(), 1);
    assert!(matches!(&kinds[0], ObservationKind::ToolEmitted { tool_use_id, tool_name, .. }
        if tool_use_id == "call_1" && tool_name == "Bash"));
}

#[test]
fn ignores_non_tool_block_start() {
    let kinds = ev(obj(vec![
        ("type", s("content_block_start")),
        ("index", n(0)),
        ("content_block", obj(vec![("type", s("text")), ("text", s("hi"))])),
    ]));
    assert!(kinds.is_empty());
}

#[test]
fn accumulates_input_across_deltas() {
    let mut p = ToolStreamParser::new();
    p.feed(&obj(vec![
        ("type", s("content_block_start")),
        ("index", n(0)),
        (
            "content_block",
            obj(vec![("type", s("tool_use")), ("id", s("call_1")), ("name", s("Bash")), ("input", obj(vec![]))]),
        ),
    ]));
    p.feed(&obj(vec![
        ("type", s("content_block_delta")),
        ("index", n(0)),
        ("delta", obj(vec![("type", s("input_json_delta")), ("partial_json", s("{\"cmd\":\"ls\"}"))])),
    ]));
    let kinds = p.feed(&obj(vec![("type", s("content_block_stop")), ("index", n(0))]));
    assert_eq!(kinds.len(), 1);
    match &kinds[0] {
        ObservationKind::ToolInputComplete { tool_use_id, input_json } => {
            assert_eq!(tool_use_id, "call_1");
            assert_eq!(input_json, r#"{"cmd":"ls"}"#);
        }
        other => panic!("unexpected: {other:?}"),
    }
}

#[test]
fn unfinished_blocks_are_abandoned() {
    let mut p = ToolStreamParser::new();
    p.feed(&obj(vec![
        ("type", s("content_block_start")),
        ("index", n(1)),
        ("content_block", obj(vec![("type", s("tool_use")), ("id", s("t9")), ("name", s("Read"))])),
    ]));
    let kinds = p.finish();
    assert_eq!(kinds.len(), 1);
    assert!(matches!(&kinds[0], ObservationKind::ToolResult { tool_use_id, status, .. }
        if tool_use_id == "t9" && status == "abandoned"));
}

// ── domain names ──

#[test]
fn status_names_read_back() {
    for st in [CallStatus::InProgress, CallStatus::Completed, CallStatus::Failed, CallStatus::Cancelled, CallStatus::Interrupted] {
        assert_eq!(CallStatus::parse(st.as_str()), st);
    }
    for st in [ToolStatus::Emitted, ToolStatus::InputComplete, ToolStatus::AwaitingPermission, ToolStatus::Running,
        ToolStatus::Succeeded, ToolStatus::Failed, ToolStatus::Denied, ToolStatus::Interrupted, ToolStatus::Abandoned] {
        assert_eq!(ToolStatus::parse(st.as_str()), st);
    }
    for k in [RunKind::Main, RunKind::Subagent, RunKind::Compact, RunKind::Title, RunKind::Memory, RunKind::Recap, RunKind::System] {
        assert_eq!(RunKind::parse(k.as_str()), k);
    }
    assert_eq!(CallStatus::parse("bogus"), CallStatus::InProgress);
}

#[test]
fn extract_field_reads_matching_ids_only() {
    let start = ObservationKind::AgentStart { agent_id: "ag-1".into(), agent_type: "t".into(), started_at: 1 };
    assert_eq!(extract_field(&start, "agent_id").as_deref(), Some("ag-1"));
    assert_eq!(extract_field(&start, "call_id"), None);
    let emitted = ObservationKind::ToolEmitted {
        call_id: "c".into(),
        tool_use_id: "tu".into(),
        tool_name: "Bash".into(),
        started_at: 1,
    };
    assert_eq!(extract_field(&emitted, "tool_use_id").as_deref(), Some("tu"));
    assert_eq!(extract_field(&emitted, "call_id"), None);
}

// ── reconciliation plans ──

#[test]
fn agent_runs_are_numbered_and_closed() {
    let sid = "sess-recon";
    let all = vec![
        obs(sid, 0, ObservationKind::AgentStart { agent_id: "ag-1".into(), agent_type: "general-purpose".into(), started_at: 300 }),
        obs(sid, 1, ObservationKind::AgentStop { agent_id: "ag-1".into(), ended_at: 400 }),
        obs(sid, 2, ObservationKind::AgentStart { agent_id: "ag-1".into(), agent_type: "general-purpose".into(), started_at: 500 }),
        obs(sid, 3, ObservationKind::AgentStart { agent_id: "ag-2".into(), agent_type: "explore".into(), started_at: 600 }),
    ];
    let plans = plan_agent_runs(sid, &all);
    assert_eq!(plans.len(), 3);
    assert_eq!(plans[0].identity_id, "ident-sess-recon-ag-1");
    assert_eq!(plans[0].run_no, 1);
    assert_eq!(plans[0].run_id, "arun-ident-sess-recon-ag-1-1");
    assert_eq!(plans[0].ended_at, Some(400));
    assert_eq!(plans[0].status(), "completed");
    assert_eq!(plans[1].run_no, 2);
    assert_eq!(plans[1].run_id, "arun-ident-sess-recon-ag-1-2");
    assert_eq!(plans[2].run_no, 1);
    assert_eq!(plans[2].ended_at, None);
    assert_eq!(plans[2].status(), "in_progress");
}

#[test]
fn prompts_map_to_session_interaction() {
    let all = vec![obs("s1", 0, ObservationKind::PromptSubmit { prompt_id: "p1".into(), prompt_text: Some("hi".into()), started_at: 5 })];
    let plans = plan_prompt_submits(&all);
    assert_eq!(plans.len(), 1);
    assert_eq!(plans[0].id, "inter-s1");
    assert_eq!(plans[0].prompt_text.as_deref(), Some("hi"));
}

#[test]
fn call_prompt_takes_last_recorded_text() {
    let start = |text: Option<&str>| ObservationKind::ModelCallStart {
        call_id: "call-1".into(),
        client_request_id: None,
        requested_model: None,
        prompt_text: text.map(String::from),
        started_at: 1,
    };
    let all = vec![obs("s", 0, start(Some("first"))), obs("s", 1, start(None)), obs("s", 2, start(Some("second")))];
    assert_eq!(call_prompt(&all, "call-1").as_deref(), Some("second"));
    assert_eq!(call_prompt(&all, "call-2"), None);
}

#[test]
fn main_runs_use_or_create_an_interaction() {
    match interaction_for_run("s", RunKind::Main, Some("inter-s".into()), &Some("x".into())) {
        InteractionChoice::Existing(id) => assert_eq!(id, "inter-s"),
        _ => panic!("expected the existing interaction"),
    }
    match interaction_for_run("s", RunKind::Main, None, &Some("x".into())) {
        InteractionChoice::Create { id, prompt_text } => {
            assert_eq!(id, "inter-s-main");
            assert_eq!(prompt_text, "x");
        }
        _ => panic!("expected a new interaction"),
    }
    assert!(matches!(interaction_for_run("s", RunKind::Main, None, &None), InteractionChoice::Absent));
    assert!(matches!(
        interaction_for_run("s", RunKind::Subagent, Some("inter-s".into()), &Some("x".into())),
        InteractionChoice::Absent
    ));
}

#[test]
fn subagent_runs_link_to_first_main_run() {
    let runs = vec![
        ("arun-ident-s-main-1".to_string(), "ident-s-main".to_string(), 100),
        ("arun-ident-s-ag-1".to_string(), "ident-s-ag".to_string(), 150),
        ("arun-ident-s-early-1".to_string(), "ident-s-early".to_string(), 50),
    ];
    let links = parent_links("s", &runs);
    assert_eq!(links, vec![("arun-ident-s-ag-1".to_string(), "arun-ident-s-main-1".to_string())]);
}

#[test]
fn reconcile_is_idempotent_and_groups_subagent() {
    let sid = "sess-recon";
    let start = |call: &str, prompt: &str, at: i64| ObservationKind::ModelCallStart {
        call_id: call.into(),
        client_request_id: None,
        requested_model: Some("deepseek-v4-flash".into()),
        prompt_text: Some(prompt.into()),
        started_at: at,
    };
    let all = vec![
        obs(sid, 0, start("call-1", "梳理代码，查找错误", 1_700_000_000_000)),
        obs(sid, 1, start("call-2", "<transcript>\nUser: 梳理代码", 1_700_000_000_100)),
        obs(sid, 2, ObservationKind::ToolEmitted {
            call_id: "call-1".into(),
            tool_use_id: "tool-1".into(),
            tool_name: "Bash".into(),
            started_at: 1_700_000_000_200,
        }),
        obs(sid, 3, ObservationKind::AgentStart { agent_id: "ag-1".into(), agent_type: "general-purpose".into(), started_at: 1_700_000_000_300 }),
        obs(sid, 4, ObservationKind::AgentStop { agent_id: "ag-1".into(), ended_at: 1_700_000_000_400 }),
    ];
    let mut rows = SessionRows { model_calls: vec![], tool_invocations: vec![] };
    for o in &all {
        apply_observation(&mut rows, o);
    }
    // Both starts are materialised, at distinct sequence numbers.
    assert_eq!(rows.model_calls.len(), 2);
    assert_eq!(rows.model_calls[0].sequence_no, 0);
    assert_eq!(rows.model_calls[1].sequence_no, 1);
    let calls = rows.model_calls;
    let config = ReconcilerConfig::default();

    let runs = plan_execution_runs(sid, &calls, &all, config.enable_heuristics);
    assert_eq!(runs[0].run_kind, RunKind::Main);
    assert_eq!(runs[1].run_kind, RunKind::Subagent);
    assert!(runs[1].run_id.contains("-subagent-"));
    // The main prompt makes one interaction; the subagent run makes none.
    let mut interactions = 0;
    for r in &runs {
        if let InteractionChoice::Create { .. } = interaction_for_run(sid, r.run_kind, None, &r.prompt_text) {
            interactions += 1;
        }
    }
    assert_eq!(interactions, 1);
    // One agent run, for an identity beside the synthetic main one.
    let agent_runs = plan_agent_runs(sid, &all);
    assert_eq!(agent_runs.len(), 1);
    assert_ne!(agent_runs[0].identity_id, main_identity_id(sid));
    assert_eq!(agent_runs[0].status(), "completed");
    // Planning again plans the same rows.
    let again = plan_execution_runs(sid, &calls, &all, config.enable_heuristics);
    for (a, b) in runs.iter().zip(again.iter()) {
        assert_eq!(a.run_id, b.run_id);
        assert_eq!(a.run_kind, b.run_kind);
    }
    let agents_again = plan_agent_runs(sid, &all);
    assert_eq!(agents_again[0].run_id, agent_runs[0].run_id);
}

fn repo_obs(kind: ObservationKind, session_id: &str, seq: usize) -> Observation {
    Observation {
        event_id: format!("ev-{seq}"),
        session_id: session_id.into(),
        source: "proxy".into(),
        occurred_at: 1_700_000_000_000 + seq as i64,
        received_at: 1_700_000_000_000 + seq as i64,
        source_sequence: None,
        source_version: None,
        payload_hash: format!("hash-{seq}"),
        kind,
    }
}

fn empty_rows() -> SessionRows {
    SessionRows { model_calls: vec![], tool_invocations: vec![] }
}

fn call_start(call_id: &str, seq: usize) -> Observation {
    repo_obs(
        ObservationKind::ModelCallStart {
            call_id: call_id.into(),
            client_request_id: Some("req-1".into()),
            requested_model: Some("m1".into()),
            prompt_text: None,
            started_at: 1_700_000_000_000,
        },
        "sess-1",
        seq,
    )
}

fn tool_emitted(call_id: &str, tool_use_id: &str, seq: usize) -> Observation {
    repo_obs(
        ObservationKind::ToolEmitted {
            call_id: call_id.into(),
            tool_use_id: tool_use_id.into(),
            tool_name: "Bash".into(),
            started_at: 1_700_000_000_100,
        },
        "sess-1",
        seq,
    )
}

#[test]
fn record_is_idempotent_by_event_id() {
    let mut log = ObservationLog::new();
    let o = repo_obs(
        ObservationKind::ModelCallStart {
            call_id: "call-1".into(),
            client_request_id: None,
            requested_model: Some("model".into()),
            prompt_text: None,
            started_at: 1_700_000_000_000,
        },
        "sess-1",
        1,
    );
    log.record_observation(repo_obs(
        ObservationKind::ModelCallFirstToken { call_id: "call-1".into(), ttft_ms: 5 },
        "sess-1",
        1,
    ));
    log.record_observation(o);
    assert_eq!(log.observations.len(), 1);
}

#[test]
fn materialize_writes_model_call_and_tool() {
    let observations = vec![
        call_start("call-1", 1),
        tool_emitted("call-1", "tool-1", 2),
        repo_obs(
            ObservationKind::ToolInputComplete {
                tool_use_id: "tool-1".into(),
                input_json: r#"{"command":"ls"}"#.into(),
            },
            "sess-1",
            3,
        ),
        repo_obs(
            ObservationKind::ModelCallEnd {
                call_id: "call-1".into(),
                status: "completed".into(),
                tokens: TokenUsage { input_tokens: 10, output_tokens: 5, ..Default::default() },
                stop_reason: Some("tool_use".into()),
                cost_microusd: 42,
                ended_at: 1_700_000_000_200,
                provider_request_id: None,
                error: None,
                http_status_code: Some(200),
            },
            "sess-1",
            4,
        ),
    ];
    let mut rows = empty_rows();
    materialize(&mut rows, &observations);
    assert_eq!(rows.model_calls.len(), 1);
    assert_eq!(rows.model_calls[0].status.as_str(), "completed");
    assert_eq!(rows.model_calls[0].cost_microusd, 42);
    assert_eq!(rows.model_calls[0].input_tokens, 10);
    assert_eq!(rows.model_calls[0].http_status_code, Some(200));
    assert_eq!(rows.tool_invocations.len(), 1);
    assert_eq!(rows.tool_invocations[0].tool_name, "Bash");
    assert_eq!(rows.tool_invocations[0].status.as_str(), "input_complete");
    assert_eq!(rows.tool_invocations[0].id, "tool-tool-1");
    assert_eq!(model_call_for_tool(&rows, "tool-1"), Some("call-1".to_string()));
    assert_eq!(model_call_for_tool(&rows, "tool-2"), None);
}

#[test]
fn applying_an_observation_twice_changes_nothing() {
    let observations = vec![call_start("call-1", 1), tool_emitted("call-1", "tu-1", 2)];
    let mut once = empty_rows();
    materialize(&mut once, &observations);
    let mut twice = empty_rows();
    materialize(&mut twice, &observations);
    materialize(&mut twice, &observations);
    assert_eq!(once.model_calls.len(), twice.model_calls.len());
    assert_eq!(once.tool_invocations.len(), twice.tool_invocations.len());
    assert_eq!(twice.tool_invocations[0].operation_seq, 0);
}

#[test]
fn first_token_time_is_kept_and_tools_are_numbered() {
    let mut rows = empty_rows();
    apply_observation(&mut rows, &call_start("call-1", 1));
    apply_observation(
        &mut rows,
        &repo_obs(ObservationKind::ModelCallFirstToken { call_id: "call-1".into(), ttft_ms: 120 }, "sess-1", 2),
    );
    apply_observation(
        &mut rows,
        &repo_obs(ObservationKind::ModelCallFirstToken { call_id: "call-1".into(), ttft_ms: 900 }, "sess-1", 3),
    );
    assert_eq!(rows.model_calls[0].ttft_ms, Some(120));
    apply_observation(&mut rows, &tool_emitted("call-1", "tu-1", 4));
    apply_observation(&mut rows, &tool_emitted("call-1", "tu-2", 5));
    assert_eq!(rows.tool_invocations[0].operation_seq, 0);
    assert_eq!(rows.tool_invocations[1].operation_seq, 1);
    assert_eq!(rows.tool_invocations[1].id, "tool-tu-2");
    assert_eq!(tools_of_call(&rows, "call-1").len(), 2);
    assert!(tools_of_call(&rows, "call-2").is_empty());
}

#[test]
fn tool_previews_are_cut() {
    let mut rows = empty_rows();
    apply_observation(&mut rows, &call_start("call-1", 1));
    apply_observation(&mut rows, &tool_emitted("call-1", "tu-1", 2));
    apply_observation(
        &mut rows,
        &repo_obs(
            ObservationKind::ToolInputComplete { tool_use_id: "tu-1".into(), input_json: "x".repeat(1200) },
            "sess-1",
            3,
        ),
    );
    let input = rows.tool_invocations[0].effective_input_preview.clone().unwrap();
    assert_eq!(input.chars().count(), 1001);
    assert!(input.ends_with('…'));
    apply_observation(
        &mut rows,
        &repo_obs(
            ObservationKind::ToolResult {
                tool_use_id: "tu-1".into(),
                raw_result_preview: Some("y".repeat(600)),
                effective_result_preview: Some("short".into()),
                status: "succeeded".into(),
            },
            "sess-1",
            4,
        ),
    );
    let t = &rows.tool_invocations[0];
    assert_eq!(t.raw_result_preview.as_ref().unwrap().chars().count(), 501);
    assert_eq!(t.effective_result_preview.as_deref(), Some("short"));
    assert_eq!(t.status, ToolStatus::Succeeded);
    assert_eq!(t.ended_at, Some(1_700_000_000_004));
}

#[test]
fn each_started_call_gets_its_own_sequence_number() {
    let mut rows = empty_rows();
    apply_observation(&mut rows, &call_start("call-1", 1));
    apply_observation(&mut rows, &call_start("call-2", 2));
    apply_observation(&mut rows, &call_start("call-1", 3));
    let mut other = call_start("call-9", 4);
    other.session_id = "sess-2".into();
    apply_observation(&mut rows, &other);
    let seqs: Vec<(&str, i64)> = rows.model_calls.iter().map(|c| (c.id.as_str(), c.sequence_no)).collect();
    assert_eq!(seqs, vec![("call-1", 0), ("call-2", 1), ("call-9", 0)]);
}
