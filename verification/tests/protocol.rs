use cc_proxy::json::{JsonNumber, JsonValue};
use cc_proxy::messages::{extract_user_text, is_real_user_prompt};
use cc_proxy::relay::sse::SseParser;
use cc_proxy::relay::upstream::{
    detect_protocol, extract_request_session_id, message_count, normalize_response_body,
    parse_codex_stream_event, redact_headers, usage_from_json, ApiProtocol, HeaderField,
    NormalizedResponse,
};
use cc_proxy::response::{normalize_response, JsonTexts};
use cc_proxy::server::auth::credentials_match;
use cc_proxy::text::{sanitize_text, truncate};

fn s(x: &str) -> JsonValue {
    JsonValue::Str(x.to_string())
}

fn n(x: u64) -> JsonValue {
    JsonValue::Number(JsonNumber::PosInt(x))
}

fn arr(items: Vec<JsonValue>) -> JsonValue {
    JsonValue::Array(items)
}

fn obj(members: Vec<(&str, JsonValue)>) -> JsonValue {
    JsonValue::Object(members.into_iter().map(|(k, v)| (k.to_string(), v)).collect())
}

fn header(name: &str, value: &str) -> HeaderField {
    HeaderField {
        name: name.to_string(),
        value: value.as_bytes().to_vec(),
    }
}

// ── messages ──

#[test]
fn real_user_prompt_detection() {
    let real = obj(vec![
        ("role", s("user")),
        ("content", arr(vec![obj(vec![("type", s("text")), ("text", s("Real prompt"))])])),
    ]);
    assert!(is_real_user_prompt(&real));

    let reminder = obj(vec![
        ("role", s("user")),
        (
            "content",
            arr(vec![obj(vec![
                ("type", s("text")),
                ("text", s("<system-reminder>context</system-reminder>")),
            ])]),
        ),
    ]);
    assert!(!is_real_user_prompt(&reminder));

    let tool = obj(vec![
        ("role", s("user")),
        ("content", arr(vec![obj(vec![("type", s("tool_result")), ("tool_use_id", s("t1"))])])),
    ]);
    assert!(!is_real_user_prompt(&tool));
}

#[test]
fn extracts_user_text() {
    let msg = obj(vec![(
        "content",
        arr(vec![
            obj(vec![("type", s("text")), ("text", s("<system-reminder>x</system-reminder>"))]),
            obj(vec![("type", s("text")), ("text", s("hello"))]),
        ]),
    )]);
    assert_eq!(extract_user_text(&msg), "hello");
}

#[test]
fn string_content_prompts() {
    assert!(is_real_user_prompt(&obj(vec![("content", s("hi"))])));
    assert!(!is_real_user_prompt(&obj(vec![("content", s("  <system-reminder>x"))])));
    assert!(!is_real_user_prompt(&obj(vec![("content", s(""))])));
    assert_eq!(extract_user_text(&obj(vec![("content", s("plain"))])), "plain");
}

// ── sanitising and truncation ──

#[test]
fn sanitize_removes_null_byte() {
    assert_eq!(sanitize_text("hello\0world"), "helloworld");
}

#[test]
fn sanitize_keeps_newlines() {
    assert_eq!(sanitize_text("line1\nline2\r\nline3"), "line1\nline2\r\nline3");
}

#[test]
fn sanitize_drops_other_controls_keeps_tabs() {
    assert_eq!(sanitize_text("a\tb\u{7}c\u{1b}d"), "a\tbcd");
}

#[test]
fn truncate_marks_cut_text() {
    assert_eq!(truncate("abcdef", 3), "abc…");
    assert_eq!(truncate("abc", 3), "abc");
    assert_eq!(truncate("修复导出", 2), "修复…");
}

// ── normalised responses ──

fn texts(whole: &str, blocks: Vec<&str>, contents: Vec<&str>) -> JsonTexts {
    JsonTexts {
        whole: whole.to_string(),
        blocks: blocks.into_iter().map(String::from).collect(),
        contents: contents.into_iter().map(String::from).collect(),
    }
}

#[test]
fn normalize_text_block() {
    let raw = obj(vec![(
        "content",
        arr(vec![obj(vec![("type", s("text")), ("text", s("Hello, world!"))])]),
    )]);
    let t = texts(
        r#"{"content":[{"text":"Hello, world!","type":"text"}]}"#,
        vec![r#"{"text":"Hello, world!","type":"text"}"#],
        vec![""],
    );
    let resp = normalize_response(&raw, &t);
    assert_eq!(resp.text, vec!["Hello, world!"]);
    assert!(resp.thinking.is_empty());
    assert!(resp.tool_calls.is_empty());
}

#[test]
fn normalize_tool_use() {
    let raw = obj(vec![(
        "content",
        arr(vec![obj(vec![
            ("type", s("tool_use")),
            ("id", s("toolu_001")),
            ("name", s("Read")),
            ("input", obj(vec![("file_path", s("src/main.rs"))])),
        ])]),
    )]);
    let t = texts(
        r#"{"content":[{"id":"toolu_001","input":{"file_path":"src/main.rs"},"name":"Read","type":"tool_use"}]}"#,
        vec![r#"{"id":"toolu_001","input":{"file_path":"src/main.rs"},"name":"Read","type":"tool_use"}"#],
        vec![""],
    );
    let resp = normalize_response(&raw, &t);
    assert_eq!(resp.tool_calls.len(), 1);
    assert_eq!(resp.tool_calls[0].name, "Read");
    assert_eq!(resp.tool_calls[0].id, "toolu_001");
}

#[test]
fn normalize_collects_thinking_results_and_unknown_blocks() {
    let raw = arr(vec![
        obj(vec![("type", s("thinking")), ("thinking", s("hmm\u{0}"))]),
        obj(vec![("type", s("tool_result")), ("tool_use_id", s("t1")), ("content", s("ok"))]),
        obj(vec![("type", s("tool_result")), ("tool_use_id", s("t2")), ("content", arr(vec![n(1)]))]),
        obj(vec![("type", s("image"))]),
    ]);
    let t = texts(
        "",
        vec!["", "", "", r#"{"type":"image"}"#],
        vec!["", "", "[1]", ""],
    );
    let resp = normalize_response(&raw, &t);
    assert_eq!(resp.thinking, vec!["hmm"]);
    assert_eq!(resp.tool_results.len(), 2);
    assert_eq!(resp.tool_results[0].tool_use_id, "t1");
    assert_eq!(resp.tool_results[0].content, "ok");
    assert_eq!(resp.tool_results[1].tool_use_id, "t2");
    assert_eq!(resp.tool_results[1].content, "[1]");
    assert_eq!(resp.text, vec![r#"{"type":"image"}"#]);
}

#[test]
fn normalize_value_without_blocks_keeps_its_text() {
    let resp = normalize_response(&s("plain"), &texts("\"plain\"", vec![], vec![]));
    assert_eq!(resp.text, vec!["\"plain\""]);
    let resp = normalize_response(&JsonValue::Null, &texts("null", vec![], vec![]));
    assert!(resp.text.is_empty());
}

// ── SSE ──

#[test]
fn parse_single_event() {
    let mut parser = SseParser::new();
    let events = parser.feed(b"event: message_start\ndata: {\"type\":\"message_start\"}\n\n");
    assert_eq!(events.len(), 1);
    assert_eq!(events[0].event_type.as_deref(), Some("message_start"));
}

#[test]
fn parse_partial_chunks() {
    let mut parser = SseParser::new();
    let ev1 = parser.feed(b"event: ping\ndata: {\"type\":\"ping\"}\n\nevent: delta\ndata: {\"t");
    assert_eq!(ev1.len(), 1);
    let ev2 = parser.feed(b"ype\":\"delta\"}\n\n");
    assert_eq!(ev2.len(), 1);
    assert_eq!(ev2[0].event_type.as_deref(), Some("delta"));
}

#[test]
fn parse_empty_chunk() {
    let mut parser = SseParser::new();
    let events = parser.feed(b"");
    assert!(events.is_empty());
}

#[test]
fn parse_no_event_block() {
    let mut parser = SseParser::new();
    let events = parser.feed(b"just some text\nwithout event format\n");
    assert!(events.is_empty());
}

#[test]
fn chunked_stream_gives_the_events_of_the_whole() {
    let whole: &[u8] = b"event: a\ndata: 1\n\nevent: b\ndata: 2\n\nevent: c\n";
    let mut one = SseParser::new();
    let all = one.feed(whole);
    let mut two = SseParser::new();
    let mut parts = two.feed(&whole[..13]);
    parts.extend(two.feed(&whole[13..]));
    assert_eq!(all.len(), 2);
    assert_eq!(parts.len(), all.len());
    for (x, y) in parts.iter().zip(all.iter()) {
        assert_eq!(x.event_type, y.event_type);
        assert_eq!(x.data, y.data);
    }
}

#[test]
fn crlf_delimited_event_is_parsed() {
    let mut parser = SseParser::new();
    let events = parser.feed(b"event: ping\r\ndata: x\r\n\r\n");
    assert_eq!(events.len(), 1);
    assert_eq!(events[0].data.as_deref(), Some("x"));
}

// ── upstream ──

#[test]
fn detects_codex_responses_payload() {
    let body = obj(vec![
        ("model", s("gpt-5.2-codex")),
        ("input", arr(vec![obj(vec![("role", s("user")), ("content", s("hello"))])])),
        ("prompt_cache_key", s("codex-session-1")),
    ]);
    let protocol = detect_protocol("/v1/responses", &body);
    assert_eq!(protocol, ApiProtocol::Codex);
    assert_eq!(message_count(protocol, &body), 1);
    assert_eq!(
        extract_request_session_id(protocol, &vec![], &body, None).as_deref(),
        Some("codex-session-1")
    );
}

#[test]
fn messages_payload_is_anthropic() {
    let body = obj(vec![("messages", arr(vec![obj(vec![]), obj(vec![])]))]);
    let protocol = detect_protocol("/v1/messages", &body);
    assert_eq!(protocol, ApiProtocol::Anthropic);
    assert_eq!(message_count(protocol, &body), 2);
}

#[test]
fn normalizes_codex_response_and_usage() {
    let body = obj(vec![
        ("id", s("resp_123")),
        ("model", s("gpt-5.2-codex")),
        (
            "usage",
            obj(vec![
                ("input_tokens", n(12)),
                ("output_tokens", n(7)),
                ("input_tokens_details", obj(vec![("cached_tokens", n(5))])),
            ]),
        ),
        (
            "output",
            arr(vec![obj(vec![
                ("type", s("message")),
                ("content", arr(vec![obj(vec![("type", s("output_text")), ("text", s("done"))])])),
            ])]),
        ),
    ]);
    assert_eq!(usage_from_json(&body), (12, 7, 5));
    assert_eq!(normalize_response_body(ApiProtocol::Codex, &body).text, ["done"]);
}

#[test]
fn extracts_codex_stream_usage_and_delta() {
    let mut normalized = NormalizedResponse::default();
    let mut input = 0;
    let mut output = 0;
    let mut cached = 0;
    let mut id = None;
    let mut model = None;
    parse_codex_stream_event(
        &obj(vec![("type", s("response.output_text.delta")), ("delta", s("hi"))]),
        &mut normalized,
        &mut input,
        &mut output,
        &mut cached,
        &mut id,
        &mut model,
    );
    parse_codex_stream_event(
        &obj(vec![
            ("type", s("response.completed")),
            (
                "response",
                obj(vec![
                    ("id", s("resp_1")),
                    ("model", s("gpt-5")),
                    (
                        "usage",
                        obj(vec![
                            ("input_tokens", n(9)),
                            ("output_tokens", n(4)),
                            ("input_tokens_details", obj(vec![("cached_tokens", n(3))])),
                        ]),
                    ),
                ]),
            ),
        ]),
        &mut normalized,
        &mut input,
        &mut output,
        &mut cached,
        &mut id,
        &mut model,
    );
    assert_eq!(normalized.text, ["hi"]);
    assert_eq!((input, output, cached), (9, 4, 3));
    assert_eq!(id.as_deref(), Some("resp_1"));
}

#[test]
fn redaction_hides_credentials() {
    let headers = vec![header("authorization", "Bearer secret-token"), header("x-api-key", "k-123"), header("accept", "text/plain")];
    let redacted = redact_headers(&headers);
    for (_, v) in &redacted {
        assert!(!v.contains("secret-token"));
        assert!(!v.contains("k-123"));
    }
    assert!(redacted.iter().any(|(k, v)| k == "accept" && v == "text/plain"));
}

// ── dashboard auth ──

#[test]
fn auth_accepts_exact_bearer_or_strict_cookie_only() {
    let mut headers = vec![header("authorization", "Bearer token_1234567890")];
    assert!(credentials_match(&headers, "token_1234567890"));
    assert!(!credentials_match(&headers, "token_123456789"));

    headers.clear();
    headers.push(header("cookie", "other=x; cc_proxy_auth=token_1234567890"));
    assert!(credentials_match(&headers, "token_1234567890"));
    assert!(!credentials_match(&headers, "token_123456789"));
}

#[test]
fn auth_refuses_missing_credentials() {
    assert!(!credentials_match(&vec![], "token"));
    assert!(!credentials_match(&vec![header("cookie", "cc_proxy_auth=other")], "token"));
}

#[test]
fn sanitising_twice_is_sanitising_once() {
    let once = sanitize_text("a\u{0}b\u{7}c\td\u{1b}[0m\n");
    assert_eq!(once, "abc\td[0m\n");
    assert_eq!(sanitize_text(&once), once);
}
