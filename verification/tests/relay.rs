use cc_proxy::config::model::AppConfig;
use cc_proxy::config::provider::Provider;
use cc_proxy::config::upstream::{TierRule, UpstreamConfig};
use cc_proxy::json::JsonValue;
use cc_proxy::relay::capture::{capture_entry, capture_file_name, truncate_capture, ExchangeInfo, CAPTURE_LIMIT};
use cc_proxy::relay::mcp::{
    mcp_failure_message, mcp_failure_note, mcp_failure_status, mcp_keeps_response_header, mcp_method,
    mcp_upstream_url, McpFailure,
};
use cc_proxy::relay::relay::{
    fallback_session_id, override_token, plan_route, proxy_url_for, reads_as_sse, retry_delay_ms, safe_truncate_bytes, should_retry,
    task_status, upstream_url, TaskStatus,
};
use cc_proxy::relay::upstream::{inject_effort, ApiProtocol};

fn s(x: &str) -> JsonValue {
    JsonValue::Str(x.to_string())
}

fn obj(members: Vec<(&str, JsonValue)>) -> JsonValue {
    JsonValue::Object(members.into_iter().map(|(k, v)| (k.to_string(), v)).collect())
}

fn config() -> AppConfig {
    let mut config = AppConfig::default();
    config.proxy.providers.push(Provider {
        name: "anthropic".into(),
        url: "https://api.anthropic.com/".into(),
        codex_url: None,
        token: Some("sk-test".into()),
        proxy: None,
        protocols: vec![],
    });
    config.proxy.upstreams.push(UpstreamConfig {
        name: "main".into(),
        high: None,
        mid: None,
        low: None,
        default: Some(TierRule { provider: "anthropic".into(), model: "cc-sonnet".into() }),
        effort: None,
    });
    config.proxy.active_upstream = "main".into();
    config
}

#[test]
fn relayed_request_is_planned_with_provider_url_and_token() {
    let plan = plan_route(&config(), "/v1/messages", ApiProtocol::Anthropic, "cc-haiku", false).unwrap();
    assert_eq!(plan.route.provider, "anthropic");
    assert_eq!(plan.provider_url, "https://api.anthropic.com/");
    assert_eq!(plan.provider_token.as_deref(), Some("sk-test"));
    assert_eq!(upstream_url("/v1/messages", &plan.provider_url), "https://api.anthropic.com/v1/messages");
}

#[test]
fn missing_upstream_is_a_gateway_error() {
    let mut c = config();
    c.proxy.active_upstream = "nowhere".into();
    assert!(plan_route(&c, "/v1/messages", ApiProtocol::Anthropic, "cc-haiku", false).is_err());
}

#[test]
fn full_urls_are_sent_as_they_are() {
    assert_eq!(upstream_url("https://h/x", "https://other"), "https://h/x");
    assert_eq!(upstream_url("x", "https://p//"), "https://p/x");
}

#[test]
fn transparent_traffic_keeps_its_credentials() {
    assert_eq!(override_token(true, &Some("sk".into())), None);
    assert_eq!(override_token(false, &Some("sk".into())).as_deref(), Some("sk"));
}

#[test]
fn task_status_follows_error_and_code() {
    assert_eq!(task_status(false, 200), TaskStatus::Completed);
    assert_eq!(task_status(false, 400), TaskStatus::Failed);
    assert_eq!(task_status(true, 200), TaskStatus::Failed);
}

#[test]
fn retries_back_off_exponentially() {
    assert_eq!(retry_delay_ms(1), 200);
    assert_eq!(retry_delay_ms(2), 400);
    assert_eq!(retry_delay_ms(4), 1600);
    assert!(should_retry(0, 2, true, false));
    assert!(should_retry(1, 2, false, true));
    assert!(!should_retry(2, 2, true, false));
    assert!(!should_retry(0, 2, false, false));
}

#[test]
fn fallback_session_id_names_protocol() {
    assert_eq!(fallback_session_id(ApiProtocol::Codex, "01H"), "codex-01H");
    assert_eq!(fallback_session_id(ApiProtocol::Anthropic, "x"), "anthropic-x");
}

#[test]
fn byte_truncation_keeps_whole_characters() {
    assert_eq!(safe_truncate_bytes("héllo", 2), "h");
    assert_eq!(safe_truncate_bytes("héllo", 3), "hé");
    assert_eq!(safe_truncate_bytes("abc", 10), "abc");
}

#[test]
fn effort_is_injected_into_the_body() {
    let mut body = obj(vec![("model", s("m"))]);
    inject_effort(&mut body, "high");
    let JsonValue::Object(members) = &body else { panic!() };
    assert!(members.iter().any(|(k, _)| k == "output_config" || k == "thinking" || k == "reasoning" || k == "effort"));
}

// ── capture ──

#[test]
fn capture_file_names_keep_safe_characters() {
    assert_eq!(capture_file_name("ab/c d_e-1"), "session_abcd_e-1.txt");
    let long: String = "x".repeat(100);
    assert_eq!(capture_file_name(&long), format!("session_{}.txt", "x".repeat(64)));
}

#[test]
fn capture_truncates_large_bodies() {
    assert_eq!(truncate_capture("small"), "small");
    let big = "a".repeat(CAPTURE_LIMIT + 5);
    let cut = truncate_capture(&big);
    assert!(cut.ends_with("\n[truncated]"));
    assert_eq!(cut.len(), CAPTURE_LIMIT + "\n[truncated]".len());
}

#[test]
fn capture_entry_lists_the_exchange() {
    let info = ExchangeInfo {
        method: "POST".into(),
        path: "/v1/messages".into(),
        status_code: 200,
        request_body: "req".into(),
        response_body: "resp".into(),
        duration_ms: 42,
    };
    assert_eq!(
        capture_entry("T", &info),
        "---\ntimestamp: T\nmethod: POST\npath: /v1/messages\nstatus: 200\nduration_ms: 42\n\n> REQUEST\nreq\n\n> RESPONSE\nresp\n"
    );
}

// ── MCP ──

#[test]
fn mcp_requests_are_described() {
    assert_eq!(mcp_method(None), "parse_error");
    assert_eq!(mcp_method(Some(&obj(vec![("method", s("tools/list"))]))), "tools/list");
    assert_eq!(mcp_method(Some(&obj(vec![]))), "unknown");
    assert_eq!(mcp_upstream_url("http://h:1/mcp//"), "http://h:1/mcp/");
    assert!(!mcp_keeps_response_header("Transfer-Encoding"));
    assert!(mcp_keeps_response_header("content-type"));
}

#[test]
fn mcp_failures_map_to_replies() {
    assert_eq!(mcp_failure_status(McpFailure::Build), 500);
    assert_eq!(mcp_failure_status(McpFailure::Upstream), 502);
    assert_eq!(mcp_failure_note(McpFailure::Read, "eof"), "Failed to read MCP response: eof");
    assert_eq!(mcp_failure_message(McpFailure::Upstream, "down"), "Upstream error: down");
    assert_eq!(mcp_failure_message(McpFailure::Build, "bad"), "bad");
}

#[test]
fn codex_requests_use_the_codex_url_when_set() {
    let mut c = config();
    c.proxy.providers[0].codex_url = Some("https://codex.example/v1/".into());
    let plan = plan_route(&c, "/v1/responses", ApiProtocol::Codex, "cc-haiku", false).unwrap();
    assert_eq!(plan.provider_url, "https://codex.example/v1/");
    assert_eq!(upstream_url("/v1/responses", &plan.provider_url), "https://codex.example/v1/v1/responses");
    let plan = plan_route(&c, "/v1/messages", ApiProtocol::Anthropic, "cc-haiku", false).unwrap();
    assert_eq!(plan.provider_url, "https://api.anthropic.com/");
    c.proxy.providers[0].codex_url = Some(String::new());
    let plan = plan_route(&c, "/v1/responses", ApiProtocol::Codex, "cc-haiku", false).unwrap();
    assert_eq!(plan.provider_url, "https://api.anthropic.com/");
}

#[test]
fn provider_proxy_inherits_the_global_one() {
    let mut c = config();
    assert_eq!(proxy_url_for(&c, "anthropic"), None);
    c.proxy.http_proxy = Some("http://global:3128".into());
    assert_eq!(proxy_url_for(&c, "anthropic").as_deref(), Some("http://global:3128"));
    c.proxy.providers[0].proxy = Some(String::new());
    assert_eq!(proxy_url_for(&c, "anthropic"), None);
    c.proxy.providers[0].proxy = Some("http://own:8080".into());
    assert_eq!(proxy_url_for(&c, "anthropic").as_deref(), Some("http://own:8080"));
    c.proxy.http_proxy = Some(String::new());
    c.proxy.providers[0].proxy = None;
    assert_eq!(proxy_url_for(&c, "anthropic"), None);
}

#[test]
fn only_successful_streams_are_read_as_events() {
    assert!(reads_as_sse(true, 200));
    assert!(!reads_as_sse(true, 302));
    assert!(!reads_as_sse(true, 500));
    assert!(!reads_as_sse(false, 200));
}
