use cc_proxy::config::model::AppConfig;
use cc_proxy::config::pricing::ModelPricing;
use cc_proxy::config::upstream::UpstreamConfig;
use cc_proxy::json::JsonValue;
use cc_proxy::relay::upstream::HeaderField;
use cc_proxy::server::export::{sanitize_json_control_chars, sanitize_task_response};
use cc_proxy::server::auth::{auth_decision, is_allowed_origin, listen_allowed, AuthDecision};
use cc_proxy::server::settings::{
    add_pricing, cleanup_plan, delete_pricing, delete_upstream, err_status, set_effort, set_global_proxy,
    update_pricing, upstream_infos, CleanupPlan,
};
use cc_proxy::server::ws::{ws_origin_allowed, ws_step, WsAction, WsEvent, WsLiveness};

fn s(x: &str) -> JsonValue {
    JsonValue::Str(x.to_string())
}

fn obj(members: Vec<(&str, JsonValue)>) -> JsonValue {
    JsonValue::Object(members.into_iter().map(|(k, v)| (k.to_string(), v)).collect())
}

fn header(name: &str, value: &str) -> HeaderField {
    HeaderField { name: name.into(), value: value.as_bytes().to_vec() }
}

fn upstream(name: &str) -> UpstreamConfig {
    UpstreamConfig { name: name.into(), high: None, mid: None, low: None, default: None, effort: None }
}

fn pricing(id: &str) -> ModelPricing {
    ModelPricing { id: id.into(), price: vec![], providers: vec![] }
}

// ── settings ──

#[test]
fn errors_map_to_statuses() {
    assert_eq!(err_status("upstream 'x' not found"), 404);
    assert_eq!(err_status("validation failed"), 400);
    assert_eq!(err_status("duplicate name"), 409);
    assert_eq!(err_status("disk full"), 500);
}

#[test]
fn pricing_entries_are_added_replaced_and_deleted() {
    let mut c = AppConfig::default();
    add_pricing(&mut c, pricing("a"));
    add_pricing(&mut c, pricing("b"));
    update_pricing(&mut c, "a", pricing("a"));
    let ids: Vec<&str> = c.model_pricing.iter().map(|p| p.id.as_str()).collect();
    assert_eq!(ids, vec!["b", "a"]);
    delete_pricing(&mut c, "b");
    assert_eq!(c.model_pricing.len(), 1);
    assert_eq!(c.model_pricing[0].id, "a");
}

#[test]
fn last_upstream_cannot_be_deleted() {
    let mut c = AppConfig::default();
    c.proxy.upstreams.clear();
    c.proxy.upstreams.push(upstream("only"));
    c.proxy.active_upstream = "only".into();
    assert!(delete_upstream(&mut c, "only").is_err());
    assert_eq!(c.proxy.upstreams.len(), 1);
}

#[test]
fn deleting_the_active_upstream_hands_over() {
    let mut c = AppConfig::default();
    c.proxy.upstreams.clear();
    c.proxy.upstreams.push(upstream("a"));
    c.proxy.upstreams.push(upstream("b"));
    c.proxy.active_upstream = "a".into();
    assert!(delete_upstream(&mut c, "a").is_ok());
    assert_eq!(c.proxy.active_upstream, "b");
}

#[test]
fn effort_levels_are_checked() {
    let mut c = AppConfig::default();
    assert!(set_effort(&mut c, &obj(vec![("effort", s("high"))])).is_ok());
    assert_eq!(c.proxy.active_effort, "high");
    assert_eq!(set_effort(&mut c, &obj(vec![("effort", s("huge"))])), Err("invalid effort: huge".to_string()));
    assert_eq!(c.proxy.active_effort, "high");
    assert!(set_effort(&mut c, &obj(vec![])).is_ok());
    assert_eq!(c.proxy.active_effort, "auto");
}

#[test]
fn global_proxy_is_cleared_by_empty_text() {
    let mut c = AppConfig::default();
    set_global_proxy(&mut c, &obj(vec![("http_proxy", s("http://p:1"))]));
    assert_eq!(c.proxy.http_proxy.as_deref(), Some("http://p:1"));
    set_global_proxy(&mut c, &obj(vec![("http_proxy", s(""))]));
    assert_eq!(c.proxy.http_proxy, None);
}

#[test]
fn cleanup_needs_a_policy() {
    let mut c = AppConfig::default();
    c.proxy.request_retention_hours = 0;
    c.proxy.session_delete_after_days = 0;
    c.proxy.session_max_count = 0;
    assert_eq!(cleanup_plan(&c), CleanupPlan::Disabled);
    c.proxy.session_max_count = 50;
    assert_eq!(cleanup_plan(&c), CleanupPlan::Run { task_hours: 0, session_days: 0, max_sessions: 50 });
}

#[test]
fn upstream_infos_mark_active_ones() {
    let mut c = AppConfig::default();
    c.proxy.upstreams.clear();
    c.proxy.upstreams.push(upstream("a"));
    c.proxy.upstreams.push(upstream("b"));
    c.proxy.active_upstream = "b".into();
    c.proxy.active_proxy_upstream = "a".into();
    let infos = upstream_infos(&c);
    assert_eq!(infos.len(), 2);
    assert!(!infos[0].active && infos[0].proxy_active);
    assert!(infos[1].active && !infos[1].proxy_active);
}

// ── dashboard auth ──

#[test]
fn control_requests_need_the_token() {
    let token = Some("tok".to_string());
    assert!(matches!(auth_decision("/api/sessions", true, &vec![], &token), AuthDecision::Unauthorized));
    let ok = vec![header("Authorization", "Bearer tok")];
    assert!(matches!(auth_decision("/api/sessions", true, &ok, &token), AuthDecision::Pass { set_cookie: None }));
    assert!(matches!(auth_decision("/ws", false, &vec![], &Some(String::new())), AuthDecision::Pass { .. }));
    assert!(matches!(auth_decision("/api/x", false, &vec![], &None), AuthDecision::Pass { .. }));
}

#[test]
fn page_loads_get_the_token_cookie() {
    let token = Some("tok".to_string());
    match auth_decision("/", true, &vec![], &token) {
        AuthDecision::Pass { set_cookie } => {
            assert_eq!(set_cookie.as_deref(), Some("cc_proxy_auth=tok; HttpOnly; SameSite=Strict; Path=/"))
        }
        _ => panic!("page loads are served"),
    }
    let script = vec![header("sec-fetch-dest", "script")];
    assert!(matches!(auth_decision("/app.js", true, &script, &token), AuthDecision::Pass { set_cookie: None }));
}

// ── WebSocket ──

#[test]
fn websocket_origins_are_local_only() {
    assert!(is_allowed_origin("http://localhost:5000"));
    assert!(!is_allowed_origin("https://evil.example"));
    assert!(is_allowed_origin("http://localhost"));
    assert!(is_allowed_origin("http://127.0.0.1/ws"));
    assert!(!is_allowed_origin("http://localhost.evil.com"));
    assert!(!is_allowed_origin("http://127.0.0.1.attacker.net"));
    assert!(ws_origin_allowed(&vec![]));
    assert!(ws_origin_allowed(&vec![header("Origin", "http://127.0.0.1:5000")]));
    assert!(!ws_origin_allowed(&vec![header("origin", "http://evil")]));
}

#[test]
fn websocket_warns_once_and_drops_dead_peers() {
    let mut st = WsLiveness { last_warned: 0 };
    assert_eq!(ws_step(&mut st, WsEvent::Tick { since_pong_secs: 10 }), WsAction::Ping { warn: false });
    assert_eq!(ws_step(&mut st, WsEvent::Tick { since_pong_secs: 205 }), WsAction::Ping { warn: false });
    assert_eq!(st.last_warned, 1);
    assert_eq!(ws_step(&mut st, WsEvent::Tick { since_pong_secs: 245 }), WsAction::Ping { warn: true });
    assert_eq!(ws_step(&mut st, WsEvent::Tick { since_pong_secs: 255 }), WsAction::Ping { warn: false });
    assert_eq!(ws_step(&mut st, WsEvent::Tick { since_pong_secs: 301 }), WsAction::Stop { warn: false });
    assert_eq!(ws_step(&mut st, WsEvent::Pong), WsAction::Nothing);
    assert_eq!(st.last_warned, 0);
    assert_eq!(ws_step(&mut st, WsEvent::Lagged), WsAction::Resync);
    assert_eq!(ws_step(&mut st, WsEvent::Ping), WsAction::Pong);
}

// ── task export ──

#[test]
fn exported_responses_lose_control_characters() {
    let mut task = obj(vec![
        ("id", s("t\u{1}1")),
        ("response_body", s("ok\u{0}")),
        ("sse_events", JsonValue::Array(vec![s("a\u{7}"), s("b\n")])),
        ("response_body", s("dup\u{0}")),
    ]);
    sanitize_task_response(&mut task);
    let JsonValue::Object(members) = &task else { panic!() };
    assert!(matches!(&members[0].1, JsonValue::Str(x) if x == "t\u{1}1"));
    assert!(matches!(&members[1].1, JsonValue::Str(x) if x == "ok"));
    assert!(matches!(&members[2].1, JsonValue::Array(v) if matches!(&v[0], JsonValue::Str(x) if x == "a") && matches!(&v[1], JsonValue::Str(x) if x == "b\n")));
    assert!(matches!(&members[3].1, JsonValue::Str(x) if x == "dup\u{0}"));

    let mut v = JsonValue::Array(vec![obj(vec![("k", s("x\u{8}y"))])]);
    sanitize_json_control_chars(&mut v);
    let JsonValue::Array(items) = &v else { panic!() };
    let JsonValue::Object(m) = &items[0] else { panic!() };
    assert!(matches!(&m[0].1, JsonValue::Str(x) if x == "xy"));
}

#[test]
fn non_loopback_listening_needs_a_token() {
    assert!(listen_allowed("127.0.0.1", &None));
    assert!(listen_allowed("::1", &None));
    assert!(listen_allowed("localhost", &Some(String::new())));
    assert!(!listen_allowed("0.0.0.0", &None));
    assert!(!listen_allowed("0.0.0.0", &Some(String::new())));
    assert!(listen_allowed("0.0.0.0", &Some("secret".into())));
}
