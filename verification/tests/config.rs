use cc_proxy::config::model::AppConfig;
use cc_proxy::config::pricing::{ModelPricing, ProviderModels};
use cc_proxy::config::provider::Provider;
use cc_proxy::config::routing::{resolve_billing, resolve_route, resolve_route_for};
use cc_proxy::config::upstream::{TierRule, UpstreamConfig};
use cc_proxy::config::validation::validate_config;

fn bare_upstream(name: &str) -> UpstreamConfig {
    UpstreamConfig {
        name: name.into(),
        high: None,
        mid: None,
        low: None,
        default: None,
        effort: None,
    }
}

fn rule(provider: &str, model: &str) -> TierRule {
    TierRule {
        provider: provider.into(),
        model: model.into(),
    }
}

fn provider(name: &str, url: &str, protocols: Vec<&str>) -> Provider {
    Provider {
        name: name.into(),
        url: url.into(),
        codex_url: None,
        token: None,
        proxy: None,
        protocols: protocols.into_iter().map(String::from).collect(),
    }
}

fn models(provider: &str, names: Vec<&str>) -> ProviderModels {
    ProviderModels {
        provider: provider.into(),
        names: names.into_iter().map(String::from).collect(),
    }
}

// ── migration ──

#[test]
fn legacy_config_inherits_relay_upstream_for_proxy() {
    let mut config = AppConfig::default();
    config.proxy.upstreams.push(bare_upstream("default"));
    config.proxy.active_upstream = "default".into();
    config.proxy.migrate();
    assert_eq!(config.proxy.active_proxy_upstream, "default");
}

#[test]
fn auto_proxy_upstream_survives_migration() {
    let mut config = AppConfig::default();
    config.proxy.upstreams.push(bare_upstream("default"));
    config.proxy.active_upstream = "default".into();
    config.proxy.active_proxy_upstream = "__auto__".into();
    config.proxy.migrate();
    assert_eq!(config.proxy.active_proxy_upstream, "__auto__");
}

#[test]
fn migrate_twice_changes_nothing_more() {
    let mut config = AppConfig::default();
    config.proxy.upstreams.push(bare_upstream("default"));
    config.proxy.active_upstream = "default".into();
    config.proxy.migrate();
    let once = config.proxy.active_proxy_upstream.clone();
    let active = config.proxy.active_upstream.clone();
    config.proxy.migrate();
    assert_eq!(config.proxy.active_proxy_upstream, once);
    assert_eq!(config.proxy.active_upstream, active);
}

// ── pricing ──

fn make_opus() -> ModelPricing {
    ModelPricing {
        id: "cc-opus".into(),
        price: vec![5_000_000, 25_000_000, 6_250_000, 500_000],
        providers: vec![
            models("anthropic", vec!["cc-opus-4-6"]),
            models("rdsec", vec!["cc-4.6-opus"]),
            models("cloudapi", vec![]),
        ],
    }
}

#[test]
fn model_name_for_provider_works() {
    let mp = make_opus();
    assert_eq!(mp.model_name_for_provider("anthropic"), Some("cc-opus-4-6".into()));
    assert_eq!(mp.model_name_for_provider("rdsec"), Some("cc-4.6-opus".into()));
    assert_eq!(mp.model_name_for_provider("cloudapi"), Some("cc-opus".into()));
    assert_eq!(mp.model_name_for_provider("deepseek"), None);
}

#[test]
fn matches_name_works() {
    let mp = make_opus();
    assert!(mp.matches_name("cc-opus"));
    assert!(mp.matches_name("cc-4.6-opus"));
    assert!(!mp.matches_name("cc-sonnet"));
}

#[test]
fn price_defaults_work() {
    let mp = ModelPricing {
        id: "m".into(),
        price: vec![4_000_000, 20_000_000],
        providers: vec![],
    };
    assert_eq!(mp.price_input(), 4_000_000);
    assert_eq!(mp.price_output(), 20_000_000);
    assert_eq!(mp.price_cache_write(), 5_000_000);
    assert_eq!(mp.price_cache_read(), 400_000);
}

#[test]
fn to_price_rates_converts_to_microusd() {
    let mp = ModelPricing {
        id: "test".into(),
        price: vec![3_000_000, 15_000_000],
        providers: vec![],
    };
    let rates = mp.to_price_rates();
    assert_eq!(rates.input_microusd, 3_000_000);
    assert_eq!(rates.output_microusd, 15_000_000);
    assert_eq!(rates.cache_write_microusd, 3_750_000);
    assert_eq!(rates.cache_read_microusd, 300_000);
}

#[test]
fn listed_cache_prices_are_kept() {
    let rates = make_opus().to_price_rates();
    assert_eq!(rates.cache_write_microusd, 6_250_000);
    assert_eq!(rates.cache_read_microusd, 500_000);
}

#[test]
fn empty_price_list_costs_nothing() {
    let mp = ModelPricing {
        id: "free".into(),
        price: vec![],
        providers: vec![],
    };
    let rates = mp.to_price_rates();
    assert_eq!(rates.input_microusd, 0);
    assert_eq!(rates.output_microusd, 0);
    assert_eq!(rates.cache_write_microusd, 0);
    assert_eq!(rates.cache_read_microusd, 0);
}

#[test]
fn cache_defaults_round_to_nearest() {
    let mp = ModelPricing {
        id: "odd".into(),
        price: vec![3, 7],
        providers: vec![],
    };
    // 3 * 1.25 = 3.75 and 3 * 0.1 = 0.3 micro-USD
    assert_eq!(mp.price_cache_write(), 4);
    assert_eq!(mp.price_cache_read(), 0);
}

// ── providers ──

#[test]
fn empty_protocols_serves_all() {
    let p = provider("p", "https://x", vec![]);
    assert!(p.serves("anthropic"));
    assert!(p.serves("codex"));
}

#[test]
fn single_protocol_restricts() {
    let p = provider("p", "https://x", vec!["anthropic"]);
    assert!(p.serves("anthropic"));
    assert!(!p.serves("codex"));
}

#[test]
fn multi_protocol_serves_both() {
    let p = provider("p", "https://x", vec!["anthropic", "codex"]);
    assert!(p.serves("anthropic"));
    assert!(p.serves("codex"));
    assert!(!p.serves("other"));
}

// ── routing ──

fn make_config() -> AppConfig {
    let mut config = AppConfig::default();
    let mut anthropic = provider("anthropic", "https://api.anthropic.com", vec![]);
    anthropic.token = Some("sk-test".into());
    config.proxy.providers.push(anthropic);
    config.proxy.upstreams.push(UpstreamConfig {
        name: "default".into(),
        high: Some(rule("anthropic", "cc-opus")),
        mid: None,
        low: None,
        default: Some(rule("anthropic", "cc-sonnet")),
        effort: None,
    });
    config.proxy.active_upstream = "default".into();
    config.model_pricing.push(ModelPricing {
        id: "cc-sonnet".into(),
        price: vec![3_000_000, 15_000_000],
        providers: vec![models("anthropic", vec!["cc-sonnet-4-6"])],
    });
    config
}

#[test]
fn resolve_route_high_tier() {
    let config = make_config();
    let route = resolve_route(&config, "cc-opus-4-6").unwrap();
    assert_eq!(route.provider, "anthropic");
    assert_eq!(route.configured_model, "cc-opus");
}

#[test]
fn resolve_route_default_tier() {
    let config = make_config();
    let route = resolve_route(&config, "cc-haiku").unwrap();
    assert_eq!(route.provider, "anthropic");
    assert_eq!(route.configured_model, "cc-sonnet");
    assert_eq!(route.resolved_model, "cc-sonnet-4-6");
}

#[test]
fn active_effort_overrides_upstream_and_auto_falls_back() {
    let mut config = make_config();
    config.proxy.upstreams[0].effort = Some("medium".into());
    config.proxy.active_effort = "high".into();
    assert_eq!(
        resolve_route(&config, "cc-haiku").unwrap().effort.as_deref(),
        Some("high")
    );
    config.proxy.active_effort = "auto".into();
    assert_eq!(
        resolve_route(&config, "cc-haiku").unwrap().effort.as_deref(),
        Some("medium")
    );
}

#[test]
fn resolve_route_for_explicit_upstream() {
    let mut config = make_config();
    let mut transparent = bare_upstream("transparent");
    transparent.default = Some(rule("anthropic", "raw-model"));
    config.proxy.upstreams.push(transparent);
    let route = resolve_route_for(&config, "transparent", "client-model").unwrap();
    assert_eq!(route.upstream, "transparent");
    assert_eq!(route.provider, "anthropic");
    assert_eq!(route.resolved_model, "raw-model");
}

#[test]
fn transparent_upstream_can_route_without_configured_model() {
    let mut config = make_config();
    let mut transparent = bare_upstream("transparent");
    transparent.default = Some(rule("anthropic", ""));
    config.proxy.upstreams.push(transparent);
    let route = resolve_route_for(&config, "transparent", "wire-model").unwrap();
    assert_eq!(route.provider, "anthropic");
    assert!(route.resolved_model.is_empty());
}

#[test]
fn resolve_billing_works() {
    let config = make_config();
    let billing = resolve_billing(&config, "anthropic", "cc-sonnet-4-6").unwrap();
    assert_eq!(billing.pricing_model_id, "cc-sonnet");
    assert_eq!(billing.rates.input_microusd, 3_000_000);
    assert_eq!(billing.rates.output_microusd, 15_000_000);
}

#[test]
fn tier_inherits_provider_from_default() {
    let mut config = make_config();
    config.proxy.upstreams[0].high = Some(rule("", "cc-opus"));
    let route = resolve_route(&config, "cc-opus-4-6").unwrap();
    assert_eq!(route.provider, "anthropic");
    assert_eq!(route.configured_model, "cc-opus");
}

#[test]
fn default_empty_model_passthrough() {
    let mut config = make_config();
    config.proxy.upstreams[0].default = Some(rule("anthropic", ""));
    let route = resolve_route(&config, "cc-haiku").unwrap();
    assert_eq!(route.provider, "anthropic");
    assert_eq!(route.configured_model, "");
}

#[test]
fn unknown_upstream_is_refused() {
    let config = make_config();
    assert!(resolve_route_for(&config, "missing", "cc-haiku").is_err());
}

#[test]
fn billing_for_unpriced_model_is_refused() {
    let config = make_config();
    assert!(resolve_billing(&config, "anthropic", "no-such-model").is_err());
}

// ── validation ──

#[test]
fn empty_config_validates() {
    let config = AppConfig::default();
    assert!(config.validate().is_empty());
    assert!(validate_config(&config).is_ok());
}

#[test]
fn duplicate_provider_detected() {
    let mut config = AppConfig::default();
    config.proxy.providers.push(provider("test", "https://a.com", vec![]));
    config.proxy.providers.push(provider("test", "https://b.com", vec![]));
    let errors = config.validate();
    assert!(!errors.is_empty());
    assert!(validate_config(&config).is_err());
}

#[test]
fn bad_price_length_detected() {
    let mut config = AppConfig::default();
    config.model_pricing.push(ModelPricing {
        id: "test".into(),
        price: vec![1_000_000],
        providers: vec![],
    });
    let errors = config.validate();
    assert!(errors.iter().any(|e| e.contains("price must have")));
}

#[test]
fn tier_matching_ignores_case() {
    let config = make_config();
    let route = resolve_route(&config, "CC-OPUS-4-6").unwrap();
    assert_eq!(route.configured_model, "cc-opus");
}
