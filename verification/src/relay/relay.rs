//! The decisions of the proxy entry point: which upstream and provider serve a
//! request, how the request is rewritten, where it is sent, and how the result
//! is recorded and answered.

use vstd::prelude::*;
use vstd::arithmetic::power2::{
    lemma2_to64, lemma2_to64_rest, lemma_pow2_strictly_increases, lemma_pow2_unfold, pow2,
};
use vstd::string::StringSliceAdditionalSpecFns;
use vstd::utf8::{encode_utf8_valid_utf8, is_char_boundary};

use super::upstream::{
    effort_active, hviews, header_put, is_effort_active, inject_effort, is_effort_doc,
    put_header_field, ApiProtocol, HeaderField,
};
use crate::config::error::{error_text, ConfigError};
use crate::config::model::AppConfig;
use crate::config::pricing::{BillingSnapshot, PriceRates, ResolvedRoute};
use crate::config::provider::Provider;
use crate::config::routing::{billing_result, resolve_billing, resolve_route_for, route_result};
use crate::json::{json_get, json_str, member_set, set_member, JsonValue};
use crate::text::{
    cat3, concat3, opt_view, owned, seq_starts_with, str_eq, str_is_empty, str_starts_with,
    trim_end_char, trim_end_matches, trim_start_char, trim_start_matches,
};

verus! {

/// `e` is where text of `max` bytes at most is cut: the last character
/// boundary at or before `max`.
pub open spec fn is_cut_point(b: Seq<u8>, max: int, e: int) -> bool {
    &&& 0 <= e <= max
    &&& e <= b.len()
    &&& is_char_boundary(b, e)
    &&& forall|k: int| e < k <= max ==> !is_char_boundary(b, k)
}

/// Truncates text to at most `max_bytes` bytes without splitting a character.
pub fn safe_truncate_bytes(s: &str, max_bytes: usize) -> (r: &str)
    ensures
        s.spec_bytes().len() <= max_bytes ==> r@ == s@,
        s.spec_bytes().len() > max_bytes ==> is_cut_point(
            s.spec_bytes(),
            max_bytes as int,
            r.spec_bytes().len() as int,
        ) && r.spec_bytes() == s.spec_bytes().take(r.spec_bytes().len() as int),
{
    let n = s.as_bytes().len();
    if n <= max_bytes {
        return s;
    }
    proof {
        encode_utf8_valid_utf8(s@);
    }
    let mut end = max_bytes;
    while end > 0 && !s.is_char_boundary(end)
        invariant
            end <= max_bytes,
            max_bytes < s.spec_bytes().len(),
            vstd::utf8::valid_utf8(s.spec_bytes()),
            forall|k: int| end < k <= max_bytes ==> !is_char_boundary(s.spec_bytes(), k),
        decreases end,
    {
        end -= 1;
    }
    let (head, _) = s.split_at(end);
    assert(head.spec_bytes() =~= s.spec_bytes().take(end as int));
    head
}

/// The kind of client that sent a request.
#[derive(Debug, Clone, Copy, PartialEq, Eq, Structural)]
pub enum ClientType {
    ClaudeCode,
    Codex,
}

/// The client type recorded for a protocol.
pub fn client_type(protocol: ApiProtocol) -> (r: ClientType)
    ensures
        r == (match protocol {
            ApiProtocol::Anthropic => ClientType::ClaudeCode,
            ApiProtocol::Codex => ClientType::Codex,
        }),
{
    match protocol {
        ApiProtocol::Anthropic => ClientType::ClaudeCode,
        ApiProtocol::Codex => ClientType::Codex,
    }
}

/// The outcome recorded for a finished request.
#[derive(Debug, Clone, Copy, PartialEq, Eq, Structural)]
pub enum TaskStatus {
    Completed,
    Failed,
}

/// A request failed when the upstream reported an error or answered 400 or more.
pub fn task_status(has_error: bool, status_code: u16) -> (r: TaskStatus)
    ensures
        r == (if has_error || status_code >= 400 {
            TaskStatus::Failed
        } else {
            TaskStatus::Completed
        }),
{
    if has_error || status_code >= 400 {
        TaskStatus::Failed
    } else {
        TaskStatus::Completed
    }
}

/// The upstream the request goes through: the proxy upstream for transparent
/// (forward-proxy) traffic when one is set, else the active upstream.
pub open spec fn spec_upstream_name(config: AppConfig, is_transparent: bool) -> Seq<char> {
    if is_transparent && config.proxy.active_proxy_upstream@.len() > 0 {
        config.proxy.active_proxy_upstream@
    } else {
        config.proxy.active_upstream@
    }
}

/// `i` is the first provider whose URL, without trailing slashes, begins `url`.
pub open spec fn is_first_url_match(ps: Seq<Provider>, url: Seq<char>, i: int) -> bool {
    &&& 0 <= i < ps.len()
    &&& seq_starts_with(url, trim_end_char(ps[i].url@, '/'))
    &&& forall|j: int| 0 <= j < i ==> !seq_starts_with(url, trim_end_char(ps[j].url@, '/'))
}

/// `i` is the first provider named `n`.
pub open spec fn is_first_provider_named(ps: Seq<Provider>, n: Seq<char>, i: int) -> bool {
    &&& 0 <= i < ps.len()
    &&& ps[i].name@ == n
    &&& forall|j: int| 0 <= j < i ==> ps[j].name@ != n
}

/// The first provider named `n`.
pub open spec fn provider_named(ps: Seq<Provider>, n: Seq<char>) -> Option<Provider> {
    if exists|i: int| is_first_provider_named(ps, n, i) {
        Some(ps[choose|i: int| is_first_provider_named(ps, n, i)])
    } else {
        None
    }
}

/// Finds the first provider named `name`.
pub fn find_provider(ps: &Vec<Provider>, name: &str) -> (r: Option<usize>)
    ensures
        match r {
            Some(i) => is_first_provider_named(ps@, name@, i as int) && provider_named(ps@, name@)
                == Some(ps@[i as int]),
            None => provider_named(ps@, name@) is None,
        },
{
    let mut i: usize = 0;
    while i < ps.len()
        invariant
            i <= ps.len(),
            forall|j: int| 0 <= j < i ==> ps@[j].name@ != name@,
        decreases ps.len() - i,
    {
        if str_eq(ps[i].name.as_str(), name) {
            proof {
                assert(is_first_provider_named(ps@, name@, i as int));
                let c = choose|c: int| is_first_provider_named(ps@, name@, c);
                if c < i {
                    assert(ps@[c].name@ != name@);
                } else if c > i {
                    assert(ps@[i as int].name@ == name@);
                }
            }
            return Some(i);
        }
        i += 1;
    }
    None
}

/// Where and how a request is sent.
#[derive(Debug)]
pub struct RoutePlan {
    pub route: ResolvedRoute,
    pub provider_url: String,
    pub provider_token: Option<String>,
}

/// The body of the reply when auto-detection finds no provider.
pub open spec fn auto_detect_failed_msg(url: Seq<char>) -> Seq<char> {
    "Auto-detect failed: no configured provider matches request URL\n\nURL: "@ + url
}

/// The base URL of a provider for a protocol: codex requests use `codex_url`
/// when it is set and not empty, everything else uses `url`.
pub open spec fn provider_base(p: Provider, protocol: ApiProtocol) -> Seq<char> {
    match opt_view(p.codex_url) {
        Some(cu) => if protocol == ApiProtocol::Codex && cu.len() > 0 {
            cu
        } else {
            p.url@
        },
        None => p.url@,
    }
}

/// The base URL of a provider for a protocol.
pub fn base_url_for(p: &Provider, protocol: ApiProtocol) -> (r: String)
    ensures
        r@ == provider_base(*p, protocol),
{
    match &p.codex_url {
        Some(cu) => if protocol == ApiProtocol::Codex && !str_is_empty(cu.as_str()) {
            cu.clone()
        } else {
            p.url.clone()
        },
        None => p.url.clone(),
    }
}

/// What `plan_route` answers. In auto mode (proxy upstream `__auto__` on
/// transparent traffic) the first provider whose URL prefixes the request URL
/// serves the request with the requested model, and its token is not used;
/// else the route of the upstream, with the base URL for the protocol and the
/// token of the route's provider (empty URL and no token when no provider has
/// that name).
pub open spec fn plan_result(
    config: AppConfig,
    path_or_url: Seq<char>,
    protocol: ApiProtocol,
    request_model: Seq<char>,
    is_transparent: bool,
    r: Result<RoutePlan, String>,
) -> bool {
    let name = spec_upstream_name(config, is_transparent);
    let ps = config.proxy.providers@;
    if name == "__auto__"@ && is_transparent {
        if exists|i: int| is_first_url_match(ps, path_or_url, i) {
            let i = choose|i: int| is_first_url_match(ps, path_or_url, i);
            r matches Ok(plan) && plan.route.upstream@ == "__auto__"@ && plan.route.provider@
                == ps[i].name@ && plan.route.configured_model@ == request_model
                && plan.route.resolved_model@ == request_model && plan.route.effort is None
                && plan.provider_url@ == provider_base(ps[i], protocol) && plan.provider_token is None
        } else {
            r matches Err(m) && m@ == auto_detect_failed_msg(path_or_url)
        }
    } else {
        exists|rr: Result<ResolvedRoute, ConfigError>|
            #[trigger] route_result(config, name, request_model, rr) && match rr {
                Err(e) => r matches Err(m) && m@ == "Route resolution failed: "@ + error_text(e),
                Ok(route) => r matches Ok(plan) && plan.route == route && match provider_named(
                    ps,
                    route.provider@,
                ) {
                    Some(p) => plan.provider_url@ == provider_base(p, protocol) && opt_view(plan.provider_token)
                        == opt_view(p.token),
                    None => plan.provider_url@.len() == 0 && plan.provider_token is None,
                },
            }
    }
}

/// Resolves the upstream, provider, URL and token that serve a request. An
/// error carries the text of the `502 Bad Gateway` reply.
pub fn plan_route(
    config: &AppConfig,
    path_or_url: &str,
    protocol: ApiProtocol,
    request_model: &str,
    is_transparent: bool,
) -> (r: Result<RoutePlan, String>)
    ensures
        plan_result(*config, path_or_url@, protocol, request_model@, is_transparent, r),
{
    let upstream_name: &str = if is_transparent && !str_is_empty(
        config.proxy.active_proxy_upstream.as_str(),
    ) {
        config.proxy.active_proxy_upstream.as_str()
    } else {
        config.proxy.active_upstream.as_str()
    };
    assert(upstream_name@ == spec_upstream_name(*config, is_transparent));
    let ps = &config.proxy.providers;
    if str_eq(upstream_name, "__auto__") && is_transparent {
        let mut i: usize = 0;
        while i < ps.len()
            invariant
                ps == &config.proxy.providers,
                spec_upstream_name(*config, is_transparent) == "__auto__"@,
                is_transparent,
                i <= ps.len(),
                forall|j: int|
                    0 <= j < i ==> !seq_starts_with(path_or_url@, trim_end_char(ps@[j].url@, '/')),
            decreases ps.len() - i,
        {
            let base = trim_end_matches(ps[i].url.as_str(), '/');
            if str_starts_with(path_or_url, base.as_str()) {
                proof {
                    assert(is_first_url_match(ps@, path_or_url@, i as int));
                    let c = choose|c: int| is_first_url_match(ps@, path_or_url@, c);
                    if c < i {
                        assert(!seq_starts_with(path_or_url@, trim_end_char(ps@[c].url@, '/')));
                    } else if c > i {
                        assert(seq_starts_with(path_or_url@, trim_end_char(ps@[i as int].url@, '/')));
                    }
                }
                let p = &ps[i];
                let route = ResolvedRoute {
                    upstream: owned("__auto__"),
                    provider: p.name.clone(),
                    configured_model: owned(request_model),
                    resolved_model: owned(request_model),
                    effort: None,
                };
                return Ok(RoutePlan { route, provider_url: base_url_for(p, protocol), provider_token: None });
            }
            i += 1;
        }
        assert(!exists|c: int| is_first_url_match(ps@, path_or_url@, c));
        let mut m = owned(
            "Auto-detect failed: no configured provider matches request URL\n\nURL: ",
        );
        crate::text::push_str(&mut m, path_or_url);
        return Err(m);
    }
    let rr = resolve_route_for(config, upstream_name, request_model);
    assert(route_result(
        *config,
        spec_upstream_name(*config, is_transparent),
        request_model@,
        rr,
    ));
    match rr {
        Err(e) => {
            let mut m = owned("Route resolution failed: ");
            let t = e.message();
            crate::text::push_str(&mut m, t.as_str());
            Err(m)
        },
        Ok(route) => {
            let (url, token) = match find_provider(ps, route.provider.as_str()) {
                Some(k) => (base_url_for(&ps[k], protocol), crate::text::copy_opt(&ps[k].token)),
                None => (String::new(), None),
            };
            Ok(RoutePlan { route, provider_url: url, provider_token: token })
        },
    }
}

/// The model a request is recorded under: the requested one for transparent
/// traffic, else the route's resolved model.
pub fn effective_model(is_transparent: bool, request_model: &str, route: &ResolvedRoute) -> (r:
    String)
    ensures
        r@ == (if is_transparent {
            request_model@
        } else {
            route.resolved_model@
        }),
{
    if is_transparent {
        owned(request_model)
    } else {
        route.resolved_model.clone()
    }
}

/// What `billing_for` returns: the pricing of the effective model, or zero
/// rates under the `unknown` pricing id; transparent traffic keeps the model
/// observed on the wire.
pub open spec fn billing_for_result(
    config: AppConfig,
    provider: Seq<char>,
    effective: Seq<char>,
    request_model: Seq<char>,
    is_transparent: bool,
    b: BillingSnapshot,
) -> bool {
    exists|rr: Result<BillingSnapshot, ConfigError>|
        #[trigger] billing_result(config, provider, effective, rr) && {
            let model = if is_transparent {
                request_model
            } else {
                match rr {
                    Ok(x) => x.resolved_model@,
                    Err(_) => effective,
                }
            };
            &&& b.resolved_model@ == model
            &&& match rr {
                Ok(x) => b.pricing_model_id@ == x.pricing_model_id@ && b.provider@ == x.provider@
                    && b.rates == x.rates && b.currency@ == x.currency@,
                Err(_) => b.pricing_model_id@ == "unknown"@ && b.provider@ == provider && b.rates
                    == (PriceRates {
                    input_microusd: 0,
                    output_microusd: 0,
                    cache_write_microusd: 0,
                    cache_read_microusd: 0,
                }) && b.currency@ == "USD"@,
            }
        }
}

/// The billing snapshot of a request.
pub fn billing_for(
    config: &AppConfig,
    provider: &str,
    effective: &str,
    request_model: &str,
    is_transparent: bool,
) -> (r: BillingSnapshot)
    ensures
        billing_for_result(*config, provider@, effective@, request_model@, is_transparent, r),
{
    let rr = resolve_billing(config, provider, effective);
    assert(billing_result(*config, provider@, effective@, rr));
    let mut b = match rr {
        Ok(x) => x,
        Err(_) => BillingSnapshot {
            pricing_model_id: owned("unknown"),
            provider: owned(provider),
            resolved_model: owned(effective),
            rates: PriceRates {
                input_microusd: 0,
                output_microusd: 0,
                cache_write_microusd: 0,
                cache_read_microusd: 0,
            },
            currency: owned("USD"),
        },
    };
    if is_transparent {
        b.resolved_model = owned(request_model);
    }
    b
}

/// Whether a pricing entry was found for the request.
pub fn is_priced(billing: &BillingSnapshot) -> (b: bool)
    ensures
        b == (billing.pricing_model_id@ != "unknown"@),
{
    !str_eq(billing.pricing_model_id.as_str(), "unknown")
}

/// A proxy setting as a proxy URL: an empty one means a direct connection.
pub open spec fn nonempty_proxy(u: Option<Seq<char>>) -> Option<Seq<char>> {
    match u {
        Some(u) => if u.len() == 0 {
            None
        } else {
            Some(u)
        },
        None => None,
    }
}

/// The HTTP proxy of the route's provider: its own setting, where an empty one
/// means a direct connection; where it has none (or no provider has that
/// name), the global `http_proxy`, again with empty meaning direct.
pub open spec fn spec_proxy_url(ps: Seq<Provider>, global: Option<Seq<char>>, provider: Seq<char>) -> Option<
    Seq<char>,
> {
    match provider_named(ps, provider) {
        Some(p) => match opt_view(p.proxy) {
            Some(u) => nonempty_proxy(Some(u)),
            None => nonempty_proxy(global),
        },
        None => nonempty_proxy(global),
    }
}

fn nonempty_proxy_exec(u: &Option<String>) -> (r: Option<String>)
    ensures
        opt_view(r) == nonempty_proxy(opt_view(*u)),
{
    match u {
        Some(u) => if str_is_empty(u.as_str()) {
            None
        } else {
            Some(u.clone())
        },
        None => None,
    }
}

/// The HTTP proxy to reach a provider through.
pub fn proxy_url_for(config: &AppConfig, provider: &str) -> (r: Option<String>)
    ensures
        opt_view(r) == spec_proxy_url(config.proxy.providers@, opt_view(config.proxy.http_proxy), provider@),
{
    match find_provider(&config.proxy.providers, provider) {
        Some(k) => match &config.proxy.providers[k].proxy {
            Some(_) => nonempty_proxy_exec(&config.proxy.providers[k].proxy),
            None => nonempty_proxy_exec(&config.proxy.http_proxy),
        },
        None => nonempty_proxy_exec(&config.proxy.http_proxy),
    }
}

/// The effort of a route, or empty text.
pub open spec fn route_effort(route: ResolvedRoute) -> Seq<char> {
    match opt_view(route.effort) {
        Some(e) => e,
        None => Seq::empty(),
    }
}

/// Whether the body is rewritten before it is sent: relayed (not transparent)
/// traffic gets the route's effort and the resolved model name.
pub open spec fn rewrites_body(route: ResolvedRoute, request_model: Seq<char>, is_transparent: bool) -> bool {
    !is_transparent && (effort_active(route_effort(route)) || route.resolved_model@ != request_model)
}

/// `mid` is `body` with the route's effort injected when it sets one.
pub open spec fn effort_stage(body: JsonValue, route: ResolvedRoute, mid: JsonValue) -> bool {
    if effort_active(route_effort(route)) {
        exists|x: JsonValue|
            is_effort_doc(x, route_effort(route)) && #[trigger] member_set(
                body,
                "output_config"@,
                x,
                mid,
            )
    } else {
        mid == body
    }
}

/// `r` is `mid` with its model replaced by the resolved model when they differ.
pub open spec fn model_stage(
    mid: JsonValue,
    route: ResolvedRoute,
    request_model: Seq<char>,
    r: JsonValue,
) -> bool {
    if route.resolved_model@ != request_model {
        exists|m: String|
            m@ == route.resolved_model@ && #[trigger] member_set(
                mid,
                "model"@,
                JsonValue::Str(m),
                r,
            )
    } else {
        r == mid
    }
}

/// Rewrites the body of a relayed request: injects the route's effort, and
/// replaces the model with the resolved model when they differ. Transparent
/// traffic is sent unchanged.
pub fn rewrite_request_body(
    body_json: &mut JsonValue,
    route: &ResolvedRoute,
    request_model: &str,
    is_transparent: bool,
)
    requires
        rewrites_body(*route, request_model@, is_transparent) ==> (*old(body_json) is Object
            || *old(body_json) is Null),
    ensures
        !rewrites_body(*route, request_model@, is_transparent) ==> *final(body_json) == *old(body_json),
        rewrites_body(*route, request_model@, is_transparent) ==> exists|mid: JsonValue|
            #[trigger] effort_stage(*old(body_json), *route, mid) && model_stage(
                mid,
                *route,
                request_model@,
                *final(body_json),
            ),
{
    if is_transparent {
        return;
    }
    let effort: String = match &route.effort {
        Some(e) => e.clone(),
        None => String::new(),
    };
    assert(effort@ == route_effort(*route));
    if is_effort_active(effort.as_str()) {
        inject_effort(body_json, effort.as_str());
    }
    let ghost mid = *body_json;
    if !str_eq(route.resolved_model.as_str(), request_model) {
        let m = route.resolved_model.clone();
        let ghost gm = m;
        set_member(body_json, "model", JsonValue::Str(m));
        assert(member_set(mid, "model"@, JsonValue::Str(gm), *body_json));
    }
    assert(effort_stage(*old(body_json), *route, mid));
}

/// A relayed request whose resolved model differs from the requested one is
/// sent with the resolved model as its `model`, whatever the effort did.
pub proof fn relayed_body_names_resolved_model(
    body: JsonValue,
    route: ResolvedRoute,
    request_model: Seq<char>,
    is_transparent: bool,
    r: JsonValue,
)
    requires
        !is_transparent,
        route.resolved_model@ != request_model,
        rewrites_body(route, request_model, is_transparent) ==> exists|mid: JsonValue|
            #[trigger] effort_stage(body, route, mid) && model_stage(mid, route, request_model, r),
    ensures
        json_str(json_get(r, "model"@)) == Some(route.resolved_model@),
{
    let mid = choose|mid: JsonValue| #[trigger] effort_stage(body, route, mid) && model_stage(mid, route, request_model, r);
    let m = choose|m: String| m@ == route.resolved_model@ && #[trigger] member_set(mid, "model"@, JsonValue::Str(m), r);
    crate::json::member_set_reads_back(mid, "model"@, JsonValue::Str(m), r);
}

/// The URL a request is sent to: a full URL as it is, else the path appended
/// to the provider's base URL with one slash between them.
pub open spec fn spec_upstream_url(path_or_url: Seq<char>, provider_url: Seq<char>) -> Seq<char> {
    if seq_starts_with(path_or_url, "http"@) {
        path_or_url
    } else {
        trim_end_char(provider_url, '/') + "/"@ + trim_start_char(path_or_url, '/')
    }
}

/// Builds the upstream URL of a request.
pub fn upstream_url(path_or_url: &str, provider_url: &str) -> (r: String)
    ensures
        r@ == spec_upstream_url(path_or_url@, provider_url@),
{
    if str_starts_with(path_or_url, "http") {
        owned(path_or_url)
    } else {
        let base = trim_end_matches(provider_url, '/');
        let path = trim_start_matches(path_or_url, '/');
        concat3(base.as_str(), "/", path.as_str())
    }
}

/// The provider token sent upstream: only relayed traffic carries it.
pub fn override_token(is_transparent: bool, provider_token: &Option<String>) -> (r: Option<String>)
    ensures
        opt_view(r) == (if is_transparent {
            None
        } else {
            opt_view(*provider_token)
        }),
{
    if is_transparent {
        None
    } else {
        crate::text::copy_opt(provider_token)
    }
}

/// Adds `anthropic-beta: effort-2025-11-24` to relayed requests whose route sets
/// an effort other than `auto`.
pub fn add_effort_header(headers: &mut Vec<HeaderField>, route: &ResolvedRoute, is_transparent: bool)
    ensures
        (is_transparent || !effort_active(route_effort(*route))) ==> final(headers)@ == old(headers)@,
        (!is_transparent && effort_active(route_effort(*route))) ==> hviews(final(headers)@)
            == header_put(
            hviews(old(headers)@),
            "anthropic-beta"@,
            crate::relay::upstream::beta_bytes(),
        ),
{
    if is_transparent {
        return;
    }
    match &route.effort {
        Some(e) => {
            if is_effort_active(e.as_str()) {
                put_header_field(headers, owned("anthropic-beta"), crate::relay::upstream::beta_value());
            }
        },
        None => {},
    }
}

/// Whether a response header is passed on to the client.
pub open spec fn keeps_response_header(name: Seq<char>) -> bool {
    let k = crate::config::routing::lowercase(name);
    k != "transfer-encoding"@ && k != "content-encoding"@
}

/// The upstream response headers passed on to the client, in order.
pub fn client_response_headers(headers: &Vec<HeaderField>) -> (r: Vec<HeaderField>)
    ensures
        hviews(r@) == hviews(headers@).filter(
            |h: (Seq<char>, Seq<u8>)| keeps_response_header(h.0),
        ),
{
    let mut out: Vec<HeaderField> = Vec::new();
    let mut i: usize = 0;
    while i < headers.len()
        invariant
            i <= headers.len(),
            hviews(out@) == hviews(headers@.take(i as int)).filter(
                |h: (Seq<char>, Seq<u8>)| keeps_response_header(h.0),
            ),
        decreases headers.len() - i,
    {
        proof {
            reveal_with_fuel(Seq::filter, 1);
            assert(hviews(headers@.take(i + 1)).drop_last() =~= hviews(headers@.take(i as int)));
        }
        let key = crate::config::routing::to_lowercase(headers[i].name.as_str());
        if !str_eq(key.as_str(), "transfer-encoding") && !str_eq(key.as_str(), "content-encoding") {
            out.push(HeaderField { name: headers[i].name.clone(), value: headers[i].value.clone() });
            assert(hviews(out@) =~= hviews(headers@.take(i as int)).filter(
                |h: (Seq<char>, Seq<u8>)| keeps_response_header(h.0),
            ).push(hviews(headers@.take(i + 1)).last()));
        }
        i += 1;
    }
    assert(headers@.take(i as int) =~= headers@);
    out
}

/// Whether a response is read as an event stream: a streaming request answered
/// with a status below 300. Other streaming replies are read whole as an error
/// body.
pub fn reads_as_sse(is_streaming: bool, status_code: u16) -> (b: bool)
    ensures
        b == (is_streaming && status_code < 300),
{
    is_streaming && status_code < 300
}

/// A response whose body failed after a successful status is answered with a
/// `502` and a JSON error instead.
pub fn needs_proxy_error(status_code: u16, error: &Option<String>) -> (b: bool)
    ensures
        b == (status_code < 400 && error is Some),
{
    status_code < 400 && error.is_some()
}

/// The document `{"error": {"type": "proxy_error", "message": message}}`.
pub fn proxy_error_body(message: &str) -> (r: JsonValue)
    ensures
        crate::json::json_str(
            crate::json::json_in(crate::json::json_get(r, "error"@), "type"@),
        ) == Some("proxy_error"@),
        crate::json::json_str(
            crate::json::json_in(crate::json::json_get(r, "error"@), "message"@),
        ) == Some(message@),
        crate::json::members(r).len() == 1,
{
    proof {
        reveal_strlit("type");
        reveal_strlit("message");
    }
    let mut inner: Vec<(String, JsonValue)> = Vec::new();
    inner.push((owned("type"), JsonValue::Str(owned("proxy_error"))));
    inner.push((owned("message"), JsonValue::Str(owned(message))));
    let ghost gi = inner@;
    assert(crate::json::is_first_key(gi, "type"@, 0));
    assert(gi[0].0@.len() != "message"@.len());
    assert(crate::json::is_first_key(gi, "message"@, 1));
    let mut outer: Vec<(String, JsonValue)> = Vec::new();
    outer.push((owned("error"), JsonValue::Object(inner)));
    assert(crate::json::is_first_key(outer@, "error"@, 0));
    JsonValue::Object(outer)
}

/// Delay before retry `attempt` (1-based): 200 ms doubled for each earlier retry.
pub open spec fn spec_retry_delay(attempt: nat) -> nat {
    200 * pow2((attempt - 1) as nat)
}

/// The delay in milliseconds before retry `attempt`, for the attempts whose
/// delay fits in `u64`.
pub fn retry_delay_ms(attempt: u32) -> (r: u64)
    requires
        1 <= attempt <= 57,
    ensures
        r == spec_retry_delay(attempt as nat),
{
    proof {
        lemma2_to64_rest();
        if attempt < 57 {
            lemma_pow2_strictly_increases((attempt - 1) as nat, 56);
        }
    }
    let mut d: u64 = 200;
    let mut k: u32 = 1;
    proof {
        lemma2_to64();
    }
    while k < attempt
        invariant
            1 <= k <= attempt <= 57,
            d == 200 * pow2((k - 1) as nat),
            200 * pow2((attempt - 1) as nat) <= u64::MAX,
        decreases attempt - k,
    {
        proof {
            lemma_pow2_unfold(k as nat);
            if k + 1 < attempt {
                lemma_pow2_strictly_increases(k as nat, (attempt - 1) as nat);
            }
        }
        d = d * 2;
        k += 1;
    }
    d
}

/// Whether a failed attempt is tried again: only connection failures and
/// timeouts are, while attempts remain.
pub fn should_retry(attempt: u32, retry_count: u32, is_connect: bool, is_timeout: bool) -> (b: bool)
    ensures
        b == ((is_connect || is_timeout) && attempt < retry_count),
{
    (is_connect || is_timeout) && attempt < retry_count
}

/// The session id used when the client sent none: the protocol's request type,
/// a dash, and a freshly generated id.
pub fn fallback_session_id(protocol: ApiProtocol, generated: &str) -> (r: String)
    ensures
        r@ == crate::relay::upstream::protocol_name(protocol) + "-"@ + generated@,
{
    concat3(protocol.request_type(), "-", generated)
}

} // verus!
