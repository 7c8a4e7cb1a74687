//! Settings changes made from the dashboard, applied to a candidate
//! configuration before it is validated and saved.

use vstd::prelude::*;

use crate::config::error::ConfigError;
use crate::config::model::AppConfig;
use crate::config::pricing::ModelPricing;
use crate::config::provider::Provider;
use crate::config::upstream::TierRule;
use crate::config::upstream::UpstreamConfig;
use crate::json::{as_str, as_u64, get, json_get, json_str, json_u64, ov, JsonValue};
use crate::text::{opt_view, owned, seq_contains, str_contains, str_eq, str_is_empty};

verus! {

/// The HTTP status an error message maps to: 404 for a missing entry, 400 for
/// an invalid one, 409 for a conflict, else 500.
pub open spec fn spec_err_status(msg: Seq<char>) -> u16 {
    if seq_contains(msg, "not found"@) || seq_contains(msg, "NotFound"@) {
        404
    } else if seq_contains(msg, "validation"@) || seq_contains(msg, "invalid"@) || seq_contains(
        msg,
        "Validation"@,
    ) {
        400
    } else if seq_contains(msg, "duplicate"@) || seq_contains(msg, "conflict"@) {
        409
    } else {
        500
    }
}

/// Maps an error message to the HTTP status of the reply.
pub fn err_status(msg: &str) -> (r: u16)
    ensures
        r == spec_err_status(msg@),
{
    if str_contains(msg, "not found") || str_contains(msg, "NotFound") {
        404
    } else if str_contains(msg, "validation") || str_contains(msg, "invalid") || str_contains(
        msg,
        "Validation",
    ) {
        400
    } else if str_contains(msg, "duplicate") || str_contains(msg, "conflict") {
        409
    } else {
        500
    }
}

/// The upstreams not named `name`, in order.
pub open spec fn without_upstream(us: Seq<UpstreamConfig>, name: Seq<char>) -> Seq<UpstreamConfig> {
    us.filter(|u: UpstreamConfig| u.name@ != name)
}

/// The providers not named `name`, in order.
pub open spec fn without_provider(ps: Seq<Provider>, name: Seq<char>) -> Seq<Provider> {
    ps.filter(|p: Provider| p.name@ != name)
}

fn retain_upstreams(us: &mut Vec<UpstreamConfig>, name: &str)
    ensures
        final(us)@ == without_upstream(old(us)@, name@),
{
    let mut rest: Vec<UpstreamConfig> = Vec::new();
    std::mem::swap(&mut rest, us);
    let ghost olds = rest@;
    let mut kept: Vec<UpstreamConfig> = Vec::new();
    let mut i: usize = 0;
    assert(olds.take(0) =~= Seq::<UpstreamConfig>::empty());
    let n = rest.len();
    while rest.len() > 0
        invariant
            i <= olds.len(),
            n == olds.len(),
            i + rest@.len() == olds.len(),
            rest@ == olds.skip(i as int),
            kept@ == without_upstream(olds.take(i as int), name@),
        decreases rest@.len(),
    {
        proof {
            reveal_with_fuel(Seq::filter, 1);
            assert(olds.take(i + 1).drop_last() =~= olds.take(i as int));
            assert(olds.skip(i as int)[0] == olds[i as int]);
        }
        let u = rest.remove(0);
        assert(rest@ =~= olds.skip(i + 1));
        if !str_eq(u.name.as_str(), name) {
            kept.push(u);
        }
        i += 1;
    }
    assert(olds.take(i as int) =~= olds);
    *us = kept;
}

fn retain_providers(ps: &mut Vec<Provider>, name: &str)
    ensures
        final(ps)@ == without_provider(old(ps)@, name@),
{
    let mut rest: Vec<Provider> = Vec::new();
    std::mem::swap(&mut rest, ps);
    let ghost olds = rest@;
    let mut kept: Vec<Provider> = Vec::new();
    let mut i: usize = 0;
    assert(olds.take(0) =~= Seq::<Provider>::empty());
    let n = rest.len();
    while rest.len() > 0
        invariant
            i <= olds.len(),
            n == olds.len(),
            i + rest@.len() == olds.len(),
            rest@ == olds.skip(i as int),
            kept@ == without_provider(olds.take(i as int), name@),
        decreases rest@.len(),
    {
        proof {
            reveal_with_fuel(Seq::filter, 1);
            assert(olds.take(i + 1).drop_last() =~= olds.take(i as int));
            assert(olds.skip(i as int)[0] == olds[i as int]);
        }
        let p = rest.remove(0);
        assert(rest@ =~= olds.skip(i + 1));
        if !str_eq(p.name.as_str(), name) {
            kept.push(p);
        }
        i += 1;
    }
    assert(olds.take(i as int) =~= olds);
    *ps = kept;
}

/// The name of the first upstream, or empty text.
pub open spec fn first_name(us: Seq<UpstreamConfig>) -> Seq<char> {
    if us.len() > 0 {
        us[0].name@
    } else {
        Seq::empty()
    }
}

/// Deletes the upstream named `name`. The last upstream cannot be deleted; an
/// active or proxy-active upstream that is deleted hands its role to the first
/// remaining one.
pub fn delete_upstream(config: &mut AppConfig, name: &str) -> (r: Result<(), ConfigError>)
    ensures
        old(config).proxy.upstreams@.len() <= 1 ==> (r matches Err(ConfigError::Validation(m))
            && m@ == "cannot delete last upstream"@ && *final(config) == *old(config)),
        old(config).proxy.upstreams@.len() > 1 ==> {
            let rest = without_upstream(old(config).proxy.upstreams@, name@);
            &&& r is Ok
            &&& final(config).proxy.upstreams@ == rest
            &&& final(config).proxy.active_upstream@ == if old(config).proxy.active_upstream@
                == name@ {
                first_name(rest)
            } else {
                old(config).proxy.active_upstream@
            }
            &&& final(config).proxy.active_proxy_upstream@ == if old(config).proxy.active_proxy_upstream@ == name@ {
                first_name(rest)
            } else {
                old(config).proxy.active_proxy_upstream@
            }
            &&& final(config).proxy.providers == old(config).proxy.providers
            &&& final(config).model_pricing == old(config).model_pricing
        },
{
    if config.proxy.upstreams.len() <= 1 {
        return Err(ConfigError::Validation(owned("cannot delete last upstream")));
    }
    let was_active = str_eq(config.proxy.active_upstream.as_str(), name);
    let was_proxy_active = str_eq(config.proxy.active_proxy_upstream.as_str(), name);
    retain_upstreams(&mut config.proxy.upstreams, name);
    if was_active {
        config.proxy.active_upstream = if config.proxy.upstreams.len() > 0 {
            config.proxy.upstreams[0].name.clone()
        } else {
            String::new()
        };
    }
    if was_proxy_active {
        config.proxy.active_proxy_upstream = if config.proxy.upstreams.len() > 0 {
            config.proxy.upstreams[0].name.clone()
        } else {
            String::new()
        };
    }
    Ok(())
}

/// Deletes every provider named `name`.
pub fn delete_provider(config: &mut AppConfig, name: &str)
    ensures
        final(config).proxy.providers@ == without_provider(old(config).proxy.providers@, name@),
        final(config).proxy.upstreams == old(config).proxy.upstreams,
        final(config).proxy.active_upstream == old(config).proxy.active_upstream,
        final(config).model_pricing == old(config).model_pricing,
{
    retain_providers(&mut config.proxy.providers, name);
}

/// Replaces the upstream named `name`: every upstream of that name is removed
/// and `u` is appended.
pub fn update_upstream(config: &mut AppConfig, name: &str, u: UpstreamConfig)
    ensures
        final(config).proxy.upstreams@ == without_upstream(old(config).proxy.upstreams@, name@).push(
            u,
        ),
        final(config).proxy.providers == old(config).proxy.providers,
        final(config).proxy.active_upstream == old(config).proxy.active_upstream,
        final(config).model_pricing == old(config).model_pricing,
{
    retain_upstreams(&mut config.proxy.upstreams, name);
    config.proxy.upstreams.push(u);
}

/// Makes `name` the active upstream.
pub fn activate_upstream(config: &mut AppConfig, name: &str)
    ensures
        final(config).proxy.active_upstream@ == name@,
        final(config).proxy.upstreams == old(config).proxy.upstreams,
        final(config).proxy.active_proxy_upstream == old(config).proxy.active_proxy_upstream,
{
    config.proxy.active_upstream = owned(name);
}

/// Makes `name` the upstream of transparent proxy traffic.
pub fn activate_proxy_upstream(config: &mut AppConfig, name: &str)
    ensures
        final(config).proxy.active_proxy_upstream@ == name@,
        final(config).proxy.upstreams == old(config).proxy.upstreams,
        final(config).proxy.active_upstream == old(config).proxy.active_upstream,
{
    config.proxy.active_proxy_upstream = owned(name);
}

/// The provider a settings body describes: its `name` and `url` (empty when
/// absent), `token` and `proxy`.
pub fn provider_from_body(body: &JsonValue) -> (p: Provider)
    ensures
        p.name@ == crate::session::source::hook::or_empty(json_str(json_get(*body, "name"@))),
        p.url@ == crate::session::source::hook::or_empty(json_str(json_get(*body, "url"@))),
        opt_view(p.token) == json_str(json_get(*body, "token"@)),
        opt_view(p.proxy) == json_str(json_get(*body, "proxy"@)),
        p.protocols@.len() == 0,
        p.codex_url is None,
{
    let name = match as_str(get(body, "name")) {
        Some(s) => s,
        None => String::new(),
    };
    let url = match as_str(get(body, "url")) {
        Some(s) => s,
        None => String::new(),
    };
    Provider {
        name,
        url,
        token: as_str(get(body, "token")),
        proxy: as_str(get(body, "proxy")),
        protocols: Vec::new(),
        codex_url: None,
    }
}

/// `q` is provider `p` after the changes a settings body asks for: a text
/// `url` replaces the URL; a present `token` or `proxy` member replaces the
/// setting with its text, or clears it when that is not text.
pub open spec fn provider_updated(p: Provider, body: JsonValue, q: Provider) -> bool {
    &&& q.name@ == p.name@
    &&& q.url@ == match json_str(json_get(body, "url"@)) {
        Some(u) => u,
        None => p.url@,
    }
    &&& opt_view(q.token) == if json_get(body, "token"@) is Some {
        json_str(json_get(body, "token"@))
    } else {
        opt_view(p.token)
    }
    &&& opt_view(q.proxy) == if json_get(body, "proxy"@) is Some {
        json_str(json_get(body, "proxy"@))
    } else {
        opt_view(p.proxy)
    }
    &&& q.protocols == p.protocols
    &&& q.codex_url == p.codex_url
}

/// Applies a settings body to the first provider named `name`; nothing
/// changes when there is none.
pub fn update_provider(config: &mut AppConfig, name: &str, body: &JsonValue)
    ensures
        final(config).proxy.providers@.len() == old(config).proxy.providers@.len(),
        final(config).proxy.upstreams == old(config).proxy.upstreams,
        match crate::relay::relay::provider_named(old(config).proxy.providers@, name@) {
            None => final(config).proxy.providers@ == old(config).proxy.providers@,
            Some(_) => exists|i: int|
                crate::relay::relay::is_first_provider_named(old(config).proxy.providers@, name@, i)
                    && provider_updated(
                    old(config).proxy.providers@[i],
                    *body,
                    #[trigger] final(config).proxy.providers@[i],
                ) && forall|j: int|
                    0 <= j < old(config).proxy.providers@.len() && j != i ==> final(config).proxy.providers@[j] == old(config).proxy.providers@[j],
        },
{
    let idx = match crate::relay::relay::find_provider(&config.proxy.providers, name) {
        Some(i) => i,
        None => {
            return;
        },
    };
    let p = &config.proxy.providers[idx];
    let url = match as_str(get(body, "url")) {
        Some(u) => u,
        None => p.url.clone(),
    };
    let token = if get(body, "token").is_some() {
        as_str(get(body, "token"))
    } else {
        crate::text::copy_opt(&p.token)
    };
    let proxy = if get(body, "proxy").is_some() {
        as_str(get(body, "proxy"))
    } else {
        crate::text::copy_opt(&p.proxy)
    };
    let mut rest: Vec<Provider> = Vec::new();
    std::mem::swap(&mut rest, &mut config.proxy.providers);
    let ghost olds = rest@;
    let old_p = rest.remove(idx);
    let q = Provider {
        name: old_p.name,
        url,
        token,
        proxy,
        protocols: old_p.protocols,
        codex_url: old_p.codex_url,
    };
    let ghost gq = q;
    rest.insert(idx, q);
    assert(rest@ =~= olds.update(idx as int, gq));
    config.proxy.providers = rest;
    assert(provider_updated(olds[idx as int], *body, config.proxy.providers@[idx as int]));
}

/// Appends the provider a settings body describes.
pub fn add_provider(config: &mut AppConfig, body: &JsonValue)
    ensures
        final(config).proxy.providers@.len() == old(config).proxy.providers@.len() + 1,
        final(config).proxy.providers@.take(old(config).proxy.providers@.len() as int) == old(config).proxy.providers@,
        final(config).proxy.providers@.last().name@ == crate::session::source::hook::or_empty(
            json_str(json_get(*body, "name"@)),
        ),
        final(config).proxy.upstreams == old(config).proxy.upstreams,
{
    let p = provider_from_body(body);
    config.proxy.providers.push(p);
    assert(config.proxy.providers@.take(old(config).proxy.providers@.len() as int) =~= old(config).proxy.providers@);
}

/// The effort levels the dashboard accepts.
pub open spec fn known_effort(e: Seq<char>) -> bool {
    e == "auto"@ || e == "low"@ || e == "medium"@ || e == "high"@ || e == "xhigh"@ || e == "max"@
        || e == "ultracode"@
}

/// The effort a settings body asks for (`auto` when absent), or the text of the
/// `400` reply when it is not a known level.
pub fn effort_choice(body: &JsonValue) -> (r: Result<String, String>)
    ensures
        ({
            let e = crate::session::source::hook::text_or_auto(json_str(json_get(*body, "effort"@)));
            match r {
                Ok(s) => known_effort(e) && s@ == e,
                Err(m) => !known_effort(e) && m@ == "invalid effort: "@ + e,
            }
        }),
{
    let effort = match as_str(get(body, "effort")) {
        Some(s) => s,
        None => owned("auto"),
    };
    let e = effort.as_str();
    if str_eq(e, "auto") || str_eq(e, "low") || str_eq(e, "medium") || str_eq(e, "high") || str_eq(
        e,
        "xhigh",
    ) || str_eq(e, "max") || str_eq(e, "ultracode") {
        Ok(effort)
    } else {
        let mut m = owned("invalid effort: ");
        crate::text::push_str(&mut m, e);
        Err(m)
    }
}

/// Applies the retention fields of a settings body; each present count is
/// truncated to `u32`.
pub fn update_retention(config: &mut AppConfig, body: &JsonValue)
    ensures
        final(config).proxy.request_retention_hours == match json_u64(
            json_get(*body, "request_retention_hours"@),
        ) {
            Some(v) => v as u32,
            None => old(config).proxy.request_retention_hours,
        },
        final(config).proxy.session_max_count == match json_u64(
            json_get(*body, "session_max_count"@),
        ) {
            Some(v) => v as u32,
            None => old(config).proxy.session_max_count,
        },
        final(config).proxy.session_delete_after_days == match json_u64(
            json_get(*body, "session_delete_after_days"@),
        ) {
            Some(v) => v as u32,
            None => old(config).proxy.session_delete_after_days,
        },
        final(config).proxy.upstreams == old(config).proxy.upstreams,
        final(config).proxy.providers == old(config).proxy.providers,
{
    match as_u64(get(body, "request_retention_hours")) {
        Some(v) => {
            #[verifier::truncate]
            let x = v as u32;
            config.proxy.request_retention_hours = x;
        },
        None => {},
    }
    match as_u64(get(body, "session_max_count")) {
        Some(v) => {
            #[verifier::truncate]
            let x = v as u32;
            config.proxy.session_max_count = x;
        },
        None => {},
    }
    match as_u64(get(body, "session_delete_after_days")) {
        Some(v) => {
            #[verifier::truncate]
            let x = v as u32;
            config.proxy.session_delete_after_days = x;
        },
        None => {},
    }
}

/// The global HTTP proxy a settings body sets: its non-empty `http_proxy` text,
/// or none.
pub fn global_proxy_value(body: &JsonValue) -> (r: Option<String>)
    ensures
        ov(r) == crate::relay::upstream::nonempty(json_str(json_get(*body, "http_proxy"@))),
{
    match as_str(get(body, "http_proxy")) {
        Some(s) => if str_is_empty(s.as_str()) {
            None
        } else {
            Some(s)
        },
        None => None,
    }
}


/// The pricing entries whose id is not `id`, in order.
pub open spec fn without_pricing(ps: Seq<ModelPricing>, id: Seq<char>) -> Seq<ModelPricing> {
    ps.filter(|p: ModelPricing| p.id@ != id)
}

fn retain_pricing(ps: &mut Vec<ModelPricing>, id: &str)
    ensures
        final(ps)@ == without_pricing(old(ps)@, id@),
{
    let mut rest: Vec<ModelPricing> = Vec::new();
    std::mem::swap(&mut rest, ps);
    let ghost olds = rest@;
    let mut kept: Vec<ModelPricing> = Vec::new();
    let mut i: usize = 0;
    assert(olds.take(0) =~= Seq::<ModelPricing>::empty());
    let n = rest.len();
    while rest.len() > 0
        invariant
            i <= olds.len(),
            n == olds.len(),
            i + rest@.len() == olds.len(),
            rest@ == olds.skip(i as int),
            kept@ == without_pricing(olds.take(i as int), id@),
        decreases rest@.len(),
    {
        proof {
            reveal_with_fuel(Seq::filter, 1);
            assert(olds.take(i + 1).drop_last() =~= olds.take(i as int));
            assert(olds.skip(i as int)[0] == olds[i as int]);
        }
        let p = rest.remove(0);
        assert(rest@ =~= olds.skip(i + 1));
        if !str_eq(p.id.as_str(), id) {
            kept.push(p);
        }
        i += 1;
    }
    assert(olds.take(i as int) =~= olds);
    *ps = kept;
}

/// Appends a pricing entry.
pub fn add_pricing(config: &mut AppConfig, mp: ModelPricing)
    ensures
        final(config).model_pricing@ == old(config).model_pricing@.push(mp),
        final(config).proxy == old(config).proxy,
{
    config.model_pricing.push(mp);
}

/// Replaces the pricing entry `id`: every entry with that id is removed and
/// `mp` is appended.
pub fn update_pricing(config: &mut AppConfig, id: &str, mp: ModelPricing)
    ensures
        final(config).model_pricing@ == without_pricing(old(config).model_pricing@, id@).push(mp),
        final(config).proxy == old(config).proxy,
{
    retain_pricing(&mut config.model_pricing, id);
    config.model_pricing.push(mp);
}

/// Deletes every pricing entry with id `id`.
pub fn delete_pricing(config: &mut AppConfig, id: &str)
    ensures
        final(config).model_pricing@ == without_pricing(old(config).model_pricing@, id@),
        final(config).proxy == old(config).proxy,
{
    retain_pricing(&mut config.model_pricing, id);
}

/// Appends an upstream.
pub fn add_upstream(config: &mut AppConfig, u: UpstreamConfig)
    ensures
        final(config).proxy.upstreams@ == old(config).proxy.upstreams@.push(u),
        final(config).proxy.providers == old(config).proxy.providers,
        final(config).proxy.active_upstream == old(config).proxy.active_upstream,
        final(config).model_pricing == old(config).model_pricing,
{
    config.proxy.upstreams.push(u);
}

/// Sets the active effort a settings body asks for; an unknown level changes
/// nothing and gives the text of the `400` reply.
pub fn set_effort(config: &mut AppConfig, body: &JsonValue) -> (r: Result<(), String>)
    ensures
        ({
            let e = crate::session::source::hook::text_or_auto(json_str(json_get(*body, "effort"@)));
            match r {
                Ok(()) => known_effort(e) && final(config).proxy.active_effort@ == e,
                Err(m) => !known_effort(e) && m@ == "invalid effort: "@ + e
                    && final(config).proxy.active_effort == old(config).proxy.active_effort,
            }
        }),
        final(config).proxy.upstreams == old(config).proxy.upstreams,
        final(config).proxy.http_proxy == old(config).proxy.http_proxy,
        final(config).model_pricing == old(config).model_pricing,
{
    match effort_choice(body) {
        Ok(e) => {
            config.proxy.active_effort = e;
            Ok(())
        },
        Err(m) => Err(m),
    }
}

/// Sets the global HTTP proxy from a settings body: its non-empty `http_proxy`
/// text, or none.
pub fn set_global_proxy(config: &mut AppConfig, body: &JsonValue)
    ensures
        ov(final(config).proxy.http_proxy) == crate::relay::upstream::nonempty(
            json_str(json_get(*body, "http_proxy"@)),
        ),
        final(config).proxy.upstreams == old(config).proxy.upstreams,
        final(config).proxy.active_effort == old(config).proxy.active_effort,
        final(config).model_pricing == old(config).model_pricing,
{
    config.proxy.http_proxy = global_proxy_value(body);
}

/// What a cleanup run deletes.
#[derive(Debug, Clone, Copy, PartialEq, Eq, Structural)]
pub enum CleanupPlan {
    /// Every retention policy is off: nothing is deleted and the request is refused.
    Disabled,
    /// Delete tasks older than `task_hours` (none when 0), then sessions older
    /// than `session_days` or beyond the newest `max_sessions`.
    Run { task_hours: u64, session_days: u64, max_sessions: u64 },
}

/// The cleanup that the retention settings call for.
pub fn cleanup_plan(config: &AppConfig) -> (r: CleanupPlan)
    ensures
        ({
            let p = config.proxy;
            if p.request_retention_hours == 0 && p.session_delete_after_days == 0 && p.session_max_count == 0 {
                r == CleanupPlan::Disabled
            } else {
                r == CleanupPlan::Run {
                    task_hours: p.request_retention_hours as u64,
                    session_days: p.session_delete_after_days as u64,
                    max_sessions: p.session_max_count as u64,
                }
            }
        }),
{
    let p = &config.proxy;
    if p.request_retention_hours == 0 && p.session_delete_after_days == 0 && p.session_max_count == 0 {
        CleanupPlan::Disabled
    } else {
        CleanupPlan::Run {
            task_hours: p.request_retention_hours as u64,
            session_days: p.session_delete_after_days as u64,
            max_sessions: p.session_max_count as u64,
        }
    }
}

/// An upstream as the dashboard lists it.
#[derive(Debug)]
pub struct UpstreamInfo {
    pub name: String,
    pub active: bool,
    pub proxy_active: bool,
    pub high: Option<TierRule>,
    pub mid: Option<TierRule>,
    pub low: Option<TierRule>,
    pub default: Option<TierRule>,
    pub effort: Option<String>,
}

fn copy_rule(r: &Option<TierRule>) -> (c: Option<TierRule>)
    ensures
        c == *r,
{
    match r {
        Some(t) => Some(t.duplicate()),
        None => None,
    }
}

/// `info` lists upstream `u` of `proxy`.
pub open spec fn lists_upstream(info: UpstreamInfo, u: UpstreamConfig, active: Seq<char>, proxy_active: Seq<char>) -> bool {
    &&& info.name@ == u.name@
    &&& info.active == (u.name@ == active)
    &&& info.proxy_active == (u.name@ == proxy_active)
    &&& info.high == u.high
    &&& info.mid == u.mid
    &&& info.low == u.low
    &&& info.default == u.default
    &&& opt_view(info.effort) == opt_view(u.effort)
}

/// The upstreams as the dashboard lists them, in order, each marked active and
/// proxy-active by name.
pub fn upstream_infos(config: &AppConfig) -> (r: Vec<UpstreamInfo>)
    ensures
        r@.len() == config.proxy.upstreams@.len(),
        forall|i: int|
            0 <= i < r@.len() ==> lists_upstream(
                #[trigger] r@[i],
                config.proxy.upstreams@[i],
                config.proxy.active_upstream@,
                config.proxy.active_proxy_upstream@,
            ),
{
    let ups = &config.proxy.upstreams;
    let mut out: Vec<UpstreamInfo> = Vec::new();
    let mut i: usize = 0;
    while i < ups.len()
        invariant
            i <= ups@.len(),
            out@.len() == i,
            ups == &config.proxy.upstreams,
            forall|k: int|
                0 <= k < i ==> lists_upstream(
                    #[trigger] out@[k],
                    ups@[k],
                    config.proxy.active_upstream@,
                    config.proxy.active_proxy_upstream@,
                ),
        decreases ups@.len() - i,
    {
        let u = &ups[i];
        let info = UpstreamInfo {
            name: u.name.clone(),
            active: str_eq(u.name.as_str(), config.proxy.active_upstream.as_str()),
            proxy_active: str_eq(u.name.as_str(), config.proxy.active_proxy_upstream.as_str()),
            high: copy_rule(&u.high),
            mid: copy_rule(&u.mid),
            low: copy_rule(&u.low),
            default: copy_rule(&u.default),
            effort: crate::text::copy_opt(&u.effort),
        };
        let ghost prev = out@;
        out.push(info);
        proof {
            assert forall|k: int| 0 <= k < i + 1 implies lists_upstream(
                #[trigger] out@[k],
                ups@[k],
                config.proxy.active_upstream@,
                config.proxy.active_proxy_upstream@,
            ) by {
                if k < i {
                    assert(out@[k] == prev[k]);
                }
            }
        }
        i += 1;
    }
    out
}

} // verus!
