//! Route resolution: upstream tier matching and model name translation.

use vstd::prelude::*;

use super::error::ConfigError;
use super::model::AppConfig;
use super::pricing::{
    spec_matches_name, spec_model_name_for_provider, spec_price_rates, BillingSnapshot,
    ModelPricing, PriceRates, ResolvedRoute,
};
use super::upstream::{rule_active, rule_provider, TierRule, UpstreamConfig};
use crate::text::{cat3, concat3, opt_view, owned, seq_contains, str_eq};

verus! {

/// The lower-case mapping of a string (`str::to_lowercase`).
pub uninterp spec fn lowercase(s: Seq<char>) -> Seq<char>;

/// The ASCII lower-case of a character: `A`..`Z` become `a`..`z`.
pub open spec fn ascii_lower(c: char) -> char {
    if 'A' <= c && c <= 'Z' {
        ((c as u32) + 32) as char
    } else {
        c
    }
}

/// Every character is ASCII.
pub open spec fn all_ascii(s: Seq<char>) -> bool {
    forall|i: int| 0 <= i < s.len() ==> (#[trigger] s[i] as u32) < 128
}

/// Lower-cases a string.
///
/// Trusted: calls `str::to_lowercase`, the Unicode lower-case mapping; its result
/// depends on the text alone, so the contract names it `lowercase`. Of ASCII
/// text, whose Unicode lower-case is the ASCII one, it states the mapping;
/// of other text it claims nothing more.
#[verifier::external_body]
pub(crate) fn to_lowercase(s: &str) -> (r: String)
    ensures
        r@ == lowercase(s@),
        all_ascii(s@) ==> r@ == s@.map_values(|c: char| ascii_lower(c)),
{
    s.to_lowercase()
}

/// The provider and configured model a tier rule gives when it matches.
pub open spec fn tier_pick(rule: Option<TierRule>, label: Seq<char>, lower: Seq<char>) -> bool {
    match rule {
        Some(r) => rule_active(r) && seq_contains(lower, label),
        None => false,
    }
}

/// Tier resolution: the first matching rule of high ("opus"), mid ("sonnet") and
/// low ("haiku"), else the default rule, else no route.
pub open spec fn spec_resolve_tier(u: UpstreamConfig, lower: Seq<char>) -> (Seq<char>, Seq<char>) {
    if tier_pick(u.high, "opus"@, lower) {
        (rule_provider(u.high.unwrap(), u.default), u.high.unwrap().model@)
    } else if tier_pick(u.mid, "sonnet"@, lower) {
        (rule_provider(u.mid.unwrap(), u.default), u.mid.unwrap().model@)
    } else if tier_pick(u.low, "haiku"@, lower) {
        (rule_provider(u.low.unwrap(), u.default), u.low.unwrap().model@)
    } else {
        match u.default {
            Some(d) => (d.provider@, d.model@),
            None => (Seq::empty(), Seq::empty()),
        }
    }
}

/// Which tier a request model goes to: a lower-cased name containing "opus"
/// takes the active high rule; one containing "sonnet" (and not "opus") the
/// active mid rule; one containing "haiku" (and neither "opus" nor "sonnet")
/// the active low rule; a name that matches no active rule takes the default
/// rule. A rule without a provider takes the default rule's provider.
pub proof fn tiers_route_by_family(u: UpstreamConfig, lower: Seq<char>)
    ensures
        (u.high matches Some(h) && rule_active(h) && seq_contains(lower, "opus"@)) ==> spec_resolve_tier(
            u,
            lower,
        ) == (rule_provider(u.high.unwrap(), u.default), u.high.unwrap().model@),
        (u.mid matches Some(m) && rule_active(m) && seq_contains(lower, "sonnet"@) && !seq_contains(
            lower,
            "opus"@,
        )) ==> spec_resolve_tier(u, lower) == (rule_provider(u.mid.unwrap(), u.default), u.mid.unwrap().model@),
        (u.low matches Some(l) && rule_active(l) && seq_contains(lower, "haiku"@) && !seq_contains(
            lower,
            "opus"@,
        ) && !seq_contains(lower, "sonnet"@)) ==> spec_resolve_tier(u, lower) == (
            rule_provider(u.low.unwrap(), u.default),
            u.low.unwrap().model@,
        ),
        (!seq_contains(lower, "opus"@) && !seq_contains(lower, "sonnet"@) && !seq_contains(
            lower,
            "haiku"@,
        )) ==> spec_resolve_tier(u, lower) == match u.default {
            Some(d) => (d.provider@, d.model@),
            None => (Seq::<char>::empty(), Seq::<char>::empty()),
        },
{
}

fn try_tier(rule: &Option<TierRule>, label: &str, lower: &str, def: &Option<TierRule>) -> (r:
    Option<(String, String)>)
    ensures
        match r {
            Some(p) => tier_pick(*rule, label@, lower@) && p.0@ == rule_provider(
                rule.unwrap(),
                *def,
            ) && p.1@ == rule.unwrap().model@,
            None => !tier_pick(*rule, label@, lower@),
        },
{
    match rule {
        Some(r) => {
            if r.matches(lower, label) {
                let d = match def {
                    Some(d) => Some(d),
                    None => None,
                };
                Some((r.provider_or(d), r.model.clone()))
            } else {
                None
            }
        },
        None => None,
    }
}

/// Match the tier rules for a request model.
pub fn resolve_tier(upstream: &UpstreamConfig, request_model: &str) -> (r: (String, String))
    ensures
        (r.0@, r.1@) == spec_resolve_tier(*upstream, lowercase(request_model@)),
{
    let lower = to_lowercase(request_model);
    let def = &upstream.default;
    if let Some(p) = try_tier(&upstream.high, "opus", lower.as_str(), def) {
        return p;
    }
    if let Some(p) = try_tier(&upstream.mid, "sonnet", lower.as_str(), def) {
        return p;
    }
    if let Some(p) = try_tier(&upstream.low, "haiku", lower.as_str(), def) {
        return p;
    }
    match def {
        Some(d) => (d.provider.clone(), d.model.clone()),
        None => (String::new(), String::new()),
    }
}

/// `i` is the first pricing entry whose logical id is `id`.
pub open spec fn is_first_pricing(mps: Seq<ModelPricing>, id: Seq<char>, i: int) -> bool {
    &&& 0 <= i < mps.len()
    &&& mps[i].id@ == id
    &&& forall|j: int| 0 <= j < i ==> mps[j].id@ != id
}

pub open spec fn pricing_index(mps: Seq<ModelPricing>, id: Seq<char>) -> Option<int> {
    if exists|i: int| is_first_pricing(mps, id, i) {
        Some(choose|i: int| is_first_pricing(mps, id, i))
    } else {
        None
    }
}

/// The provider-specific name for a logical model id; other names pass through.
pub open spec fn spec_translate(mps: Seq<ModelPricing>, provider: Seq<char>, model: Seq<char>) -> Seq<
    char,
> {
    if model.len() == 0 {
        model
    } else {
        match pricing_index(mps, model) {
            Some(i) => match spec_model_name_for_provider(mps[i], provider) {
                Some(name) => name,
                None => model,
            },
            None => model,
        }
    }
}

pub fn find_pricing_index(mps: &Vec<ModelPricing>, id: &str) -> (r: Option<usize>)
    ensures
        match r {
            Some(i) => pricing_index(mps@, id@) == Some(i as int),
            None => pricing_index(mps@, id@).is_none(),
        },
{
    let mut i: usize = 0;
    while i < mps.len()
        invariant
            i <= mps.len(),
            forall|j: int| 0 <= j < i ==> mps@[j].id@ != id@,
        decreases mps.len() - i,
    {
        if str_eq(mps[i].id.as_str(), id) {
            proof {
                assert(is_first_pricing(mps@, id@, i as int));
                let c = choose|c: int| is_first_pricing(mps@, id@, c);
                assert(is_first_pricing(mps@, id@, c));
                if c < i {
                    assert(mps@[c].id@ != id@);
                } else if c > i {
                    assert(mps@[i as int].id@ == id@);
                }
            }
            return Some(i);
        }
        i += 1;
    }
    assert(!exists|c: int| is_first_pricing(mps@, id@, c));
    None
}

/// Translate a logical model id to a provider-specific model name.
pub fn translate_model(model_pricing: &Vec<ModelPricing>, provider: &str, model: &str) -> (r:
    String)
    ensures
        r@ == spec_translate(model_pricing@, provider@, model@),
{
    if model.is_empty() {
        return owned(model);
    }
    if let Some(i) = find_pricing_index(model_pricing, model) {
        if let Some(name) = model_pricing[i].model_name_for_provider(provider) {
            return name;
        }
    }
    owned(model)
}

/// `i` is the first upstream named `n`.
pub open spec fn is_first_upstream(ups: Seq<UpstreamConfig>, n: Seq<char>, i: int) -> bool {
    &&& 0 <= i < ups.len()
    &&& ups[i].name@ == n
    &&& forall|j: int| 0 <= j < i ==> ups[j].name@ != n
}

pub open spec fn upstream_index(ups: Seq<UpstreamConfig>, n: Seq<char>) -> Option<int> {
    if exists|i: int| is_first_upstream(ups, n, i) {
        Some(choose|i: int| is_first_upstream(ups, n, i))
    } else {
        None
    }
}

/// Index of the first upstream named `name`.
pub fn find_upstream(ups: &Vec<UpstreamConfig>, name: &str) -> (r: Option<usize>)
    ensures
        match r {
            Some(i) => upstream_index(ups@, name@) == Some(i as int),
            None => upstream_index(ups@, name@).is_none(),
        },
{
    let mut i: usize = 0;
    while i < ups.len()
        invariant
            i <= ups.len(),
            forall|j: int| 0 <= j < i ==> ups@[j].name@ != name@,
        decreases ups.len() - i,
    {
        if str_eq(ups[i].name.as_str(), name) {
            proof {
                assert(is_first_upstream(ups@, name@, i as int));
                let c = choose|c: int| is_first_upstream(ups@, name@, c);
                assert(is_first_upstream(ups@, name@, c));
                if c < i {
                    assert(ups@[c].name@ != name@);
                } else if c > i {
                    assert(ups@[i as int].name@ == name@);
                }
            }
            return Some(i);
        }
        i += 1;
    }
    assert(!exists|c: int| is_first_upstream(ups@, name@, c));
    None
}

/// The effort sent upstream: the global active effort unless it is empty or
/// `auto`, in which case the upstream's own effort.
pub open spec fn spec_effort(active: Seq<char>, upstream_effort: Option<Seq<char>>) -> Option<
    Seq<char>,
> {
    if active.len() != 0 && active != "auto"@ {
        Some(active)
    } else {
        upstream_effort
    }
}

pub open spec fn upstream_not_found_msg(name: Seq<char>) -> Seq<char> {
    cat3("upstream '"@, name, "' not found"@)
}

pub open spec fn no_route_msg(model: Seq<char>, upstream: Seq<char>) -> Seq<char> {
    cat3("no route for model '"@, model, "' in upstream '"@) + upstream + "'"@
}

pub open spec fn no_pricing_msg(model: Seq<char>, provider: Seq<char>) -> Seq<char> {
    cat3("no pricing found for model '"@, model, "' (provider: '"@) + provider + "')"@
}

/// What `resolve_route_for` returns for a configuration, upstream name and model.
pub open spec fn route_result(
    config: AppConfig,
    name: Seq<char>,
    model: Seq<char>,
    r: Result<ResolvedRoute, ConfigError>,
) -> bool {
    match upstream_index(config.proxy.upstreams@, name) {
        None => r matches Err(ConfigError::NotFound(m)) && m@ == upstream_not_found_msg(name),
        Some(i) => {
            let u = config.proxy.upstreams@[i];
            let picked = spec_resolve_tier(u, lowercase(model));
            if picked.0.len() == 0 {
                r matches Err(ConfigError::NotFound(m)) && m@ == no_route_msg(model, u.name@)
            } else {
                r matches Ok(route) && route.upstream@ == u.name@ && route.provider@ == picked.0
                    && route.configured_model@ == picked.1 && route.resolved_model@
                    == spec_translate(config.model_pricing@, picked.0, picked.1) && opt_view(
                    route.effort,
                ) == spec_effort(config.proxy.active_effort@, opt_view(u.effort))
            }
        },
    }
}

fn copy_opt_string(o: &Option<String>) -> (r: Option<String>)
    ensures
        opt_view(r) == opt_view(*o),
{
    match o {
        Some(s) => Some(s.clone()),
        None => None,
    }
}

/// Resolve a route using an explicitly selected upstream.
pub fn resolve_route_for(config: &AppConfig, upstream_name: &str, request_model: &str) -> (r:
    Result<ResolvedRoute, ConfigError>)
    ensures
        route_result(*config, upstream_name@, request_model@, r),
{
    let idx = match find_upstream(&config.proxy.upstreams, upstream_name) {
        Some(i) => i,
        None => {
            return Err(
                ConfigError::NotFound(concat3("upstream '", upstream_name, "' not found")),
            );
        },
    };
    let upstream = &config.proxy.upstreams[idx];
    let (provider_name, configured_model) = resolve_tier(upstream, request_model);
    if provider_name.as_str().is_empty() {
        let mut m = concat3("no route for model '", request_model, "' in upstream '");
        crate::text::push_str(&mut m, upstream.name.as_str());
        crate::text::push_str(&mut m, "'");
        return Err(ConfigError::NotFound(m));
    }
    let resolved_model = translate_model(
        &config.model_pricing,
        provider_name.as_str(),
        configured_model.as_str(),
    );
    let active = config.proxy.active_effort.as_str();
    let effort = if !active.is_empty() && !str_eq(active, "auto") {
        Some(config.proxy.active_effort.clone())
    } else {
        copy_opt_string(&upstream.effort)
    };
    Ok(
        ResolvedRoute {
            upstream: upstream.name.clone(),
            provider: provider_name,
            configured_model,
            resolved_model,
            effort,
        },
    )
}

/// Resolve the route for a request model through the active upstream.
pub fn resolve_route(config: &AppConfig, request_model: &str) -> (r: Result<
    ResolvedRoute,
    ConfigError,
>)
    ensures
        route_result(*config, config.proxy.active_upstream@, request_model@, r),
{
    resolve_route_for(config, config.proxy.active_upstream.as_str(), request_model)
}

/// `i` is the first pricing entry matching `name`.
pub open spec fn is_first_match(mps: Seq<ModelPricing>, name: Seq<char>, i: int) -> bool {
    &&& 0 <= i < mps.len()
    &&& spec_matches_name(mps[i], name)
    &&& forall|j: int| 0 <= j < i ==> !spec_matches_name(mps[j], name)
}

pub open spec fn match_index(mps: Seq<ModelPricing>, name: Seq<char>) -> Option<int> {
    if exists|i: int| is_first_match(mps, name, i) {
        Some(choose|i: int| is_first_match(mps, name, i))
    } else {
        None
    }
}

/// What `resolve_billing` returns for a configuration, provider and model.
pub open spec fn billing_result(
    config: AppConfig,
    provider: Seq<char>,
    model: Seq<char>,
    r: Result<BillingSnapshot, ConfigError>,
) -> bool {
    match match_index(config.model_pricing@, model) {
        None => r matches Err(ConfigError::NotFound(m)) && m@ == no_pricing_msg(model, provider),
        Some(i) => r matches Ok(b) && b.pricing_model_id@ == config.model_pricing@[i].id@
            && b.provider@ == provider && b.resolved_model@ == spec_translate(
            config.model_pricing@,
            provider,
            model,
        ) && b.rates == spec_price_rates(config.model_pricing@[i].price@) && b.currency@
            == "USD"@,
    }
}

/// Resolve the billing snapshot for a provider and model.
pub fn resolve_billing(config: &AppConfig, provider: &str, model: &str) -> (r: Result<
    BillingSnapshot,
    ConfigError,
>)
    ensures
        billing_result(*config, provider@, model@, r),
{
    let mps = &config.model_pricing;
    let mut i: usize = 0;
    while i < mps.len()
        invariant
            mps == &config.model_pricing,
            i <= mps.len(),
            forall|j: int| 0 <= j < i ==> !spec_matches_name(mps@[j], model@),
        decreases mps.len() - i,
    {
        if mps[i].matches_name(model) {
            proof {
                assert(is_first_match(mps@, model@, i as int));
                let c = choose|c: int| is_first_match(mps@, model@, c);
                assert(is_first_match(mps@, model@, c));
                if c < i {
                    assert(!spec_matches_name(mps@[c], model@));
                } else if c > i {
                    assert(spec_matches_name(mps@[i as int], model@));
                }
            }
            let rates = mps[i].to_price_rates();
            return Ok(
                BillingSnapshot {
                    pricing_model_id: mps[i].id.clone(),
                    provider: owned(provider),
                    resolved_model: translate_model(mps, provider, model),
                    rates,
                    currency: owned("USD"),
                },
            );
        }
        i += 1;
    }
    assert(!exists|c: int| is_first_match(mps@, model@, c));
    let mut m = concat3("no pricing found for model '", model, "' (provider: '");
    crate::text::push_str(&mut m, provider);
    crate::text::push_str(&mut m, "')");
    Err(ConfigError::NotFound(m))
}

} // verus!
