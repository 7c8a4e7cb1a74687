//! Configuration validation: every problem as a human-readable message.

use vstd::prelude::*;

use super::error::ConfigError;
use super::model::{
    has_upstream, is_default_config, upstream_exists, AppConfig, AUTO_PROXY_UPSTREAM,
    FORBID_PROXY_UPSTREAM,
};
use super::pricing::{provider_index, ModelPricing, ProviderModels};
use super::provider::Provider;
use super::routing::{find_pricing_index, pricing_index};
use super::upstream::{TierRule, UpstreamConfig};
use crate::text::{
    decimal, digit_char, push_str, push_string, push_u64, seq_starts_with, str_eq,
    str_starts_with, views,
};

verus! {

/// A proxy URL must use the http, https or socks5 scheme.
pub open spec fn spec_valid_proxy_url(url: Seq<char>) -> bool {
    seq_starts_with(url, "http://"@) || seq_starts_with(url, "https://"@) || seq_starts_with(
        url,
        "socks5://"@,
    )
}

/// Check that a proxy URL starts with a valid scheme.
pub fn is_valid_proxy_url(url: &str) -> (b: bool)
    ensures
        b == spec_valid_proxy_url(url@),
{
    str_starts_with(url, "http://") || str_starts_with(url, "https://") || str_starts_with(
        url,
        "socks5://",
    )
}

/// Two positions of the list hold equal text.
pub open spec fn spec_has_duplicates(v: Seq<Seq<char>>) -> bool {
    exists|i: int, j: int| 0 <= i < j < v.len() && #[trigger] v[i] == #[trigger] v[j]
}

/// Whether two entries of the list are equal.
pub fn has_duplicates(items: &Vec<String>) -> (b: bool)
    ensures
        b == spec_has_duplicates(views(items@)),
{
    let mut i: usize = 0;
    while i < items.len()
        invariant
            i <= items.len(),
            forall|a: int, c: int| 0 <= a < i && a < c < items.len() ==> items@[a]@ != items@[c]@,
        decreases items.len() - i,
    {
        let mut j: usize = i + 1;
        while j < items.len()
            invariant
                i < items.len(),
                i + 1 <= j <= items.len(),
                forall|a: int, c: int|
                    0 <= a < i && a < c < items.len() ==> items@[a]@ != items@[c]@,
                forall|c: int| i < c < j ==> items@[i as int]@ != items@[c]@,
            decreases items.len() - j,
        {
            if str_eq(items[i].as_str(), items[j].as_str()) {
                assert(views(items@)[i as int] == views(items@)[j as int]);
                return true;
            }
            j += 1;
        }
        i += 1;
    }
    assert forall|a: int, c: int|
        0 <= a < c < views(items@).len() implies #[trigger] views(items@)[a] != #[trigger] views(
        items@,
    )[c] by {
        assert(items@[a]@ != items@[c]@);
    }
    false
}

// ── messages ──

pub open spec fn msg_active(name: Seq<char>) -> Seq<char> {
    "active_upstream '"@ + name + "' not found in upstreams"@
}

pub open spec fn msg_active_proxy(name: Seq<char>) -> Seq<char> {
    "active_proxy_upstream '"@ + name + "' not found in upstreams"@
}

pub open spec fn msg_tier_provider(u: Seq<char>, tier: Seq<char>, p: Seq<char>) -> Seq<char> {
    "upstream '"@ + u + "' "@ + tier + ": provider '"@ + p + "' not found"@
}

pub open spec fn msg_tier_mapping(u: Seq<char>, tier: Seq<char>, m: Seq<char>, p: Seq<char>) -> Seq<
    char,
> {
    "upstream '"@ + u + "' "@ + tier + ": logical model '"@ + m + "' has no mapping for provider '"@
        + p + "'"@
}

pub open spec fn msg_price_len(id: Seq<char>, len: nat) -> Seq<char> {
    "model_pricing '"@ + id + "': price must have 0, 2, or 4 elements, got "@ + decimal(len)
}

/// The six fractional digits of a micro-amount, with trailing zeros removed.
pub open spec fn frac_digits(f: nat) -> Seq<char> {
    trim_zeros(
        seq![
            digit_char((f / 100000) % 10),
            digit_char((f / 10000) % 10),
            digit_char((f / 1000) % 10),
            digit_char((f / 100) % 10),
            digit_char((f / 10) % 10),
            digit_char(f % 10),
        ],
    )
}

pub open spec fn trim_zeros(s: Seq<char>) -> Seq<char>
    decreases s.len(),
{
    if s.len() > 0 && s.last() == '0' {
        trim_zeros(s.drop_last())
    } else {
        s
    }
}

/// A micro-USD amount written in dollars, the way a float prints it.
pub open spec fn dollars(m: int) -> Seq<char> {
    let a = if m < 0 { -m } else { m };
    let whole = decimal((a / 1_000_000) as nat);
    let frac = (a % 1_000_000) as nat;
    let sign = if m < 0 { "-"@ } else { Seq::<char>::empty() };
    if frac == 0 {
        sign + whole
    } else {
        sign + whole + "."@ + frac_digits(frac)
    }
}

pub open spec fn msg_price_negative(id: Seq<char>, i: nat, p: int) -> Seq<char> {
    "model_pricing '"@ + id + "': price["@ + decimal(i) + "] must be >= 0, got "@ + dollars(p)
}

pub open spec fn msg_effort(e: Seq<char>) -> Seq<char> {
    "invalid active_effort '"@ + e + "': must be one of: auto, low, medium, high, xhigh, max, ultracode"@
}

pub open spec fn msg_global_proxy(url: Seq<char>) -> Seq<char> {
    "invalid global http_proxy '"@ + url + "': must be http://, https://, or socks5:// URL"@
}

pub open spec fn msg_provider_proxy(name: Seq<char>, proxy: Seq<char>) -> Seq<char> {
    "provider '"@ + name + "': invalid proxy '"@ + proxy
        + "': must be http://, https://, or socks5:// URL"@
}

// ── the rules ──

/// Whether some provider is named `name`.
pub open spec fn has_provider(ps: Seq<Provider>, name: Seq<char>) -> bool {
    exists|i: int| 0 <= i < ps.len() && #[trigger] ps[i].name@ == name
}

/// Problems with one tier rule of an upstream.
pub open spec fn rule_errors(c: AppConfig, u: Seq<char>, tier: Seq<char>, rule: Option<TierRule>) -> Seq<
    Seq<char>,
> {
    match rule {
        None => seq![],
        Some(r) => if r.provider@.len() == 0 {
            seq![]
        } else if !has_provider(c.proxy.providers@, r.provider@) {
            seq![msg_tier_provider(u, tier, r.provider@)]
        } else if r.model@.len() == 0 {
            seq![]
        } else {
            match pricing_index(c.model_pricing@, r.model@) {
                Some(i) => if provider_index(c.model_pricing@[i].providers@, r.provider@).is_none() {
                    seq![msg_tier_mapping(u, tier, r.model@, r.provider@)]
                } else {
                    seq![]
                },
                None => seq![],
            }
        },
    }
}

/// Problems with the tier rules of one upstream, in high, mid, low, default order.
pub open spec fn one_upstream_errors(c: AppConfig, u: UpstreamConfig) -> Seq<Seq<char>> {
    rule_errors(c, u.name@, "high"@, u.high) + rule_errors(c, u.name@, "mid"@, u.mid)
        + rule_errors(c, u.name@, "low"@, u.low) + rule_errors(c, u.name@, "default"@, u.default)
}

/// Problems with the tier rules of a list of upstreams.
pub open spec fn upstream_errors(c: AppConfig, ups: Seq<UpstreamConfig>) -> Seq<Seq<char>>
    decreases ups.len(),
{
    if ups.len() == 0 {
        seq![]
    } else {
        upstream_errors(c, ups.drop_last()) + one_upstream_errors(c, ups.last())
    }
}

/// Negative-price problems of the first `n` prices.
pub open spec fn negative_price_errors(id: Seq<char>, p: Seq<i64>, n: int) -> Seq<Seq<char>>
    decreases n,
{
    if n <= 0 {
        seq![]
    } else if p[n - 1] < 0 {
        negative_price_errors(id, p, n - 1).push(msg_price_negative(id, (n - 1) as nat, p[n - 1] as int))
    } else {
        negative_price_errors(id, p, n - 1)
    }
}

/// Problems with one pricing entry.
pub open spec fn one_pricing_errors(mp: ModelPricing) -> Seq<Seq<char>> {
    let len = mp.price@.len();
    let len_err = if len != 0 && len != 2 && len != 4 {
        seq![msg_price_len(mp.id@, len)]
    } else {
        seq![]
    };
    len_err + negative_price_errors(mp.id@, mp.price@, len as int)
}

/// Problems with a list of pricing entries.
pub open spec fn pricing_errors(mps: Seq<ModelPricing>) -> Seq<Seq<char>>
    decreases mps.len(),
{
    if mps.len() == 0 {
        seq![]
    } else {
        pricing_errors(mps.drop_last()) + one_pricing_errors(mps.last())
    }
}

pub open spec fn provider_names(ps: Seq<Provider>) -> Seq<Seq<char>> {
    ps.map_values(|p: Provider| p.name@)
}

pub open spec fn upstream_names(us: Seq<UpstreamConfig>) -> Seq<Seq<char>> {
    us.map_values(|u: UpstreamConfig| u.name@)
}

pub open spec fn pricing_ids(ms: Seq<ModelPricing>) -> Seq<Seq<char>> {
    ms.map_values(|m: ModelPricing| m.id@)
}

pub open spec fn if_err(cond: bool, msg: Seq<char>) -> Seq<Seq<char>> {
    if cond {
        seq![msg]
    } else {
        seq![]
    }
}

/// The accepted effort levels besides `auto`.
pub open spec fn valid_effort(e: Seq<char>) -> bool {
    e == "low"@ || e == "medium"@ || e == "high"@ || e == "xhigh"@ || e == "max"@ || e
        == "ultracode"@
}

/// Problems with the per-provider proxies of a list of providers.
pub open spec fn provider_proxy_errors(ps: Seq<Provider>) -> Seq<Seq<char>>
    decreases ps.len(),
{
    if ps.len() == 0 {
        seq![]
    } else {
        let p = ps.last();
        provider_proxy_errors(ps.drop_last()) + match p.proxy {
            Some(x) => if_err(
                x@.len() != 0 && !spec_valid_proxy_url(x@),
                msg_provider_proxy(p.name@, x@),
            ),
            None => seq![],
        }
    }
}

/// Every problem with a configuration, in the order they are reported.
pub open spec fn spec_validate(c: AppConfig) -> Seq<Seq<char>> {
    let p = c.proxy;
    if_err(
        p.active_upstream@.len() != 0 && !has_upstream(p.upstreams@, p.active_upstream@),
        msg_active(p.active_upstream@),
    ) + if_err(
        p.active_proxy_upstream@.len() != 0 && p.active_proxy_upstream@ != AUTO_PROXY_UPSTREAM@
            && p.active_proxy_upstream@ != FORBID_PROXY_UPSTREAM@ && !has_upstream(
            p.upstreams@,
            p.active_proxy_upstream@,
        ),
        msg_active_proxy(p.active_proxy_upstream@),
    ) + upstream_errors(c, p.upstreams@) + pricing_errors(c.model_pricing@) + if_err(
        spec_has_duplicates(provider_names(p.providers@)),
        "duplicate provider names found"@,
    ) + if_err(
        spec_has_duplicates(upstream_names(p.upstreams@)),
        "duplicate upstream names found"@,
    ) + if_err(
        spec_has_duplicates(pricing_ids(c.model_pricing@)),
        "duplicate model_pricing ids found"@,
    ) + if_err(
        p.active_effort@.len() != 0 && p.active_effort@ != "auto"@ && !valid_effort(
            p.active_effort@,
        ),
        msg_effort(p.active_effort@),
    ) + match p.http_proxy {
        Some(u) => if_err(u@.len() != 0 && !spec_valid_proxy_url(u@), msg_global_proxy(u@)),
        None => seq![],
    } + provider_proxy_errors(p.providers@)
}


// ── building the messages ──

proof fn lemma_views_push(v: Seq<String>, s: String)
    ensures
        views(v.push(s)) == views(v).push(s@),
{
    assert(views(v.push(s)) =~= views(v).push(s@));
}

/// Appends one message to the list.
fn push_msg(errors: &mut Vec<String>, m: String)
    ensures
        views(final(errors)@) == views(old(errors)@).push(m@),
{
    proof {
        lemma_views_push(errors@, m);
    }
    errors.push(m);
}

fn pieces(parts: &Vec<&str>) -> (r: String)
    ensures
        r@ == joined(parts@),
{
    let mut out = String::new();
    let mut i: usize = 0;
    while i < parts.len()
        invariant
            i <= parts.len(),
            out@ == joined(parts@.take(i as int)),
        decreases parts.len() - i,
    {
        push_str(&mut out, parts[i]);
        assert(parts@.take(i + 1).drop_last() =~= parts@.take(i as int));
        i += 1;
    }
    assert(parts@.take(parts.len() as int) =~= parts@);
    out
}

/// Concatenation of text pieces.
pub open spec fn joined(parts: Seq<&str>) -> Seq<char>
    decreases parts.len(),
{
    if parts.len() == 0 {
        Seq::empty()
    } else {
        joined(parts.drop_last()) + parts.last()@
    }
}

fn push_dollars(out: &mut String, m: i64)
    ensures
        final(out)@ == old(out)@ + dollars(m as int),
{
    let a: u64 = if m < 0 {
        if m == i64::MIN {
            9223372036854775808u64
        } else {
            (-m) as u64
        }
    } else {
        m as u64
    };
    assert(a as int == if m < 0 { -(m as int) } else { m as int });
    let ghost start = out@;
    if m < 0 {
        push_str(out, "-");
    }
    let whole = a / 1_000_000;
    let frac = a % 1_000_000;
    push_u64(out, whole);
    if frac != 0 {
        push_str(out, ".");
        let mut d: Vec<char> = Vec::new();
        d.push(digit((frac / 100000) % 10));
        d.push(digit((frac / 10000) % 10));
        d.push(digit((frac / 1000) % 10));
        d.push(digit((frac / 100) % 10));
        d.push(digit((frac / 10) % 10));
        d.push(digit(frac % 10));
        let ghost full = d@;
        assert(full =~= seq![
            digit_char(((frac / 100000) % 10) as nat),
            digit_char(((frac / 10000) % 10) as nat),
            digit_char(((frac / 1000) % 10) as nat),
            digit_char(((frac / 100) % 10) as nat),
            digit_char(((frac / 10) % 10) as nat),
            digit_char((frac % 10) as nat),
        ]);
        let mut n: usize = 6;
        assert(full.take(6) =~= full);
        while n > 0 && d[n - 1] == '0'
            invariant
                d@ == full,
                d@.len() == 6,
                n <= 6,
                trim_zeros(full) == trim_zeros(full.take(n as int)),
            decreases n,
        {
            assert(full.take(n as int).drop_last() =~= full.take(n - 1));
            n -= 1;
        }
        assert(trim_zeros(full.take(n as int)) == full.take(n as int));
        let mut k: usize = 0;
        while k < n
            invariant
                n <= 6,
                d@ == full,
                d@.len() == 6,
                k <= n,
                out@ == old(out)@ + (if m < 0 { "-"@ } else { Seq::<char>::empty() }) + decimal(
                    whole as nat,
                ) + "."@ + full.take(k as int),
            decreases n - k,
        {
            crate::text::push_char(out, d[k]);
            assert(full.take(k + 1) =~= full.take(k as int).push(full[k as int]));
            k += 1;
        }
        assert(frac_digits(frac as nat) == full.take(n as int));
    }
    proof {
        let sign = if m < 0 { "-"@ } else { Seq::<char>::empty() };
        if frac == 0 {
            assert(out@ =~= old(out)@ + (sign + decimal(whole as nat)));
        } else {
            assert(out@ =~= old(out)@ + (sign + decimal(whole as nat) + "."@ + frac_digits(
                frac as nat,
            )));
        }
    }
}

fn digit(d: u64) -> (c: char)
    requires
        d < 10,
    ensures
        c == digit_char(d as nat),
{
    if d == 0 { '0' } else if d == 1 { '1' } else if d == 2 { '2' } else if d == 3 { '3' }
    else if d == 4 { '4' } else if d == 5 { '5' } else if d == 6 { '6' } else if d == 7 { '7' }
    else if d == 8 { '8' } else { '9' }
}

fn has_provider_named(ps: &Vec<Provider>, name: &str) -> (b: bool)
    ensures
        b == has_provider(ps@, name@),
{
    let mut i: usize = 0;
    while i < ps.len()
        invariant
            i <= ps.len(),
            forall|j: int| 0 <= j < i ==> #[trigger] ps@[j].name@ != name@,
        decreases ps.len() - i,
    {
        if str_eq(ps[i].name.as_str(), name) {
            return true;
        }
        i += 1;
    }
    false
}

fn push_rule_errors(
    c: &AppConfig,
    errors: &mut Vec<String>,
    u: &str,
    tier: &str,
    rule: &Option<TierRule>,
)
    ensures
        views(final(errors)@) == views(old(errors)@) + rule_errors(*c, u@, tier@, *rule),
{
    let ghost before = views(errors@);
    match rule {
        None => {
            assert(views(errors@) =~= before + seq![]);
        },
        Some(r) => {
            if r.provider.as_str().is_empty() {
                assert(views(errors@) =~= before + seq![]);
            } else if !has_provider_named(&c.proxy.providers, r.provider.as_str()) {
                let parts = vec!["upstream '", u, "' ", tier, ": provider '", r.provider.as_str(), "' not found"];
                let m = pieces(&parts);
                assert(m@ =~= msg_tier_provider(u@, tier@, r.provider@)) by {
                    reveal_with_fuel(joined, 8);
                }
                push_msg(errors, m);
                assert(views(errors@) =~= before + seq![msg_tier_provider(u@, tier@, r.provider@)]);
            } else if r.model.as_str().is_empty() {
                assert(views(errors@) =~= before + seq![]);
            } else {
                match find_pricing_index(&c.model_pricing, r.model.as_str()) {
                    Some(i) => {
                        let has = c.model_pricing[i].model_name_for_provider(r.provider.as_str());
                        if has.is_none() {
                            let parts = vec![
                                "upstream '",
                                u,
                                "' ",
                                tier,
                                ": logical model '",
                                r.model.as_str(),
                                "' has no mapping for provider '",
                                r.provider.as_str(),
                                "'",
                            ];
                            let m = pieces(&parts);
                            assert(m@ =~= msg_tier_mapping(u@, tier@, r.model@, r.provider@)) by {
                                reveal_with_fuel(joined, 10);
                            }
                            push_msg(errors, m);
                            assert(views(errors@) =~= before + seq![
                                msg_tier_mapping(u@, tier@, r.model@, r.provider@),
                            ]);
                        } else {
                            assert(views(errors@) =~= before + seq![]);
                        }
                    },
                    None => {
                        assert(views(errors@) =~= before + seq![]);
                    },
                }
            }
        },
    }
}

fn push_upstream_errors(c: &AppConfig, errors: &mut Vec<String>, u: &UpstreamConfig)
    ensures
        views(final(errors)@) == views(old(errors)@) + one_upstream_errors(*c, *u),
{
    let n = u.name.as_str();
    let ghost e0 = views(errors@);
    push_rule_errors(c, errors, n, "high", &u.high);
    push_rule_errors(c, errors, n, "mid", &u.mid);
    push_rule_errors(c, errors, n, "low", &u.low);
    push_rule_errors(c, errors, n, "default", &u.default);
    assert(views(errors@) =~= e0 + one_upstream_errors(*c, *u));
}

fn push_pricing_errors(errors: &mut Vec<String>, mp: &ModelPricing)
    ensures
        views(final(errors)@) == views(old(errors)@) + one_pricing_errors(*mp),
{
    let ghost before = views(errors@);
    let len = mp.price.len();
    if len != 0 && len != 2 && len != 4 {
        let mut m = pieces(&vec!["model_pricing '", mp.id.as_str(), "': price must have 0, 2, or 4 elements, got "]);
        assert(m@ =~= "model_pricing '"@ + mp.id@ + "': price must have 0, 2, or 4 elements, got "@) by {
            reveal_with_fuel(joined, 4);
        }
        push_u64(&mut m, len as u64);
        push_msg(errors, m);
    }
    let ghost mid = views(errors@);
    assert(mid == before + (if len != 0 && len != 2 && len != 4 {
        seq![msg_price_len(mp.id@, len as nat)]
    } else {
        seq![]
    })) by {
        if !(len != 0 && len != 2 && len != 4) {
            assert(mid =~= before + seq![]);
        }
    }
    let mut j: usize = 0;
    while j < len
        invariant
            len == mp.price@.len(),
            j <= len,
            views(errors@) == mid + negative_price_errors(mp.id@, mp.price@, j as int),
        decreases len - j,
    {
        let p = mp.price[j];
        if p < 0 {
            let mut m = pieces(&vec!["model_pricing '", mp.id.as_str(), "': price["]);
            assert(m@ =~= "model_pricing '"@ + mp.id@ + "': price["@) by {
                reveal_with_fuel(joined, 4);
            }
            push_u64(&mut m, j as u64);
            push_str(&mut m, "] must be >= 0, got ");
            push_dollars(&mut m, p);
            assert(m@ =~= msg_price_negative(mp.id@, j as nat, p as int));
            push_msg(errors, m);
        }
        j += 1;
    }
}

fn names_of_providers(ps: &Vec<Provider>) -> (r: Vec<String>)
    ensures
        views(r@) == provider_names(ps@),
{
    let mut out: Vec<String> = Vec::new();
    let mut i: usize = 0;
    while i < ps.len()
        invariant
            i <= ps.len(),
            views(out@) == provider_names(ps@.take(i as int)),
        decreases ps.len() - i,
    {
        proof {
            lemma_views_push(out@, ps@[i as int].name);
        }
        out.push(ps[i].name.clone());
        assert(provider_names(ps@.take(i + 1)) =~= provider_names(ps@.take(i as int)).push(
            ps@[i as int].name@,
        ));
        i += 1;
    }
    assert(ps@.take(ps.len() as int) =~= ps@);
    out
}

fn names_of_upstreams(us: &Vec<UpstreamConfig>) -> (r: Vec<String>)
    ensures
        views(r@) == upstream_names(us@),
{
    let mut out: Vec<String> = Vec::new();
    let mut i: usize = 0;
    while i < us.len()
        invariant
            i <= us.len(),
            views(out@) == upstream_names(us@.take(i as int)),
        decreases us.len() - i,
    {
        proof {
            lemma_views_push(out@, us@[i as int].name);
        }
        out.push(us[i].name.clone());
        assert(upstream_names(us@.take(i + 1)) =~= upstream_names(us@.take(i as int)).push(
            us@[i as int].name@,
        ));
        i += 1;
    }
    assert(us@.take(us.len() as int) =~= us@);
    out
}

fn ids_of_pricing(ms: &Vec<ModelPricing>) -> (r: Vec<String>)
    ensures
        views(r@) == pricing_ids(ms@),
{
    let mut out: Vec<String> = Vec::new();
    let mut i: usize = 0;
    while i < ms.len()
        invariant
            i <= ms.len(),
            views(out@) == pricing_ids(ms@.take(i as int)),
        decreases ms.len() - i,
    {
        proof {
            lemma_views_push(out@, ms@[i as int].id);
        }
        out.push(ms[i].id.clone());
        assert(pricing_ids(ms@.take(i + 1)) =~= pricing_ids(ms@.take(i as int)).push(
            ms@[i as int].id@,
        ));
        i += 1;
    }
    assert(ms@.take(ms.len() as int) =~= ms@);
    out
}

fn is_valid_effort(e: &str) -> (b: bool)
    ensures
        b == valid_effort(e@),
{
    str_eq(e, "low") || str_eq(e, "medium") || str_eq(e, "high") || str_eq(e, "xhigh") || str_eq(
        e,
        "max",
    ) || str_eq(e, "ultracode")
}

fn push_if(errors: &mut Vec<String>, cond: bool, m: String)
    ensures
        views(final(errors)@) == views(old(errors)@) + if_err(cond, m@),
{
    if cond {
        push_msg(errors, m);
    } else {
        assert(views(errors@) =~= views(errors@) + seq![]);
    }
}

impl AppConfig {
    /// Validate the configuration, returning every problem as a message.
    pub fn validate(&self) -> (r: Vec<String>)
        ensures
            views(r@) == spec_validate(*self),
    {
        let p = &self.proxy;
        let mut errors: Vec<String> = Vec::new();
        let a = p.active_upstream.as_str();
        let c1 = !a.is_empty() && !upstream_exists(&p.upstreams, a);
        push_if(&mut errors, c1, pieces(&vec!["active_upstream '", a, "' not found in upstreams"]));
        proof {
            reveal_with_fuel(joined, 4);
        }
        let ap = p.active_proxy_upstream.as_str();
        let c2 = !ap.is_empty() && !str_eq(ap, AUTO_PROXY_UPSTREAM) && !str_eq(
            ap,
            FORBID_PROXY_UPSTREAM,
        ) && !upstream_exists(
            &p.upstreams,
            ap,
        );
        push_if(&mut errors, c2, pieces(&vec!["active_proxy_upstream '", ap, "' not found in upstreams"]));
        let ghost base = views(errors@);
        assert(base == views(Seq::<String>::empty()) + if_err(c1, msg_active(a@)) + if_err(c2, msg_active_proxy(ap@)));
        let mut i: usize = 0;
        while i < p.upstreams.len()
            invariant
                p == &self.proxy,
                i <= p.upstreams.len(),
                views(errors@) == base + upstream_errors(*self, p.upstreams@.take(i as int)),
            decreases p.upstreams.len() - i,
        {
            let u = &p.upstreams[i];
            push_upstream_errors(self, &mut errors, u);
            proof {
                let t = p.upstreams@.take(i + 1);
                assert(t.drop_last() =~= p.upstreams@.take(i as int));
                assert(t.last() == p.upstreams@[i as int]);
                assert(upstream_errors(*self, t) == upstream_errors(*self, t.drop_last())
                    + one_upstream_errors(*self, t.last()));
            }
            i += 1;
        }
        assert(p.upstreams@.take(p.upstreams.len() as int) =~= p.upstreams@);
        let ghost after_up = views(errors@);
        let mut k: usize = 0;
        while k < self.model_pricing.len()
            invariant
                k <= self.model_pricing.len(),
                views(errors@) == after_up + pricing_errors(self.model_pricing@.take(k as int)),
            decreases self.model_pricing.len() - k,
        {
            push_pricing_errors(&mut errors, &self.model_pricing[k]);
            assert(self.model_pricing@.take(k + 1).drop_last() =~= self.model_pricing@.take(
                k as int,
            ));
            k += 1;
        }
        assert(self.model_pricing@.take(self.model_pricing.len() as int) =~= self.model_pricing@);
        let pn = names_of_providers(&p.providers);
        push_if(&mut errors, has_duplicates(&pn), owned_msg("duplicate provider names found"));
        let un = names_of_upstreams(&p.upstreams);
        push_if(&mut errors, has_duplicates(&un), owned_msg("duplicate upstream names found"));
        let mn = ids_of_pricing(&self.model_pricing);
        push_if(&mut errors, has_duplicates(&mn), owned_msg("duplicate model_pricing ids found"));
        let e = p.active_effort.as_str();
        let c3 = !e.is_empty() && !str_eq(e, "auto") && !is_valid_effort(e);
        push_if(
            &mut errors,
            c3,
            pieces(
                &vec![
                    "invalid active_effort '",
                    e,
                    "': must be one of: auto, low, medium, high, xhigh, max, ultracode",
                ],
            ),
        );
        match &p.http_proxy {
            Some(url) => {
                let u = url.as_str();
                let c4 = !u.is_empty() && !is_valid_proxy_url(u);
                push_if(
                    &mut errors,
                    c4,
                    pieces(
                        &vec![
                            "invalid global http_proxy '",
                            u,
                            "': must be http://, https://, or socks5:// URL",
                        ],
                    ),
                );
            },
            None => {
                assert(views(errors@) =~= views(errors@) + seq![]);
            },
        }
        let ghost before_pp = views(errors@);
        let mut q: usize = 0;
        while q < p.providers.len()
            invariant
                p == &self.proxy,
                q <= p.providers.len(),
                views(errors@) == before_pp + provider_proxy_errors(p.providers@.take(q as int)),
            decreases p.providers.len() - q,
        {
            let pr = &p.providers[q];
            let ghost t = p.providers@.take(q + 1);
            assert(t.drop_last() =~= p.providers@.take(q as int));
            assert(t.last() == p.providers@[q as int]);
            let ghost before_one = views(errors@);
            match &pr.proxy {
                Some(x) => {
                    let xs = x.as_str();
                    let c5 = !xs.is_empty() && !is_valid_proxy_url(xs);
                    let m = pieces(
                        &vec![
                            "provider '",
                            pr.name.as_str(),
                            "': invalid proxy '",
                            xs,
                            "': must be http://, https://, or socks5:// URL",
                        ],
                    );
                    assert(m@ =~= msg_provider_proxy(pr.name@, x@)) by {
                        reveal_with_fuel(joined, 6);
                    }
                    push_if(&mut errors, c5, m);
                },
                None => {
                    assert(views(errors@) =~= views(errors@) + seq![]);
                },
            }
            assert(views(errors@) == before_one + match pr.proxy {
                Some(x) => if_err(
                    x@.len() != 0 && !spec_valid_proxy_url(x@),
                    msg_provider_proxy(pr.name@, x@),
                ),
                None => seq![],
            });
            assert(provider_proxy_errors(t) == provider_proxy_errors(t.drop_last()) + match pr.proxy {
                Some(x) => if_err(
                    x@.len() != 0 && !spec_valid_proxy_url(x@),
                    msg_provider_proxy(pr.name@, x@),
                ),
                None => seq![],
            });
            q += 1;
        }
        assert(p.providers@.take(p.providers.len() as int) =~= p.providers@);
        assert(views(errors@) =~= spec_validate(*self));
        errors
    }
}

fn owned_msg(s: &str) -> (r: String)
    ensures
        r@ == s@,
{
    crate::text::owned(s)
}


/// Join messages with a separator.
pub open spec fn join_seq(list: Seq<Seq<char>>, sep: Seq<char>) -> Seq<char>
    decreases list.len(),
{
    if list.len() == 0 {
        Seq::empty()
    } else if list.len() == 1 {
        list[0]
    } else {
        join_seq(list.drop_last(), sep) + sep + list.last()
    }
}

/// Join strings with a separator (`[String]::join`).
pub fn join_strings(list: &Vec<String>, sep: &str) -> (r: String)
    ensures
        r@ == join_seq(views(list@), sep@),
{
    let mut out = String::new();
    let mut i: usize = 0;
    while i < list.len()
        invariant
            i <= list.len(),
            out@ == join_seq(views(list@.take(i as int)), sep@),
        decreases list.len() - i,
    {
        proof {
            let t = list@.take(i + 1);
            assert(t.drop_last() =~= list@.take(i as int));
            assert(views(t).drop_last() =~= views(t.drop_last()));
        }
        if i != 0 {
            push_str(&mut out, sep);
        } else {
            assert(views(list@.take(1)) =~= seq![list@[0]@]);
        }
        push_string(&mut out, &list[i]);
        i += 1;
    }
    assert(list@.take(list.len() as int) =~= list@);
    out
}

/// Validate a configuration: `Ok` when it has no problem, otherwise a
/// validation error whose message joins every problem with `"; "`.
pub fn validate_config(config: &AppConfig) -> (r: Result<(), ConfigError>)
    ensures
        match r {
            Ok(()) => spec_validate(*config).len() == 0,
            Err(ConfigError::Validation(m)) => spec_validate(*config).len() != 0 && m@ == join_seq(
                spec_validate(*config),
                "; "@,
            ),
            Err(_) => false,
        },
{
    let errors = config.validate();
    if errors.len() == 0 {
        Ok(())
    } else {
        Err(ConfigError::Validation(join_strings(&errors, "; ")))
    }
}

/// The default configuration has no problem.
pub proof fn default_config_is_valid(c: AppConfig)
    requires
        is_default_config(c),
    ensures
        spec_validate(c) == Seq::<Seq<char>>::empty(),
{
    assert(!has_upstream(c.proxy.upstreams@, c.proxy.active_proxy_upstream@));
    assert(upstream_errors(c, c.proxy.upstreams@) == Seq::<Seq<char>>::empty());
    assert(pricing_errors(c.model_pricing@) == Seq::<Seq<char>>::empty());
    assert(provider_proxy_errors(c.proxy.providers@) == Seq::<Seq<char>>::empty());
    assert(!spec_has_duplicates(provider_names(c.proxy.providers@)));
    assert(!spec_has_duplicates(upstream_names(c.proxy.upstreams@)));
    assert(!spec_has_duplicates(pricing_ids(c.model_pricing@)));
    assert(spec_validate(c) =~= Seq::<Seq<char>>::empty());
}

proof fn lemma_in_upstream_errors(c: AppConfig, ups: Seq<UpstreamConfig>, k: int, e: Seq<char>)
    requires
        0 <= k < ups.len(),
        one_upstream_errors(c, ups[k]).contains(e),
    ensures
        upstream_errors(c, ups).contains(e),
    decreases ups.len(),
{
    let prev = upstream_errors(c, ups.drop_last());
    let last = one_upstream_errors(c, ups.last());
    if k < ups.len() - 1 {
        assert(ups.drop_last()[k] == ups[k]);
        lemma_in_upstream_errors(c, ups.drop_last(), k, e);
        let i = choose|i: int| 0 <= i < prev.len() && prev[i] == e;
        assert((prev + last)[i] == e);
    } else {
        let i = choose|i: int| 0 <= i < last.len() && last[i] == e;
        assert((prev + last)[prev.len() + i] == e);
    }
}

proof fn lemma_rule_reported(c: AppConfig, u: UpstreamConfig, tier: Seq<char>, rule: Option<TierRule>)
    requires
        rule is Some,
        rule.unwrap().provider@.len() > 0,
        !has_provider(c.proxy.providers@, rule.unwrap().provider@),
        tier == "high"@ || tier == "mid"@ || tier == "low"@ || tier == "default"@,
        tier == "high"@ ==> rule == u.high,
        tier == "mid"@ ==> rule == u.mid,
        tier == "low"@ ==> rule == u.low,
        tier == "default"@ ==> rule == u.default,
    ensures
        one_upstream_errors(c, u).contains(msg_tier_provider(u.name@, tier, rule.unwrap().provider@)),
{
    reveal_strlit("high");
    reveal_strlit("mid");
    reveal_strlit("low");
    reveal_strlit("default");
    let m = msg_tier_provider(u.name@, tier, rule.unwrap().provider@);
    let a = rule_errors(c, u.name@, "high"@, u.high);
    let b = rule_errors(c, u.name@, "mid"@, u.mid);
    let d = rule_errors(c, u.name@, "low"@, u.low);
    let e = rule_errors(c, u.name@, "default"@, u.default);
    let all = a + b + d + e;
    assert(rule_errors(c, u.name@, tier, rule) == seq![m]);
    if tier == "high"@ {
        assert(all[0] == m);
    } else if tier == "mid"@ {
        assert(all[a.len() as int] == m);
    } else if tier == "low"@ {
        assert(all[(a.len() + b.len()) as int] == m);
    } else {
        assert(all[(a.len() + b.len() + d.len()) as int] == m);
    }
}

#[verifier::spinoff_prover]
#[verifier::rlimit(50)]
proof fn lemma_validate_reports(c: AppConfig, e: Seq<char>)
    requires
        upstream_errors(c, c.proxy.upstreams@).contains(e),
    ensures
        spec_validate(c).contains(e),
{
    let p = c.proxy;
    let pre = if_err(
        p.active_upstream@.len() != 0 && !has_upstream(p.upstreams@, p.active_upstream@),
        msg_active(p.active_upstream@),
    ) + if_err(
        p.active_proxy_upstream@.len() != 0 && p.active_proxy_upstream@ != AUTO_PROXY_UPSTREAM@
            && p.active_proxy_upstream@ != FORBID_PROXY_UPSTREAM@ && !has_upstream(
            p.upstreams@,
            p.active_proxy_upstream@,
        ),
        msg_active_proxy(p.active_proxy_upstream@),
    );
    let ue = upstream_errors(c, p.upstreams@);
    let i = choose|i: int| 0 <= i < ue.len() && ue[i] == e;
    let v = spec_validate(c);
    assert(v[pre.len() + i] == e);
}

/// Every tier rule (high, mid, low or default) of every upstream that names a
/// provider that is not configured is reported as
/// `upstream '<name>' <tier>: provider '<provider>' not found`, so the
/// configuration does not validate.
pub proof fn unknown_tier_provider_is_reported(c: AppConfig, k: int)
    requires
        0 <= k < c.proxy.upstreams@.len(),
    ensures
        ({
            let u = c.proxy.upstreams@[k];
            let ps = c.proxy.providers@;
            &&& (u.high is Some && u.high.unwrap().provider@.len() > 0 && !has_provider(
                ps,
                u.high.unwrap().provider@,
            )) ==> spec_validate(c).contains(msg_tier_provider(u.name@, "high"@, u.high.unwrap().provider@))
            &&& (u.mid is Some && u.mid.unwrap().provider@.len() > 0 && !has_provider(
                ps,
                u.mid.unwrap().provider@,
            )) ==> spec_validate(c).contains(msg_tier_provider(u.name@, "mid"@, u.mid.unwrap().provider@))
            &&& (u.low is Some && u.low.unwrap().provider@.len() > 0 && !has_provider(
                ps,
                u.low.unwrap().provider@,
            )) ==> spec_validate(c).contains(msg_tier_provider(u.name@, "low"@, u.low.unwrap().provider@))
            &&& (u.default is Some && u.default.unwrap().provider@.len() > 0 && !has_provider(
                ps,
                u.default.unwrap().provider@,
            )) ==> spec_validate(c).contains(
                msg_tier_provider(u.name@, "default"@, u.default.unwrap().provider@),
            )
        }),
{
    reveal_strlit("high");
    reveal_strlit("mid");
    reveal_strlit("low");
    reveal_strlit("default");
    let u = c.proxy.upstreams@[k];
    let ps = c.proxy.providers@;
    let ups = c.proxy.upstreams@;
    assert("high"@.len() == 4 && "mid"@.len() == 3 && "low"@.len() == 3 && "default"@.len() == 7);
    assert("mid"@[0] == 'm' && "low"@[0] == 'l');
    if u.high is Some && u.high.unwrap().provider@.len() > 0 && !has_provider(ps, u.high.unwrap().provider@) {
        lemma_rule_reported(c, u, "high"@, u.high);
        let m = msg_tier_provider(u.name@, "high"@, u.high.unwrap().provider@);
        lemma_in_upstream_errors(c, ups, k, m);
        lemma_validate_reports(c, m);
    }
    if u.mid is Some && u.mid.unwrap().provider@.len() > 0 && !has_provider(ps, u.mid.unwrap().provider@) {
        lemma_rule_reported(c, u, "mid"@, u.mid);
        let m = msg_tier_provider(u.name@, "mid"@, u.mid.unwrap().provider@);
        lemma_in_upstream_errors(c, ups, k, m);
        lemma_validate_reports(c, m);
    }
    if u.low is Some && u.low.unwrap().provider@.len() > 0 && !has_provider(ps, u.low.unwrap().provider@) {
        lemma_rule_reported(c, u, "low"@, u.low);
        let m = msg_tier_provider(u.name@, "low"@, u.low.unwrap().provider@);
        lemma_in_upstream_errors(c, ups, k, m);
        lemma_validate_reports(c, m);
    }
    if u.default is Some && u.default.unwrap().provider@.len() > 0 && !has_provider(
        ps,
        u.default.unwrap().provider@,
    ) {
        lemma_rule_reported(c, u, "default"@, u.default);
        let m = msg_tier_provider(u.name@, "default"@, u.default.unwrap().provider@);
        lemma_in_upstream_errors(c, ups, k, m);
        lemma_validate_reports(c, m);
    }
}

} // verus!
