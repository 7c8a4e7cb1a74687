//! Named upstreams with tiered routing rules.

use vstd::prelude::*;

use crate::text::{contains_vec, chars_of, opt_view, seq_contains, str_eq};

verus! {

/// A tier routing rule: which provider and model serve a tier.
#[derive(Debug)]
pub struct TierRule {
    pub provider: String,
    pub model: String,
}

/// A named upstream configuration with tiered routing.
#[derive(Debug)]
pub struct UpstreamConfig {
    pub name: String,
    pub high: Option<TierRule>,
    pub mid: Option<TierRule>,
    pub low: Option<TierRule>,
    pub default: Option<TierRule>,
    pub effort: Option<String>,
}

/// A rule is active when it names a provider or a model.
pub open spec fn rule_active(r: TierRule) -> bool {
    r.provider@.len() != 0 || r.model@.len() != 0
}

/// The provider a rule resolves to, inheriting the default rule's provider when empty.
pub open spec fn rule_provider(r: TierRule, default: Option<TierRule>) -> Seq<char> {
    if r.provider@.len() != 0 {
        r.provider@
    } else {
        match default {
            Some(d) => d.provider@,
            None => Seq::empty(),
        }
    }
}

impl TierRule {
    pub fn is_active(&self) -> (b: bool)
        ensures
            b == rule_active(*self),
    {
        !self.provider.as_str().is_empty() || !self.model.as_str().is_empty()
    }

    /// Whether the rule is active and the lower-cased model name mentions the tier label.
    pub fn matches(&self, model_lower: &str, tier_label: &str) -> (b: bool)
        ensures
            b == (rule_active(*self) && seq_contains(model_lower@, tier_label@)),
    {
        if !self.is_active() {
            return false;
        }
        let m = chars_of(model_lower);
        let l = chars_of(tier_label);
        contains_vec(&m, &l)
    }

    /// Resolve the effective provider, inheriting from `default` when empty.
    pub fn provider_or(&self, default: Option<&TierRule>) -> (r: String)
        ensures
            r@ == rule_provider(*self, match default {
                Some(d) => Some(*d),
                None => None,
            }),
    {
        if !self.provider.as_str().is_empty() {
            self.provider.clone()
        } else {
            match default {
                Some(d) => {
                    if !d.provider.as_str().is_empty() {
                        d.provider.clone()
                    } else {
                        String::new()
                    }
                },
                None => String::new(),
            }
        }
    }

    /// A copy of the rule.
    pub fn duplicate(&self) -> (r: TierRule)
        ensures
            r == *self,
    {
        TierRule { provider: self.provider.clone(), model: self.model.clone() }
    }
}


/// How a tier rule is written to the configuration file.
#[derive(Debug)]
pub enum TierEntry {
    /// Not written: the tier is unset, or repeats the default rule.
    Omitted,
    /// Written with its model, and with its provider unless that is the default's.
    Written { provider: Option<String>, model: String },
}

/// The written form of an entry: none, or its provider (when written) and model.
pub open spec fn entry_view(e: TierEntry) -> Option<(Option<Seq<char>>, Seq<char>)> {
    match e {
        TierEntry::Omitted => None,
        TierEntry::Written { provider, model } => Some((opt_view(provider), model@)),
    }
}

/// The file entry of a tier rule beside the upstream's default rule; the
/// default rule itself is written with no default beside it, so always in full.
pub open spec fn spec_tier_entry(rule: Option<TierRule>, default: Option<TierRule>) -> Option<(Option<Seq<char>>, Seq<char>)> {
    match rule {
        None => None,
        Some(r) => match default {
            Some(d) => if r.provider@ == d.provider@ && r.model@ == d.model@ {
                None
            } else if r.provider@ == d.provider@ {
                Some((None, r.model@))
            } else {
                Some((Some(r.provider@), r.model@))
            },
            None => Some((Some(r.provider@), r.model@)),
        },
    }
}

/// The file entry of a tier rule beside the upstream's default rule.
pub fn tier_entry(rule: &Option<TierRule>, default: &Option<TierRule>) -> (e: TierEntry)
    ensures
        entry_view(e) == spec_tier_entry(*rule, *default),
{
    match rule {
        None => TierEntry::Omitted,
        Some(r) => match default {
            Some(d) => {
                let same_provider = str_eq(r.provider.as_str(), d.provider.as_str());
                if same_provider && str_eq(r.model.as_str(), d.model.as_str()) {
                    TierEntry::Omitted
                } else if same_provider {
                    TierEntry::Written { provider: None, model: r.model.clone() }
                } else {
                    TierEntry::Written { provider: Some(r.provider.clone()), model: r.model.clone() }
                }
            },
            None => TierEntry::Written { provider: Some(r.provider.clone()), model: r.model.clone() },
        },
    }
}


/// The provider a written entry reads back as, beside the default rule: its
/// written provider when not empty, else the default's.
pub open spec fn provider_read_back(written: Option<Seq<char>>, default: TierRule) -> Seq<char> {
    match written {
        Some(p) => if p.len() != 0 {
            p
        } else {
            default.provider@
        },
        None => default.provider@,
    }
}

/// Writing a tier rule loses nothing that routing reads: an omitted rule is the
/// default rule, and a written one reads back with the same model and resolves
/// to the same provider.
pub proof fn tier_entry_reads_back(r: TierRule, d: TierRule)
    ensures
        match spec_tier_entry(Some(r), Some(d)) {
            None => r.provider@ == d.provider@ && r.model@ == d.model@,
            Some((p, m)) => m == r.model@ && provider_read_back(p, d) == rule_provider(r, Some(d)),
        },
{
}

} // verus!
