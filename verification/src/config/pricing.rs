//! Global model pricing and the per-provider model name mapping.
//!
//! Prices are held in micro-USD per million tokens: the integer that stands for
//! a dollar amount is `round(dollars * 1_000_000)`.

use vstd::prelude::*;

use crate::text::str_eq;

verus! {

/// The model names one provider uses for a logical model.
#[derive(Debug)]
pub struct ProviderModels {
    pub provider: String,
    pub names: Vec<String>,
}

/// Global pricing definition for a logical model family.
#[derive(Debug)]
pub struct ModelPricing {
    pub id: String,
    /// `[input, output, cache_write, cache_read]` in micro-USD per million tokens;
    /// 0, 2 or 4 entries.
    pub price: Vec<i64>,
    /// Provider name to model names; provider names are distinct.
    pub providers: Vec<ProviderModels>,
}

/// Integer price rates in micro-USD per million tokens.
#[derive(Debug, Clone, Copy, PartialEq, Eq, Structural)]
pub struct PriceRates {
    pub input_microusd: i64,
    pub output_microusd: i64,
    pub cache_write_microusd: i64,
    pub cache_read_microusd: i64,
}

/// Billing snapshot frozen at task creation time.
#[derive(Debug)]
pub struct BillingSnapshot {
    pub pricing_model_id: String,
    pub provider: String,
    pub resolved_model: String,
    pub rates: PriceRates,
    pub currency: String,
}

/// Result of route resolution.
#[derive(Debug)]
pub struct ResolvedRoute {
    pub upstream: String,
    pub provider: String,
    /// The logical model or provider model from the tier rule.
    pub configured_model: String,
    /// The actual model name sent to the provider.
    pub resolved_model: String,
    pub effort: Option<String>,
}

/// `i` is the first entry for provider `p`.
pub open spec fn is_first_provider(ps: Seq<ProviderModels>, p: Seq<char>, i: int) -> bool {
    &&& 0 <= i < ps.len()
    &&& ps[i].provider@ == p
    &&& forall|j: int| 0 <= j < i ==> ps[j].provider@ != p
}

/// Index of the entry for provider `p`, if any.
pub open spec fn provider_index(ps: Seq<ProviderModels>, p: Seq<char>) -> Option<int> {
    if exists|i: int| is_first_provider(ps, p, i) {
        Some(choose|i: int| is_first_provider(ps, p, i))
    } else {
        None
    }
}

/// The first model name a provider uses for `mp`, the logical id when that name is
/// empty or missing, or `None` when the provider has no mapping.
pub open spec fn spec_model_name_for_provider(mp: ModelPricing, provider: Seq<char>) -> Option<
    Seq<char>,
> {
    match provider_index(mp.providers@, provider) {
        Some(i) => {
            let names = mp.providers@[i].names@;
            if names.len() == 0 || names[0]@.len() == 0 {
                Some(mp.id@)
            } else {
                Some(names[0]@)
            }
        },
        None => None,
    }
}

/// Whether `name` is the logical id or one of the non-empty provider model names.
pub open spec fn spec_matches_name(mp: ModelPricing, name: Seq<char>) -> bool {
    mp.id@ == name || exists|i: int, j: int|
        0 <= i < mp.providers@.len() && 0 <= j < mp.providers@[i].names@.len()
            && #[trigger] mp.providers@[i].names@[j]@ == name && name.len() != 0
}

/// `n / d` rounded to the nearest integer, halves away from zero (`f64::round`).
pub open spec fn round_div(n: int, d: int) -> int {
    if n >= 0 {
        (2 * n + d) / (2 * d)
    } else {
        -((-2 * n + d) / (2 * d))
    }
}

/// Saturation to the `i64` range (the behaviour of a float-to-int `as` cast).
pub open spec fn clamp_i64(v: int) -> int {
    if v > i64::MAX {
        i64::MAX as int
    } else if v < i64::MIN {
        i64::MIN as int
    } else {
        v
    }
}

pub open spec fn price_at(p: Seq<i64>, i: int) -> int {
    if i < p.len() {
        p[i] as int
    } else {
        0
    }
}

/// Price rates of a price list: input and output default to 0, cache writes to
/// 1.25 times the input price, cache reads to 0.1 times the input price.
pub open spec fn spec_price_rates(p: Seq<i64>) -> PriceRates {
    let input = price_at(p, 0);
    PriceRates {
        input_microusd: input as i64,
        output_microusd: price_at(p, 1) as i64,
        cache_write_microusd: if p.len() > 2 {
            p[2]
        } else {
            clamp_i64(round_div(input * 5, 4)) as i64
        },
        cache_read_microusd: if p.len() > 3 {
            p[3]
        } else {
            clamp_i64(round_div(input, 10)) as i64
        },
    }
}

fn round_div_i128(n: i128, d: i128) -> (r: i128)
    requires
        0 < d < 100,
        -0x1000_0000_0000_0000_0000 < n < 0x1000_0000_0000_0000_0000,
    ensures
        r == round_div(n as int, d as int),
{
    if n >= 0 {
        (n + n + d) / (d + d)
    } else {
        let m: i128 = 0 - n;
        let q: i128 = (m + m + d) / (d + d);
        0 - q
    }
}

fn clamp(v: i128) -> (r: i64)
    ensures
        r == clamp_i64(v as int),
{
    if v > i64::MAX as i128 {
        i64::MAX
    } else if v < i64::MIN as i128 {
        i64::MIN
    } else {
        v as i64
    }
}

impl ModelPricing {
    /// Returns the first model name for this provider, or `None` if not supported.
    pub fn model_name_for_provider(&self, provider: &str) -> (r: Option<String>)
        ensures
            crate::text::opt_view(r) == spec_model_name_for_provider(*self, provider@),
    {
        let mut i: usize = 0;
        while i < self.providers.len()
            invariant
                i <= self.providers.len(),
                forall|j: int| 0 <= j < i ==> self.providers@[j].provider@ != provider@,
            decreases self.providers.len() - i,
        {
            if str_eq(self.providers[i].provider.as_str(), provider) {
                proof {
                    assert(is_first_provider(self.providers@, provider@, i as int));
                    let c = choose|c: int| is_first_provider(self.providers@, provider@, c);
                    assert(is_first_provider(self.providers@, provider@, c));
                    if c < i {
                        assert(self.providers@[c].provider@ != provider@);
                    } else if c > i {
                        assert(self.providers@[i as int].provider@ == provider@);
                    }
                    assert(provider_index(self.providers@, provider@) == Some(i as int));
                }
                let names = &self.providers[i].names;
                if names.len() == 0 || names[0].as_str().is_empty() {
                    return Some(self.id.clone());
                } else {
                    return Some(names[0].clone());
                }
            }
            i += 1;
        }
        assert(!exists|c: int| is_first_provider(self.providers@, provider@, c));
        None
    }

    /// True when `name` is the logical id or any non-empty provider model name.
    pub fn matches_name(&self, name: &str) -> (b: bool)
        ensures
            b == spec_matches_name(*self, name@),
    {
        if str_eq(self.id.as_str(), name) {
            return true;
        }
        let mut i: usize = 0;
        while i < self.providers.len()
            invariant
                i <= self.providers.len(),
                self.id@ != name@,
                forall|a: int, b: int|
                    0 <= a < i && 0 <= b < self.providers@[a].names@.len() ==> !(
                    #[trigger] self.providers@[a].names@[b]@ == name@ && name@.len() != 0),
            decreases self.providers.len() - i,
        {
            let names = &self.providers[i].names;
            let mut j: usize = 0;
            while j < names.len()
                invariant
                    i < self.providers.len(),
                    names == self.providers@[i as int].names,
                    j <= names.len(),
                    forall|b: int|
                        0 <= b < j ==> !(#[trigger] names@[b]@ == name@ && name@.len() != 0),
                decreases names.len() - j,
            {
                if !names[j].as_str().is_empty() && str_eq(names[j].as_str(), name) {
                    return true;
                }
                j += 1;
            }
            i += 1;
        }
        false
    }

    /// Convert the prices to the rates used for billing.
    pub fn to_price_rates(&self) -> (r: PriceRates)
        ensures
            r == spec_price_rates(self.price@),
    {
        let p = &self.price;
        let input: i64 = if p.len() > 0 { p[0] } else { 0 };
        let output: i64 = if p.len() > 1 { p[1] } else { 0 };
        let cache_write: i64 = if p.len() > 2 {
            p[2]
        } else {
            clamp(round_div_i128(input as i128 * 5, 4))
        };
        let cache_read: i64 = if p.len() > 3 {
            p[3]
        } else {
            clamp(round_div_i128(input as i128, 10))
        };
        PriceRates {
            input_microusd: input,
            output_microusd: output,
            cache_write_microusd: cache_write,
            cache_read_microusd: cache_read,
        }
    }
}


impl ModelPricing {
    /// The input price, 0 when none is listed.
    pub fn price_input(&self) -> (r: i64)
        ensures
            r == spec_price_rates(self.price@).input_microusd,
    {
        self.to_price_rates().input_microusd
    }

    /// The output price, 0 when none is listed.
    pub fn price_output(&self) -> (r: i64)
        ensures
            r == spec_price_rates(self.price@).output_microusd,
    {
        self.to_price_rates().output_microusd
    }

    /// The cache write price, 1.25 times the input price when none is listed.
    pub fn price_cache_write(&self) -> (r: i64)
        ensures
            r == spec_price_rates(self.price@).cache_write_microusd,
    {
        self.to_price_rates().cache_write_microusd
    }

    /// The cache read price, 0.1 times the input price when none is listed.
    pub fn price_cache_read(&self) -> (r: i64)
        ensures
            r == spec_price_rates(self.price@).cache_read_microusd,
    {
        self.to_price_rates().cache_read_microusd
    }
}

} // verus!
