//! Cost reports: daily usage rows aggregated by model, provider, session and day.

use vstd::prelude::*;

use crate::text::{contains_str, lemma_seq_lt_asym, lemma_seq_lt_trans, owned, seq_lt, str_eq, str_lt, views};

verus! {

/// One row of daily usage: a date, session, model and provider with their totals.
#[derive(Debug)]
pub struct DailyUsageRow {
    pub usage_date: String,
    pub session_id: String,
    pub model: String,
    pub provider: String,
    pub input_tokens: u64,
    pub output_tokens: u64,
    pub cache_creation_tokens: u64,
    pub cache_read_tokens: u64,
    pub task_count: u64,
}

/// Token totals and request count of a group of rows.
#[derive(Debug, Clone, Copy, PartialEq, Eq, Structural)]
pub struct Usage {
    pub input_tokens: u64,
    pub output_tokens: u64,
    pub cache_creation_tokens: u64,
    pub cache_read_tokens: u64,
    pub request_count: u64,
}

/// Usage per model.
#[derive(Debug)]
pub struct ModelCost {
    pub model: String,
    pub usage: Usage,
}

/// Usage per provider.
#[derive(Debug)]
pub struct ProviderCost {
    pub provider: String,
    pub usage: Usage,
}

/// Usage per session, with the models it used.
#[derive(Debug)]
pub struct SessionCost {
    pub session_id: String,
    pub session_label: String,
    pub usage: Usage,
    pub first_request: String,
    pub last_request: String,
    pub models: Vec<String>,
}

/// Usage per day and model.
#[derive(Debug)]
pub struct DailyCost {
    pub date: String,
    pub model: String,
    pub usage: Usage,
}

/// The cost report of a date range.
#[derive(Debug)]
pub struct CostData {
    pub from: String,
    pub to: String,
    pub by_model: Vec<ModelCost>,
    pub by_provider: Vec<ProviderCost>,
    pub by_session: Vec<SessionCost>,
    pub by_day: Vec<DailyCost>,
}

/// Token totals and request count: input, output, cache creation, cache read, requests.
pub type Totals = (int, int, int, int, int);

/// The totals of the rows whose key (under `key`) is `k`.
pub open spec fn totals_where<K>(rows: Seq<DailyUsageRow>, key: spec_fn(DailyUsageRow) -> K, k: K) -> Totals
    decreases rows.len(),
{
    if rows.len() == 0 {
        (0, 0, 0, 0, 0)
    } else {
        let t = totals_where(rows.drop_last(), key, k);
        let r = rows.last();
        if key(r) == k {
            (
                t.0 + r.input_tokens,
                t.1 + r.output_tokens,
                t.2 + r.cache_creation_tokens,
                t.3 + r.cache_read_tokens,
                t.4 + r.task_count,
            )
        } else {
            t
        }
    }
}

/// The totals of every row.
pub open spec fn totals_all(rows: Seq<DailyUsageRow>) -> Totals
    decreases rows.len(),
{
    if rows.len() == 0 {
        (0, 0, 0, 0, 0)
    } else {
        let t = totals_all(rows.drop_last());
        let r = rows.last();
        (
            t.0 + r.input_tokens,
            t.1 + r.output_tokens,
            t.2 + r.cache_creation_tokens,
            t.3 + r.cache_read_tokens,
            t.4 + r.task_count,
        )
    }
}

/// A usage that holds the given totals.
pub open spec fn usage_is(u: Usage, t: Totals) -> bool {
    u.input_tokens == t.0 && u.output_tokens == t.1 && u.cache_creation_tokens == t.2
        && u.cache_read_tokens == t.3 && u.request_count == t.4
}

/// Every total fits in `u64`.
pub open spec fn totals_fit(t: Totals) -> bool {
    0 <= t.0 <= u64::MAX && 0 <= t.1 <= u64::MAX && 0 <= t.2 <= u64::MAX && 0 <= t.3 <= u64::MAX
        && 0 <= t.4 <= u64::MAX
}

proof fn lemma_totals_bound<K>(rows: Seq<DailyUsageRow>, key: spec_fn(DailyUsageRow) -> K, k: K)
    ensures
        0 <= totals_where(rows, key, k).0 <= totals_all(rows).0,
        0 <= totals_where(rows, key, k).1 <= totals_all(rows).1,
        0 <= totals_where(rows, key, k).2 <= totals_all(rows).2,
        0 <= totals_where(rows, key, k).3 <= totals_all(rows).3,
        0 <= totals_where(rows, key, k).4 <= totals_all(rows).4,
    decreases rows.len(),
{
    if rows.len() > 0 {
        lemma_totals_bound(rows.drop_last(), key, k);
    }
}

proof fn lemma_totals_nonneg(rows: Seq<DailyUsageRow>)
    ensures
        0 <= totals_all(rows).0 && 0 <= totals_all(rows).1 && 0 <= totals_all(rows).2,
        0 <= totals_all(rows).3 && 0 <= totals_all(rows).4,
    decreases rows.len(),
{
    if rows.len() > 0 {
        lemma_totals_nonneg(rows.drop_last());
    }
}

proof fn lemma_totals_prefix(rows: Seq<DailyUsageRow>, i: int)
    requires
        0 <= i <= rows.len(),
    ensures
        0 <= totals_all(rows.take(i)).0 && 0 <= totals_all(rows.take(i)).1,
        0 <= totals_all(rows.take(i)).2 && 0 <= totals_all(rows.take(i)).3,
        0 <= totals_all(rows.take(i)).4,
        totals_all(rows.take(i)).0 <= totals_all(rows).0,
        totals_all(rows.take(i)).1 <= totals_all(rows).1,
        totals_all(rows.take(i)).2 <= totals_all(rows).2,
        totals_all(rows.take(i)).3 <= totals_all(rows).3,
        totals_all(rows.take(i)).4 <= totals_all(rows).4,
    decreases rows.len() - i,
{
    lemma_totals_nonneg(rows.take(i));
    if i < rows.len() {
        lemma_totals_prefix(rows, i + 1);
        assert(rows.take(i + 1).drop_last() =~= rows.take(i));
    } else {
        assert(rows.take(i) =~= rows);
    }
}

/// The date and model of a row.
pub open spec fn day_key(r: DailyUsageRow) -> (Seq<char>, Seq<char>) {
    (r.usage_date@, r.model@)
}

/// The keys are pairwise distinct.
pub open spec fn keys_distinct<K>(keys: Seq<K>) -> bool {
    forall|a: int, b: int| 0 <= a < b < keys.len() ==> keys[a] != keys[b]
}

/// Some row has key `k`.
#[verifier::opaque]
pub open spec fn key_in_rows<K>(k: K, rows: Seq<DailyUsageRow>, key: spec_fn(DailyUsageRow) -> K) -> bool {
    exists|r: int| 0 <= r < rows.len() && key(rows[r]) == k
}

/// `k` is among the keys.
#[verifier::opaque]
pub open spec fn key_listed<K>(k: K, keys: Seq<K>) -> bool {
    exists|a: int| 0 <= a < keys.len() && keys[a] == k
}

/// Every key is that of some row.
pub open spec fn keys_from_rows<K>(keys: Seq<K>, rows: Seq<DailyUsageRow>, key: spec_fn(DailyUsageRow) -> K) -> bool {
    forall|a: int| 0 <= a < keys.len() ==> key_in_rows(#[trigger] keys[a], rows, key)
}

/// Every row's key is among the keys.
pub open spec fn rows_covered<K>(keys: Seq<K>, rows: Seq<DailyUsageRow>, key: spec_fn(DailyUsageRow) -> K) -> bool {
    forall|r: int| 0 <= r < rows.len() ==> key_listed(key(#[trigger] rows[r]), keys)
}

/// Each usage holds the totals of the rows of its key.
pub open spec fn usages_correct<K>(
    keys: Seq<K>,
    usages: Seq<Usage>,
    rows: Seq<DailyUsageRow>,
    key: spec_fn(DailyUsageRow) -> K,
) -> bool {
    forall|a: int| 0 <= a < keys.len() ==> usage_is(#[trigger] usages[a], totals_where(rows, key, keys[a]))
}

/// A list of keyed totals that groups `rows` exactly: keys are distinct, every
/// key is that of some row, every row's key is there, and each holds the totals
/// of its rows.
pub open spec fn groups_exactly<K>(
    keys: Seq<K>,
    usages: Seq<Usage>,
    rows: Seq<DailyUsageRow>,
    key: spec_fn(DailyUsageRow) -> K,
) -> bool {
    &&& keys.len() == usages.len()
    &&& keys_distinct(keys)
    &&& keys_from_rows(keys, rows, key)
    &&& rows_covered(keys, rows, key)
    &&& usages_correct(keys, usages, rows, key)
}

fn add_row(u: &mut Usage, r: &DailyUsageRow)
    requires
        old(u).input_tokens + r.input_tokens <= u64::MAX,
        old(u).output_tokens + r.output_tokens <= u64::MAX,
        old(u).cache_creation_tokens + r.cache_creation_tokens <= u64::MAX,
        old(u).cache_read_tokens + r.cache_read_tokens <= u64::MAX,
        old(u).request_count + r.task_count <= u64::MAX,
    ensures
        final(u).input_tokens == old(u).input_tokens + r.input_tokens,
        final(u).output_tokens == old(u).output_tokens + r.output_tokens,
        final(u).cache_creation_tokens == old(u).cache_creation_tokens + r.cache_creation_tokens,
        final(u).cache_read_tokens == old(u).cache_read_tokens + r.cache_read_tokens,
        final(u).request_count == old(u).request_count + r.task_count,
{
    u.input_tokens = u.input_tokens + r.input_tokens;
    u.output_tokens = u.output_tokens + r.output_tokens;
    u.cache_creation_tokens = u.cache_creation_tokens + r.cache_creation_tokens;
    u.cache_read_tokens = u.cache_read_tokens + r.cache_read_tokens;
    u.request_count = u.request_count + r.task_count;
}

fn zero_usage() -> (u: Usage)
    ensures
        usage_is(u, (0, 0, 0, 0, 0)),
{
    Usage {
        input_tokens: 0,
        output_tokens: 0,
        cache_creation_tokens: 0,
        cache_read_tokens: 0,
        request_count: 0,
    }
}

/// What a list of text-keyed groups is keyed by.
#[derive(Debug, Clone, Copy, PartialEq, Eq, Structural)]
pub enum GroupBy {
    Model,
    Provider,
    Session,
}

/// The key function of a grouping.
pub open spec fn key_fn(by: GroupBy) -> spec_fn(DailyUsageRow) -> Seq<char> {
    match by {
        GroupBy::Model => |r: DailyUsageRow| r.model@,
        GroupBy::Provider => |r: DailyUsageRow| r.provider@,
        GroupBy::Session => |r: DailyUsageRow| r.session_id@,
    }
}

fn key_text(r: &DailyUsageRow, by: GroupBy) -> (k: &String)
    ensures
        k@ == (key_fn(by))(*r),
{
    match by {
        GroupBy::Model => &r.model,
        GroupBy::Provider => &r.provider,
        GroupBy::Session => &r.session_id,
    }
}

proof fn lemma_totals_absent<K>(rows: Seq<DailyUsageRow>, key: spec_fn(DailyUsageRow) -> K, k: K)
    requires
        forall|r: int| 0 <= r < rows.len() ==> key(#[trigger] rows[r]) != k,
    ensures
        totals_where(rows, key, k) == (0int, 0int, 0int, 0int, 0int),
    decreases rows.len(),
{
    if rows.len() > 0 {
        assert forall|r: int| 0 <= r < rows.drop_last().len() implies key(
            #[trigger] rows.drop_last()[r],
        ) != k by {
            assert(rows.drop_last()[r] == rows[r]);
        }
        lemma_totals_absent(rows.drop_last(), key, k);
        assert(key(rows[rows.len() - 1]) != k);
    }
}

proof fn lemma_step_bounds(rows: Seq<DailyUsageRow>, i: int, t: Totals)
    requires
        0 <= i < rows.len(),
        totals_fit(totals_all(rows)),
        t.0 <= totals_all(rows.take(i)).0,
        t.1 <= totals_all(rows.take(i)).1,
        t.2 <= totals_all(rows.take(i)).2,
        t.3 <= totals_all(rows.take(i)).3,
        t.4 <= totals_all(rows.take(i)).4,
    ensures
        t.0 + rows[i].input_tokens <= u64::MAX,
        t.1 + rows[i].output_tokens <= u64::MAX,
        t.2 + rows[i].cache_creation_tokens <= u64::MAX,
        t.3 + rows[i].cache_read_tokens <= u64::MAX,
        t.4 + rows[i].task_count <= u64::MAX,
{
    lemma_totals_prefix(rows, i + 1);
    assert(rows.take(i + 1).drop_last() =~= rows.take(i));
    assert(rows.take(i + 1).last() == rows[i]);
}

/// The totals of one row added to `t`.
pub open spec fn plus_row(t: Totals, r: DailyUsageRow) -> Totals {
    (
        t.0 + r.input_tokens,
        t.1 + r.output_tokens,
        t.2 + r.cache_creation_tokens,
        t.3 + r.cache_read_tokens,
        t.4 + r.task_count,
    )
}

proof fn lemma_covered_push<K>(
    pre: Seq<DailyUsageRow>,
    row: DailyUsageRow,
    key: spec_fn(DailyUsageRow) -> K,
    ks: Seq<K>,
    j: int,
)
    requires
        rows_covered(ks, pre, key),
        keys_from_rows(ks, pre, key),
        0 <= j < ks.len(),
        ks[j] == key(row),
    ensures
        rows_covered(ks, pre.push(row), key),
        keys_from_rows(ks, pre.push(row), key),
{
    let post = pre.push(row);
    assert forall|r: int| 0 <= r < post.len() implies key_listed(key(#[trigger] post[r]), ks) by {
        if r < pre.len() {
            assert(post[r] == pre[r]);
        } else {
            reveal(key_listed);
            assert(ks[j] == key(post[r]));
        }
    }
    assert forall|a: int| 0 <= a < ks.len() implies key_in_rows(#[trigger] ks[a], post, key) by {
        reveal(key_in_rows);
        assert(key_in_rows(ks[a], pre, key));
        let r = choose|r: int| 0 <= r < pre.len() && key(pre[r]) == ks[a];
        assert(post[r] == pre[r]);
    }
}

proof fn lemma_usages_existing<K>(
    pre: Seq<DailyUsageRow>,
    row: DailyUsageRow,
    key: spec_fn(DailyUsageRow) -> K,
    ks: Seq<K>,
    us: Seq<Usage>,
    j: int,
    u: Usage,
)
    requires
        usages_correct(ks, us, pre, key),
        keys_distinct(ks),
        ks.len() == us.len(),
        0 <= j < ks.len(),
        ks[j] == key(row),
        usage_is(u, plus_row(totals_where(pre, key, ks[j]), row)),
    ensures
        usages_correct(ks, us.update(j, u), pre.push(row), key),
{
    let post = pre.push(row);
    assert(post.drop_last() =~= pre);
    let nu = us.update(j, u);
    assert forall|a: int| 0 <= a < ks.len() implies usage_is(
        #[trigger] nu[a],
        totals_where(post, key, ks[a]),
    ) by {
        if a != j {
            if a < j {
                assert(ks[a] != ks[j]);
            } else {
                assert(ks[j] != ks[a]);
            }
        }
    }
}

proof fn lemma_group_existing<K>(
    pre: Seq<DailyUsageRow>,
    row: DailyUsageRow,
    key: spec_fn(DailyUsageRow) -> K,
    ks: Seq<K>,
    us: Seq<Usage>,
    j: int,
    u: Usage,
)
    requires
        groups_exactly(ks, us, pre, key),
        0 <= j < ks.len(),
        ks[j] == key(row),
        usage_is(u, plus_row(totals_where(pre, key, ks[j]), row)),
    ensures
        groups_exactly(ks, us.update(j, u), pre.push(row), key),
{
    lemma_covered_push(pre, row, key, ks, j);
    lemma_usages_existing(pre, row, key, ks, us, j, u);
}

proof fn lemma_group_new<K>(
    pre: Seq<DailyUsageRow>,
    row: DailyUsageRow,
    key: spec_fn(DailyUsageRow) -> K,
    ks: Seq<K>,
    us: Seq<Usage>,
    u: Usage,
)
    requires
        groups_exactly(ks, us, pre, key),
        forall|a: int| 0 <= a < ks.len() ==> #[trigger] ks[a] != key(row),
        usage_is(u, plus_row((0, 0, 0, 0, 0), row)),
    ensures
        groups_exactly(ks.push(key(row)), us.push(u), pre.push(row), key),
{
    let post = pre.push(row);
    assert(post.drop_last() =~= pre);
    let nk = ks.push(key(row));
    let nu = us.push(u);
    assert forall|r: int| 0 <= r < pre.len() implies key(#[trigger] pre[r]) != key(row) by {
        assert(key_listed(key(pre[r]), ks));
        reveal(key_listed);
    }
    lemma_totals_absent(pre, key, key(row));
    assert forall|a: int, b: int| 0 <= a < b < nk.len() implies nk[a] != nk[b] by {
        if b == ks.len() {
            assert(nk[a] == ks[a]);
        } else {
            assert(nk[a] == ks[a]);
            assert(nk[b] == ks[b]);
        }
    }
    assert forall|a: int| 0 <= a < nk.len() implies usage_is(
        #[trigger] nu[a],
        totals_where(post, key, nk[a]),
    ) by {
        if a < ks.len() {
            assert(nk[a] == ks[a]);
            assert(nu[a] == us[a]);
        }
    }
    assert forall|r: int| 0 <= r < post.len() implies key_listed(key(#[trigger] post[r]), nk) by {
        reveal(key_listed);
        if r < pre.len() {
            assert(post[r] == pre[r]);
            assert(key_listed(key(pre[r]), ks));
            let a = choose|a: int| 0 <= a < ks.len() && ks[a] == key(pre[r]);
            assert(nk[a] == ks[a]);
        } else {
            assert(nk[ks.len() as int] == key(post[r]));
        }
    }
    assert forall|a: int| 0 <= a < nk.len() implies key_in_rows(#[trigger] nk[a], post, key) by {
        reveal(key_in_rows);
        if a < ks.len() {
            assert(nk[a] == ks[a]);
            assert(key_in_rows(ks[a], pre, key));
            let r = choose|r: int| 0 <= r < pre.len() && key(pre[r]) == ks[a];
            assert(post[r] == pre[r]);
        } else {
            assert(key(post[pre.len() as int]) == nk[a]);
        }
    }
}

/// The totals of the first `n` usages.
pub open spec fn usage_sum(us: Seq<Usage>, n: int) -> Totals
    decreases n,
{
    if n <= 0 {
        (0, 0, 0, 0, 0)
    } else {
        let t = usage_sum(us, n - 1);
        let u = us[n - 1];
        (
            t.0 + u.input_tokens,
            t.1 + u.output_tokens,
            t.2 + u.cache_creation_tokens,
            t.3 + u.cache_read_tokens,
            t.4 + u.request_count,
        )
    }
}

/// The totals of the rows of the first `n` keys, added up.
pub open spec fn keyed_sum<K>(ks: Seq<K>, rows: Seq<DailyUsageRow>, key: spec_fn(DailyUsageRow) -> K, n: int) -> Totals
    decreases n,
{
    if n <= 0 {
        (0, 0, 0, 0, 0)
    } else {
        let t = keyed_sum(ks, rows, key, n - 1);
        let u = totals_where(rows, key, ks[n - 1]);
        (t.0 + u.0, t.1 + u.1, t.2 + u.2, t.3 + u.3, t.4 + u.4)
    }
}

/// How many of the first `n` keys are `k`.
pub open spec fn hits<K>(ks: Seq<K>, k: K, n: int) -> int
    decreases n,
{
    if n <= 0 {
        0
    } else {
        hits(ks, k, n - 1) + if ks[n - 1] == k {
            1int
        } else {
            0int
        }
    }
}

proof fn lemma_usage_sum_keyed<K>(
    ks: Seq<K>,
    us: Seq<Usage>,
    rows: Seq<DailyUsageRow>,
    key: spec_fn(DailyUsageRow) -> K,
    n: int,
)
    requires
        ks.len() == us.len(),
        usages_correct(ks, us, rows, key),
        0 <= n <= ks.len(),
    ensures
        usage_sum(us, n) == keyed_sum(ks, rows, key, n),
    decreases n,
{
    if n > 0 {
        lemma_usage_sum_keyed(ks, us, rows, key, n - 1);
        assert(usage_is(us[n - 1], totals_where(rows, key, ks[n - 1])));
    }
}

proof fn lemma_keyed_sum_push<K>(
    ks: Seq<K>,
    pre: Seq<DailyUsageRow>,
    r: DailyUsageRow,
    key: spec_fn(DailyUsageRow) -> K,
    n: int,
)
    requires
        0 <= n <= ks.len(),
    ensures
        ({
            let a = keyed_sum(ks, pre.push(r), key, n);
            let b = keyed_sum(ks, pre, key, n);
            let h = hits(ks, key(r), n);
            &&& a.0 == b.0 + h * r.input_tokens
            &&& a.1 == b.1 + h * r.output_tokens
            &&& a.2 == b.2 + h * r.cache_creation_tokens
            &&& a.3 == b.3 + h * r.cache_read_tokens
            &&& a.4 == b.4 + h * r.task_count
        }),
    decreases n,
{
    if n > 0 {
        lemma_keyed_sum_push(ks, pre, r, key, n - 1);
        assert(pre.push(r).drop_last() =~= pre);
        let h = hits(ks, key(r), n - 1);
        assert((h + 1) * r.input_tokens == h * r.input_tokens + r.input_tokens) by (nonlinear_arith);
        assert((h + 1) * r.output_tokens == h * r.output_tokens + r.output_tokens) by (nonlinear_arith);
        assert((h + 1) * r.cache_creation_tokens == h * r.cache_creation_tokens + r.cache_creation_tokens)
            by (nonlinear_arith);
        assert((h + 1) * r.cache_read_tokens == h * r.cache_read_tokens + r.cache_read_tokens) by (nonlinear_arith);
        assert((h + 1) * r.task_count == h * r.task_count + r.task_count) by (nonlinear_arith);
    }
}

proof fn lemma_hits_once<K>(ks: Seq<K>, k: K, a: int, n: int)
    requires
        keys_distinct(ks),
        0 <= a < ks.len(),
        ks[a] == k,
        0 <= n <= ks.len(),
    ensures
        hits(ks, k, n) == (if a < n {
            1int
        } else {
            0int
        }),
    decreases n,
{
    if n > 0 {
        lemma_hits_once(ks, k, a, n - 1);
        if n - 1 != a && ks[n - 1] == k {
            if n - 1 < a {
                assert(ks[n - 1] != ks[a]);
            } else {
                assert(ks[a] != ks[n - 1]);
            }
        }
    }
}

/// Every grouping counts each row exactly once: the usages of a grouping add
/// up to the totals of all rows.
pub proof fn groups_add_up<K>(
    ks: Seq<K>,
    us: Seq<Usage>,
    rows: Seq<DailyUsageRow>,
    key: spec_fn(DailyUsageRow) -> K,
)
    requires
        groups_exactly(ks, us, rows, key),
    ensures
        usage_sum(us, us.len() as int) == totals_all(rows),
{
    lemma_usage_sum_keyed(ks, us, rows, key, ks.len() as int);
    lemma_keyed_sum_total(ks, rows, key);
}

proof fn lemma_keyed_sum_total<K>(ks: Seq<K>, rows: Seq<DailyUsageRow>, key: spec_fn(DailyUsageRow) -> K)
    requires
        keys_distinct(ks),
        rows_covered(ks, rows, key),
    ensures
        keyed_sum(ks, rows, key, ks.len() as int) == totals_all(rows),
    decreases rows.len(),
{
    if rows.len() == 0 {
        lemma_keyed_sum_empty(ks, rows, key, ks.len() as int);
    } else {
        let pre = rows.drop_last();
        let r = rows.last();
        assert(pre.push(r) =~= rows);
        assert forall|i: int| 0 <= i < pre.len() implies key_listed(key(#[trigger] pre[i]), ks) by {
            assert(pre[i] == rows[i]);
        }
        lemma_keyed_sum_total(ks, pre, key);
        lemma_keyed_sum_push(ks, pre, r, key, ks.len() as int);
        assert(key_listed(key(rows[rows.len() - 1]), ks));
        reveal(key_listed);
        let a = choose|a: int| 0 <= a < ks.len() && ks[a] == key(r);
        lemma_hits_once(ks, key(r), a, ks.len() as int);
    }
}

proof fn lemma_keyed_sum_empty<K>(ks: Seq<K>, rows: Seq<DailyUsageRow>, key: spec_fn(DailyUsageRow) -> K, n: int)
    requires
        rows.len() == 0,
    ensures
        keyed_sum(ks, rows, key, n) == (0int, 0int, 0int, 0int, 0int),
    decreases n,
{
    if n > 0 {
        lemma_keyed_sum_empty(ks, rows, key, n - 1);
    }
}

/// Groups rows by a text key, in the order keys first appear.
fn group_by_text(rows: &Vec<DailyUsageRow>, by: GroupBy) -> (r: (Vec<String>, Vec<Usage>))
    requires
        totals_fit(totals_all(rows@)),
    ensures
        groups_exactly(views(r.0@), r.1@, rows@, key_fn(by)),
{
    let ghost key = key_fn(by);
    let mut keys: Vec<String> = Vec::new();
    let mut usages: Vec<Usage> = Vec::new();
    let mut i: usize = 0;
    proof {
        assert(rows@.take(0) =~= Seq::<DailyUsageRow>::empty());
        assert(views(keys@) =~= Seq::<Seq<char>>::empty());
    }
    while i < rows.len()
        invariant
            i <= rows@.len(),
            key == key_fn(by),
            totals_fit(totals_all(rows@)),
            groups_exactly(views(keys@), usages@, rows@.take(i as int), key),
        decreases rows@.len() - i,
    {
        let ghost pre = rows@.take(i as int);
        proof {
            assert(rows@.take(i + 1) =~= pre.push(rows@[i as int]));
        }
        let row = &rows[i];
        let k = key_text(row, by);
        let mut j: usize = 0;
        while j < keys.len() && !str_eq(keys[j].as_str(), k.as_str())
            invariant
                j <= keys@.len(),
                forall|x: int| 0 <= x < j ==> keys@[x]@ != k@,
            decreases keys@.len() - j,
        {
            j += 1;
        }
        let ghost ok = views(keys@);
        let ghost ou = usages@;
        if j < keys.len() {
            let mut u = usages[j];
            proof {
                assert(ok[j as int] == keys@[j as int]@);
                lemma_totals_bound(pre, key, k@);
                lemma_step_bounds(rows@, i as int, totals_where(pre, key, k@));
            }
            add_row(&mut u, row);
            usages.set(j, u);
            proof {
                lemma_group_existing(pre, *row, key, ok, ou, j as int, u);
            }
        } else {
            proof {
                assert forall|a: int| 0 <= a < ok.len() implies #[trigger] ok[a] != key(*row) by {
                    assert(ok[a] == keys@[a]@);
                }
                lemma_totals_prefix(rows@, i as int);
                lemma_step_bounds(rows@, i as int, (0int, 0int, 0int, 0int, 0int));
            }
            let mut u = zero_usage();
            add_row(&mut u, row);
            keys.push(k.clone());
            usages.push(u);
            proof {
                lemma_group_new(pre, *row, key, ok, ou, u);
                assert(views(keys@) =~= ok.push(key(*row)));
            }
        }
        i += 1;
    }
    assert(rows@.take(i as int) =~= rows@);
    (keys, usages)
}

/// Group `a` of `ks/us` has key `k` and usage `u`.
#[verifier::opaque]
pub open spec fn from_group<K>(k: K, u: Usage, ks: Seq<K>, us: Seq<Usage>) -> bool {
    exists|a: int| 0 <= a < ks.len() && ks[a] == k && us[a] == u
}

/// `ks2/us2` hold the groups of `ks/us` (each once), in some order.
pub open spec fn rearranged<K>(ks: Seq<K>, us: Seq<Usage>, ks2: Seq<K>, us2: Seq<Usage>) -> bool {
    &&& ks2.len() == us2.len()
    &&& keys_distinct(ks2)
    &&& forall|b: int| 0 <= b < ks2.len() ==> from_group(#[trigger] ks2[b], us2[b], ks, us)
    &&& forall|a: int| 0 <= a < ks.len() ==> key_listed(#[trigger] ks[a], ks2)
}

proof fn lemma_rearranged_groups<K>(
    ks: Seq<K>,
    us: Seq<Usage>,
    ks2: Seq<K>,
    us2: Seq<Usage>,
    rows: Seq<DailyUsageRow>,
    key: spec_fn(DailyUsageRow) -> K,
)
    requires
        groups_exactly(ks, us, rows, key),
        rearranged(ks, us, ks2, us2),
    ensures
        groups_exactly(ks2, us2, rows, key),
{
    reveal(from_group);
    reveal(key_listed);
    assert forall|b: int| 0 <= b < ks2.len() implies key_in_rows(#[trigger] ks2[b], rows, key) by {
        assert(from_group(ks2[b], us2[b], ks, us));
        let a = choose|a: int| 0 <= a < ks.len() && ks[a] == ks2[b] && us[a] == us2[b];
        assert(key_in_rows(ks[a], rows, key));
    }
    assert forall|r: int| 0 <= r < rows.len() implies key_listed(key(#[trigger] rows[r]), ks2) by {
        assert(key_listed(key(rows[r]), ks));
        let a = choose|a: int| 0 <= a < ks.len() && ks[a] == key(rows[r]);
        assert(key_listed(ks[a], ks2));
    }
    assert forall|b: int| 0 <= b < ks2.len() implies usage_is(
        #[trigger] us2[b],
        totals_where(rows, key, ks2[b]),
    ) by {
        assert(from_group(ks2[b], us2[b], ks, us));
        let a = choose|a: int| 0 <= a < ks.len() && ks[a] == ks2[b] && us[a] == us2[b];
        assert(usage_is(us[a], totals_where(rows, key, ks[a])));
    }
}

proof fn lemma_insert_step<K>(
    ks: Seq<K>,
    us: Seq<Usage>,
    a: int,
    sk: Seq<K>,
    su: Seq<Usage>,
    p: int,
)
    requires
        keys_distinct(ks),
        ks.len() == us.len(),
        0 <= a < ks.len(),
        0 <= p <= sk.len(),
        rearranged(ks.take(a), us.take(a), sk, su),
    ensures
        rearranged(ks.take(a + 1), us.take(a + 1), sk.insert(p, ks[a]), su.insert(p, us[a])),
{
    reveal(from_group);
    reveal(key_listed);
    let k = ks[a];
    let u = us[a];
    let nk = sk.insert(p, k);
    let nu = su.insert(p, u);
    let ka = ks.take(a);
    let ua = us.take(a);
    let kb = ks.take(a + 1);
    let ub = us.take(a + 1);
    assert forall|b: int| 0 <= b < sk.len() implies #[trigger] sk[b] != k by {
        assert(from_group(sk[b], su[b], ka, ua));
        let c = choose|c: int| 0 <= c < ka.len() && ka[c] == sk[b] && ua[c] == su[b];
        assert(ks[c] == ka[c]);
    }
    assert forall|x: int, y: int| 0 <= x < y < nk.len() implies nk[x] != nk[y] by {
        if x < p && y < p {
            assert(nk[x] == sk[x] && nk[y] == sk[y]);
        } else if x < p && y == p {
            assert(nk[x] == sk[x]);
        } else if x < p {
            assert(nk[x] == sk[x] && nk[y] == sk[y - 1]);
        } else if x == p {
            assert(nk[y] == sk[y - 1]);
        } else {
            assert(nk[x] == sk[x - 1] && nk[y] == sk[y - 1]);
        }
    }
    assert forall|b: int| 0 <= b < nk.len() implies from_group(#[trigger] nk[b], nu[b], kb, ub) by {
        if b == p {
            assert(kb[a] == k && ub[a] == u);
        } else {
            let b0 = if b < p { b } else { b - 1 };
            assert(nk[b] == sk[b0] && nu[b] == su[b0]);
            assert(from_group(sk[b0], su[b0], ka, ua));
            let c = choose|c: int| 0 <= c < ka.len() && ka[c] == sk[b0] && ua[c] == su[b0];
            assert(kb[c] == ka[c] && ub[c] == ua[c]);
        }
    }
    assert forall|c: int| 0 <= c < kb.len() implies key_listed(#[trigger] kb[c], nk) by {
        if c == a {
            assert(nk[p] == k);
        } else {
            assert(kb[c] == ka[c]);
            assert(key_listed(ka[c], sk));
            let b = choose|b: int| 0 <= b < sk.len() && sk[b] == ka[c];
            if b < p {
                assert(nk[b] == sk[b]);
            } else {
                assert(nk[b + 1] == sk[b]);
            }
        }
    }
}


/// Usages in order of input tokens, largest first.
pub open spec fn input_desc(us: Seq<Usage>) -> bool {
    forall|x: int, y: int| 0 <= x < y < us.len() ==> us[x].input_tokens >= us[y].input_tokens
}

/// Orders text-keyed groups by input tokens, largest first.
fn sort_by_input_desc(keys: &Vec<String>, usages: &Vec<Usage>) -> (r: (Vec<String>, Vec<Usage>))
    requires
        keys@.len() == usages@.len(),
        keys_distinct(views(keys@)),
    ensures
        rearranged(views(keys@), usages@, views(r.0@), r.1@),
        input_desc(r.1@),
{
    let ghost ks = views(keys@);
    let mut sk: Vec<String> = Vec::new();
    let mut su: Vec<Usage> = Vec::new();
    let mut a: usize = 0;
    proof {
        reveal(key_listed);
        assert(ks.take(0) =~= Seq::<Seq<char>>::empty());
        assert(usages@.take(0) =~= Seq::<Usage>::empty());
        assert(views(sk@) =~= Seq::<Seq<char>>::empty());
    }
    while a < keys.len()
        invariant
            a <= keys@.len(),
            keys@.len() == usages@.len(),
            ks == views(keys@),
            keys_distinct(ks),
            rearranged(ks.take(a as int), usages@.take(a as int), views(sk@), su@),
            input_desc(su@),
        decreases keys@.len() - a,
    {
        let u = usages[a];
        let mut p: usize = 0;
        while p < su.len() && su[p].input_tokens >= u.input_tokens
            invariant
                p <= su@.len(),
                forall|x: int| 0 <= x < p ==> su@[x].input_tokens >= u.input_tokens,
            decreases su@.len() - p,
        {
            p += 1;
        }
        let ghost osk = views(sk@);
        let ghost osu = su@;
        proof {
            lemma_insert_step(ks, usages@, a as int, osk, osu, p as int);
        }
        sk.insert(p, keys[a].clone());
        su.insert(p, u);
        proof {
            assert(views(sk@) =~= osk.insert(p as int, ks[a as int]));
            assert(su@ == osu.insert(p as int, usages@[a as int]));
            assert forall|x: int, y: int| 0 <= x < y < su@.len() implies su@[x].input_tokens
                >= su@[y].input_tokens by {
                if y == p {
                    assert(su@[x] == osu[x]);
                } else if x == p {
                    assert(su@[y] == osu[y - 1]);
                    assert(osu[p as int].input_tokens < u.input_tokens);
                    assert(osu[p as int].input_tokens >= osu[y - 1].input_tokens);
                } else if x < p && y < p {
                    assert(su@[x] == osu[x] && su@[y] == osu[y]);
                } else if x < p {
                    assert(su@[x] == osu[x] && su@[y] == osu[y - 1]);
                } else {
                    assert(su@[x] == osu[x - 1] && su@[y] == osu[y - 1]);
                }
            }
        }
        a += 1;
    }
    proof {
        assert(ks.take(a as int) =~= ks);
        assert(usages@.take(a as int) =~= usages@);
    }
    (sk, su)
}


/// The views of date and model keys.
pub open spec fn pair_views(v: Seq<(String, String)>) -> Seq<(Seq<char>, Seq<char>)> {
    v.map_values(|p: (String, String)| (p.0@, p.1@))
}

/// The date and model of a row, as a key function.
pub open spec fn day_key_fn() -> spec_fn(DailyUsageRow) -> (Seq<char>, Seq<char>) {
    |r: DailyUsageRow| day_key(r)
}

/// Groups rows by date and model, in the order keys first appear.
fn group_by_day(rows: &Vec<DailyUsageRow>) -> (r: (Vec<(String, String)>, Vec<Usage>))
    requires
        totals_fit(totals_all(rows@)),
    ensures
        groups_exactly(pair_views(r.0@), r.1@, rows@, day_key_fn()),
{
    let ghost key = day_key_fn();
    let mut keys: Vec<(String, String)> = Vec::new();
    let mut usages: Vec<Usage> = Vec::new();
    let mut i: usize = 0;
    proof {
        assert(rows@.take(0) =~= Seq::<DailyUsageRow>::empty());
        assert(pair_views(keys@) =~= Seq::<(Seq<char>, Seq<char>)>::empty());
    }
    while i < rows.len()
        invariant
            i <= rows@.len(),
            key == day_key_fn(),
            totals_fit(totals_all(rows@)),
            groups_exactly(pair_views(keys@), usages@, rows@.take(i as int), key),
        decreases rows@.len() - i,
    {
        let ghost pre = rows@.take(i as int);
        proof {
            assert(rows@.take(i + 1) =~= pre.push(rows@[i as int]));
        }
        let row = &rows[i];
        let ghost k = key(*row);
        let mut j: usize = 0;
        while j < keys.len() && !(str_eq(keys[j].0.as_str(), row.usage_date.as_str()) && str_eq(
            keys[j].1.as_str(),
            row.model.as_str(),
        ))
            invariant
                j <= keys@.len(),
                k == (row.usage_date@, row.model@),
                forall|x: int| 0 <= x < j ==> (keys@[x].0@, keys@[x].1@) != k,
            decreases keys@.len() - j,
        {
            j += 1;
        }
        let ghost ok = pair_views(keys@);
        let ghost ou = usages@;
        if j < keys.len() {
            let mut u = usages[j];
            proof {
                assert(ok[j as int] == (keys@[j as int].0@, keys@[j as int].1@));
                lemma_totals_bound(pre, key, k);
                lemma_step_bounds(rows@, i as int, totals_where(pre, key, k));
            }
            add_row(&mut u, row);
            usages.set(j, u);
            proof {
                lemma_group_existing(pre, *row, key, ok, ou, j as int, u);
            }
        } else {
            proof {
                assert forall|a: int| 0 <= a < ok.len() implies #[trigger] ok[a] != key(*row) by {
                    assert(ok[a] == (keys@[a].0@, keys@[a].1@));
                }
                lemma_totals_prefix(rows@, i as int);
                lemma_step_bounds(rows@, i as int, (0int, 0int, 0int, 0int, 0int));
            }
            let mut u = zero_usage();
            add_row(&mut u, row);
            keys.push((row.usage_date.clone(), row.model.clone()));
            usages.push(u);
            proof {
                lemma_group_new(pre, *row, key, ok, ou, u);
                assert(pair_views(keys@) =~= ok.push(key(*row)));
            }
        }
        i += 1;
    }
    assert(rows@.take(i as int) =~= rows@);
    (keys, usages)
}

/// Date-and-model keys in order of date, earliest first.
pub open spec fn date_asc(ks: Seq<(Seq<char>, Seq<char>)>) -> bool {
    forall|x: int, y: int| 0 <= x < y < ks.len() ==> !seq_lt(ks[y].0, ks[x].0)
}

/// Orders day groups by date, earliest first.
fn sort_by_date(keys: &Vec<(String, String)>, usages: &Vec<Usage>) -> (r: (Vec<(String, String)>, Vec<Usage>))
    requires
        keys@.len() == usages@.len(),
        keys_distinct(pair_views(keys@)),
    ensures
        rearranged(pair_views(keys@), usages@, pair_views(r.0@), r.1@),
        date_asc(pair_views(r.0@)),
{
    let ghost ks = pair_views(keys@);
    let mut sk: Vec<(String, String)> = Vec::new();
    let mut su: Vec<Usage> = Vec::new();
    let mut a: usize = 0;
    proof {
        reveal(key_listed);
        assert(ks.take(0) =~= Seq::<(Seq<char>, Seq<char>)>::empty());
        assert(usages@.take(0) =~= Seq::<Usage>::empty());
        assert(pair_views(sk@) =~= Seq::<(Seq<char>, Seq<char>)>::empty());
    }
    while a < keys.len()
        invariant
            a <= keys@.len(),
            keys@.len() == usages@.len(),
            ks == pair_views(keys@),
            keys_distinct(ks),
            sk@.len() == su@.len(),
            rearranged(ks.take(a as int), usages@.take(a as int), pair_views(sk@), su@),
            date_asc(pair_views(sk@)),
        decreases keys@.len() - a,
    {
        let date = &keys[a].0;
        let mut p: usize = 0;
        while p < sk.len() && !str_lt(date.as_str(), sk[p].0.as_str())
            invariant
                p <= sk@.len(),
                forall|x: int| 0 <= x < p ==> !seq_lt(date@, #[trigger] sk@[x].0@),
            decreases sk@.len() - p,
        {
            p += 1;
        }
        let ghost osk = pair_views(sk@);
        let ghost osu = su@;
        let ghost d = date@;
        proof {
            lemma_insert_step(ks, usages@, a as int, osk, osu, p as int);
        }
        sk.insert(p, (keys[a].0.clone(), keys[a].1.clone()));
        su.insert(p, usages[a]);
        proof {
            let nk = pair_views(sk@);
            assert(nk =~= osk.insert(p as int, ks[a as int]));
            assert(ks[a as int].0 == d);
            assert forall|x: int, y: int| 0 <= x < y < nk.len() implies !seq_lt(nk[y].0, nk[x].0) by {
                if y == p {
                    assert(nk[x] == osk[x]);
                    assert(osk[x].0 == sk@[x].0@) by {
                        assert(sk@[x] == sk@[x]);
                    }
                    assert(!seq_lt(d, osk[x].0));
                } else if x == p {
                    assert(nk[y] == osk[y - 1]);
                    assert(seq_lt(d, osk[p as int].0));
                    if seq_lt(osk[y - 1].0, d) {
                        lemma_seq_lt_trans(osk[y - 1].0, d, osk[p as int].0);
                        if y - 1 == p {
                            lemma_seq_lt_asym(osk[p as int].0, osk[p as int].0);
                        }
                    }
                } else if x < p && y < p {
                    assert(nk[x] == osk[x] && nk[y] == osk[y]);
                } else if x < p {
                    assert(nk[x] == osk[x] && nk[y] == osk[y - 1]);
                } else {
                    assert(nk[x] == osk[x - 1] && nk[y] == osk[y - 1]);
                }
            }
        }
        a += 1;
    }
    proof {
        assert(ks.take(a as int) =~= ks);
        assert(usages@.take(a as int) =~= usages@);
    }
    (sk, su)
}


/// The distinct models of a session's rows, in the order they first appear.
pub open spec fn models_of(rows: Seq<DailyUsageRow>, session: Seq<char>) -> Seq<Seq<char>>
    decreases rows.len(),
{
    if rows.len() == 0 {
        Seq::empty()
    } else {
        let m = models_of(rows.drop_last(), session);
        let r = rows.last();
        if r.session_id@ == session && !m.contains(r.model@) {
            m.push(r.model@)
        } else {
            m
        }
    }
}

/// The distinct models used by a session, in the order they first appear.
fn session_models(rows: &Vec<DailyUsageRow>, session: &str) -> (r: Vec<String>)
    ensures
        views(r@) == models_of(rows@, session@),
{
    let mut out: Vec<String> = Vec::new();
    let mut i: usize = 0;
    proof {
        assert(rows@.take(0) =~= Seq::<DailyUsageRow>::empty());
        assert(views(out@) =~= Seq::<Seq<char>>::empty());
    }
    while i < rows.len()
        invariant
            i <= rows@.len(),
            views(out@) == models_of(rows@.take(i as int), session@),
        decreases rows@.len() - i,
    {
        let row = &rows[i];
        let ghost m = views(out@);
        proof {
            assert(rows@.take(i + 1).drop_last() =~= rows@.take(i as int));
            assert(rows@.take(i + 1).last() == rows@[i as int]);
        }
        if str_eq(row.session_id.as_str(), session) {
            let seen = contains_str(&out, row.model.as_str());
            proof {
                if seen {
                    let j = choose|j: int| 0 <= j < out@.len() && #[trigger] out@[j]@ == row.model@;
                    assert(m[j] == row.model@);
                } else {
                    assert forall|j: int| 0 <= j < m.len() implies m[j] != row.model@ by {
                        assert(m[j] == out@[j]@);
                    }
                }
            }
            if !seen {
                out.push(row.model.clone());
                proof {
                    assert(views(out@) =~= m.push(row.model@));
                }
            }
        }
        i += 1;
    }
    assert(rows@.take(i as int) =~= rows@);
    out
}

/// The models of a list of model costs.
pub open spec fn model_keys(v: Seq<ModelCost>) -> Seq<Seq<char>> {
    v.map_values(|m: ModelCost| m.model@)
}

/// The usages of a list of model costs.
pub open spec fn model_usages(v: Seq<ModelCost>) -> Seq<Usage> {
    v.map_values(|m: ModelCost| m.usage)
}

/// The providers of a list of provider costs.
pub open spec fn provider_keys(v: Seq<ProviderCost>) -> Seq<Seq<char>> {
    v.map_values(|m: ProviderCost| m.provider@)
}

/// The usages of a list of provider costs.
pub open spec fn provider_usages(v: Seq<ProviderCost>) -> Seq<Usage> {
    v.map_values(|m: ProviderCost| m.usage)
}

/// The sessions of a list of session costs.
pub open spec fn session_keys(v: Seq<SessionCost>) -> Seq<Seq<char>> {
    v.map_values(|m: SessionCost| m.session_id@)
}

/// The usages of a list of session costs.
pub open spec fn session_usages(v: Seq<SessionCost>) -> Seq<Usage> {
    v.map_values(|m: SessionCost| m.usage)
}

/// The dates and models of a list of daily costs.
pub open spec fn day_keys(v: Seq<DailyCost>) -> Seq<(Seq<char>, Seq<char>)> {
    v.map_values(|m: DailyCost| (m.date@, m.model@))
}

/// The usages of a list of daily costs.
pub open spec fn day_usages(v: Seq<DailyCost>) -> Seq<Usage> {
    v.map_values(|m: DailyCost| m.usage)
}

fn model_costs(keys: &Vec<String>, usages: &Vec<Usage>) -> (r: Vec<ModelCost>)
    requires
        keys@.len() == usages@.len(),
    ensures
        model_keys(r@) == views(keys@),
        model_usages(r@) == usages@,
{
    let mut out: Vec<ModelCost> = Vec::new();
    let mut b: usize = 0;
    while b < keys.len()
        invariant
            b <= keys@.len(),
            out@.len() == b,
            keys@.len() == usages@.len(),
            model_keys(out@) =~= views(keys@).take(b as int),
            model_usages(out@) =~= usages@.take(b as int),
        decreases keys@.len() - b,
    {
        let ghost prev = out@;
        out.push(ModelCost { model: keys[b].clone(), usage: usages[b] });
        proof {
            assert(out@ == prev.push(out@.last()));
            assert(model_keys(out@) =~= views(keys@).take(b + 1)) by {
                assert forall|x: int| 0 <= x < b + 1 implies #[trigger] model_keys(out@)[x] == views(keys@).take(b + 1)[x] by {
                    if x < b {
                        assert(out@[x] == prev[x]);
                    }
                }
            }
            assert(model_usages(out@) =~= usages@.take(b + 1)) by {
                assert forall|x: int| 0 <= x < b + 1 implies #[trigger] model_usages(out@)[x] == usages@.take(b + 1)[x] by {
                    if x < b {
                        assert(out@[x] == prev[x]);
                    }
                }
            }
        }
        b += 1;
    }
    assert(views(keys@).take(b as int) =~= views(keys@));
    assert(usages@.take(b as int) =~= usages@);
    out
}

fn provider_costs(keys: &Vec<String>, usages: &Vec<Usage>) -> (r: Vec<ProviderCost>)
    requires
        keys@.len() == usages@.len(),
    ensures
        provider_keys(r@) == views(keys@),
        provider_usages(r@) == usages@,
{
    let mut out: Vec<ProviderCost> = Vec::new();
    let mut b: usize = 0;
    while b < keys.len()
        invariant
            b <= keys@.len(),
            out@.len() == b,
            keys@.len() == usages@.len(),
            provider_keys(out@) =~= views(keys@).take(b as int),
            provider_usages(out@) =~= usages@.take(b as int),
        decreases keys@.len() - b,
    {
        let ghost prev = out@;
        out.push(ProviderCost { provider: keys[b].clone(), usage: usages[b] });
        proof {
            assert(out@ == prev.push(out@.last()));
            assert(provider_keys(out@) =~= views(keys@).take(b + 1)) by {
                assert forall|x: int| 0 <= x < b + 1 implies #[trigger] provider_keys(out@)[x] == views(keys@).take(b + 1)[x] by {
                    if x < b {
                        assert(out@[x] == prev[x]);
                    }
                }
            }
            assert(provider_usages(out@) =~= usages@.take(b + 1)) by {
                assert forall|x: int| 0 <= x < b + 1 implies #[trigger] provider_usages(out@)[x] == usages@.take(b + 1)[x] by {
                    if x < b {
                        assert(out@[x] == prev[x]);
                    }
                }
            }
        }
        b += 1;
    }
    assert(views(keys@).take(b as int) =~= views(keys@));
    assert(usages@.take(b as int) =~= usages@);
    out
}

fn daily_costs(keys: &Vec<(String, String)>, usages: &Vec<Usage>) -> (r: Vec<DailyCost>)
    requires
        keys@.len() == usages@.len(),
    ensures
        day_keys(r@) == pair_views(keys@),
        day_usages(r@) == usages@,
{
    let mut out: Vec<DailyCost> = Vec::new();
    let mut b: usize = 0;
    while b < keys.len()
        invariant
            b <= keys@.len(),
            out@.len() == b,
            keys@.len() == usages@.len(),
            day_keys(out@) =~= pair_views(keys@).take(b as int),
            day_usages(out@) =~= usages@.take(b as int),
        decreases keys@.len() - b,
    {
        let ghost prev = out@;
        out.push(DailyCost { date: keys[b].0.clone(), model: keys[b].1.clone(), usage: usages[b] });
        proof {
            assert(out@ == prev.push(out@.last()));
            assert(day_keys(out@) =~= pair_views(keys@).take(b + 1)) by {
                assert forall|x: int| 0 <= x < b + 1 implies #[trigger] day_keys(out@)[x] == pair_views(keys@).take(b + 1)[x] by {
                    if x < b {
                        assert(out@[x] == prev[x]);
                    }
                }
            }
            assert(day_usages(out@) =~= usages@.take(b + 1)) by {
                assert forall|x: int| 0 <= x < b + 1 implies #[trigger] day_usages(out@)[x] == usages@.take(b + 1)[x] by {
                    if x < b {
                        assert(out@[x] == prev[x]);
                    }
                }
            }
        }
        b += 1;
    }
    assert(pair_views(keys@).take(b as int) =~= pair_views(keys@));
    assert(usages@.take(b as int) =~= usages@);
    out
}

/// Each session cost is labelled by its id, has no request times, and lists
/// the session's models.
pub open spec fn sessions_described(v: Seq<SessionCost>, rows: Seq<DailyUsageRow>) -> bool {
    forall|b: int|
        0 <= b < v.len() ==> {
            &&& (#[trigger] v[b]).session_label@ == v[b].session_id@
            &&& v[b].first_request@.len() == 0
            &&& v[b].last_request@.len() == 0
            &&& views(v[b].models@) == models_of(rows, v[b].session_id@)
        }
}

fn session_costs(rows: &Vec<DailyUsageRow>, keys: &Vec<String>, usages: &Vec<Usage>) -> (r: Vec<SessionCost>)
    requires
        keys@.len() == usages@.len(),
    ensures
        session_keys(r@) == views(keys@),
        session_usages(r@) == usages@,
        sessions_described(r@, rows@),
{
    let mut out: Vec<SessionCost> = Vec::new();
    let mut b: usize = 0;
    while b < keys.len()
        invariant
            b <= keys@.len(),
            out@.len() == b,
            keys@.len() == usages@.len(),
            session_keys(out@) =~= views(keys@).take(b as int),
            session_usages(out@) =~= usages@.take(b as int),
            sessions_described(out@, rows@),
        decreases keys@.len() - b,
    {
        let models = session_models(rows, keys[b].as_str());
        let c = SessionCost {
            session_id: keys[b].clone(),
            session_label: keys[b].clone(),
            usage: usages[b],
            first_request: String::new(),
            last_request: String::new(),
            models,
        };
        let ghost old_out = out@;
        out.push(c);
        proof {
            assert(session_keys(out@) =~= views(keys@).take(b + 1)) by {
                assert forall|x: int| 0 <= x < b + 1 implies #[trigger] session_keys(out@)[x] == views(keys@).take(b + 1)[x] by {
                    if x < b {
                        assert(out@[x] == old_out[x]);
                    }
                }
            }
            assert(session_usages(out@) =~= usages@.take(b + 1)) by {
                assert forall|x: int| 0 <= x < b + 1 implies #[trigger] session_usages(out@)[x] == usages@.take(b + 1)[x] by {
                    if x < b {
                        assert(out@[x] == old_out[x]);
                    }
                }
            }
            assert forall|x: int| 0 <= x < out@.len() implies {
                &&& (#[trigger] out@[x]).session_label@ == out@[x].session_id@
                &&& out@[x].first_request@.len() == 0
                &&& out@[x].last_request@.len() == 0
                &&& views(out@[x].models@) == models_of(rows@, out@[x].session_id@)
            } by {
                if x < old_out.len() {
                    assert(out@[x] == old_out[x]);
                }
            }
        }
        b += 1;
    }
    assert(views(keys@).take(b as int) =~= views(keys@));
    assert(usages@.take(b as int) =~= usages@);
    out
}

/// Aggregates daily usage rows into the cost report of `from..to`: totals per
/// model and per provider (largest input first), per session (with the models
/// it used), and per day and model (earliest date first).
pub fn aggregate_costs(rows: &Vec<DailyUsageRow>, from: &str, to: &str) -> (r: CostData)
    requires
        totals_fit(totals_all(rows@)),
    ensures
        r.from@ == from@,
        r.to@ == to@,
        groups_exactly(model_keys(r.by_model@), model_usages(r.by_model@), rows@, key_fn(GroupBy::Model)),
        input_desc(model_usages(r.by_model@)),
        groups_exactly(
            provider_keys(r.by_provider@),
            provider_usages(r.by_provider@),
            rows@,
            key_fn(GroupBy::Provider),
        ),
        input_desc(provider_usages(r.by_provider@)),
        groups_exactly(
            session_keys(r.by_session@),
            session_usages(r.by_session@),
            rows@,
            key_fn(GroupBy::Session),
        ),
        sessions_described(r.by_session@, rows@),
        groups_exactly(day_keys(r.by_day@), day_usages(r.by_day@), rows@, day_key_fn()),
        date_asc(day_keys(r.by_day@)),
{
    let (mk, mu) = group_by_text(rows, GroupBy::Model);
    let (mk2, mu2) = sort_by_input_desc(&mk, &mu);
    proof {
        lemma_rearranged_groups(views(mk@), mu@, views(mk2@), mu2@, rows@, key_fn(GroupBy::Model));
    }
    let by_model = model_costs(&mk2, &mu2);
    let (pk, pu) = group_by_text(rows, GroupBy::Provider);
    let (pk2, pu2) = sort_by_input_desc(&pk, &pu);
    proof {
        lemma_rearranged_groups(views(pk@), pu@, views(pk2@), pu2@, rows@, key_fn(GroupBy::Provider));
    }
    let by_provider = provider_costs(&pk2, &pu2);
    let (sk, su) = group_by_text(rows, GroupBy::Session);
    let by_session = session_costs(rows, &sk, &su);
    let (dk, du) = group_by_day(rows);
    let (dk2, du2) = sort_by_date(&dk, &du);
    proof {
        lemma_rearranged_groups(pair_views(dk@), du@, pair_views(dk2@), du2@, rows@, day_key_fn());
    }
    let by_day = daily_costs(&dk2, &du2);
    CostData { from: owned(from), to: owned(to), by_model, by_provider, by_session, by_day }
}

/// The report of an unset date range: both bounds empty and no groups.
pub fn empty_costs() -> (r: CostData)
    ensures
        r.from@.len() == 0,
        r.to@.len() == 0,
        r.by_model@.len() == 0,
        r.by_provider@.len() == 0,
        r.by_session@.len() == 0,
        r.by_day@.len() == 0,
{
    CostData {
        from: String::new(),
        to: String::new(),
        by_model: Vec::new(),
        by_provider: Vec::new(),
        by_session: Vec::new(),
        by_day: Vec::new(),
    }
}


/// Whether every total of the rows fits in `u64`, so that they can be aggregated.
pub fn usage_fits(rows: &Vec<DailyUsageRow>) -> (b: bool)
    ensures
        b == totals_fit(totals_all(rows@)),
{
    let mut t = zero_usage();
    let mut i: usize = 0;
    proof {
        assert(rows@.take(0) =~= Seq::<DailyUsageRow>::empty());
    }
    while i < rows.len()
        invariant
            i <= rows@.len(),
            usage_is(t, totals_all(rows@.take(i as int))),
        decreases rows@.len() - i,
    {
        let r = &rows[i];
        proof {
            assert(rows@.take(i + 1).drop_last() =~= rows@.take(i as int));
            assert(rows@.take(i + 1).last() == rows@[i as int]);
        }
        if t.input_tokens > u64::MAX - r.input_tokens || t.output_tokens > u64::MAX - r.output_tokens
            || t.cache_creation_tokens > u64::MAX - r.cache_creation_tokens
            || t.cache_read_tokens > u64::MAX - r.cache_read_tokens
            || t.request_count > u64::MAX - r.task_count {
            proof {
                lemma_totals_prefix(rows@, i + 1);
            }
            return false;
        }
        add_row(&mut t, r);
        i += 1;
    }
    proof {
        assert(rows@.take(i as int) =~= rows@);
    }
    true
}

/// A copy of a usage row.
pub fn copy_row(r: &DailyUsageRow) -> (c: DailyUsageRow)
    ensures
        c == *r,
{
    DailyUsageRow {
        usage_date: r.usage_date.clone(),
        session_id: r.session_id.clone(),
        model: r.model.clone(),
        provider: r.provider.clone(),
        input_tokens: r.input_tokens,
        output_tokens: r.output_tokens,
        cache_creation_tokens: r.cache_creation_tokens,
        cache_read_tokens: r.cache_read_tokens,
        task_count: r.task_count,
    }
}

/// A date within `from..=to`, where a missing bound does not limit.
pub open spec fn date_in(d: Seq<char>, from: Option<Seq<char>>, to: Option<Seq<char>>) -> bool {
    &&& match from {
        Some(f) => !seq_lt(d, f),
        None => true,
    }
    &&& match to {
        Some(t) => !seq_lt(t, d),
        None => true,
    }
}

/// The rows dated within the bounds, in order.
pub open spec fn rows_dated(rows: Seq<DailyUsageRow>, from: Option<Seq<char>>, to: Option<Seq<char>>) -> Seq<
    DailyUsageRow,
> {
    rows.filter(|r: DailyUsageRow| date_in(r.usage_date@, from, to))
}

/// The usage rows dated from `from` to `to`, both included; a missing bound
/// does not limit. Dates compare as text (`YYYY-MM-DD`).
pub fn usage_dated(rows: &Vec<DailyUsageRow>, from: Option<&str>, to: Option<&str>) -> (r: Vec<DailyUsageRow>)
    ensures
        r@ == rows_dated(
            rows@,
            match from {
                Some(f) => Some(f@),
                None => None,
            },
            match to {
                Some(t) => Some(t@),
                None => None,
            },
        ),
{
    let ghost fv = match from {
        Some(f) => Some(f@),
        None => None::<Seq<char>>,
    };
    let ghost tv = match to {
        Some(t) => Some(t@),
        None => None::<Seq<char>>,
    };
    let mut out: Vec<DailyUsageRow> = Vec::new();
    let mut i: usize = 0;
    while i < rows.len()
        invariant
            i <= rows@.len(),
            fv == match from {
                Some(f) => Some(f@),
                None => None,
            },
            tv == match to {
                Some(t) => Some(t@),
                None => None,
            },
            out@ == rows_dated(rows@.take(i as int), fv, tv),
        decreases rows.len() - i,
    {
        proof {
            reveal_with_fuel(Seq::filter, 1);
            assert(rows@.take(i + 1).drop_last() =~= rows@.take(i as int));
        }
        let d = rows[i].usage_date.as_str();
        let after_from = match from {
            Some(f) => !str_lt(d, f),
            None => true,
        };
        let before_to = match to {
            Some(t) => !str_lt(t, d),
            None => true,
        };
        if after_from && before_to {
            out.push(copy_row(&rows[i]));
        }
        i += 1;
    }
    assert(rows@.take(i as int) =~= rows@);
    out
}

/// The sessions of the last `k` rows, newest first: each session where its
/// latest row stands, scanning from the end.
pub open spec fn sessions_from_end(rows: Seq<DailyUsageRow>, k: nat) -> Seq<Seq<char>>
    decreases k,
{
    if k == 0 || k > rows.len() {
        Seq::empty()
    } else {
        let p = sessions_from_end(rows, (k - 1) as nat);
        let s = rows[rows.len() - k].session_id@;
        if p.contains(s) {
            p
        } else {
            p.push(s)
        }
    }
}

/// The sessions of the rows ordered by their latest row, newest first.
pub open spec fn recent_sessions(rows: Seq<DailyUsageRow>) -> Seq<Seq<char>> {
    sessions_from_end(rows, rows.len())
}

/// The rows of the newest `n` sessions (by their latest row), in order.
pub open spec fn rows_of_recent(rows: Seq<DailyUsageRow>, n: nat) -> Seq<DailyUsageRow> {
    let keep = if n < recent_sessions(rows).len() {
        recent_sessions(rows).take(n as int)
    } else {
        recent_sessions(rows)
    };
    rows.filter(|r: DailyUsageRow| keep.contains(r.session_id@))
}

/// The sessions of the rows, newest first.
pub fn sessions_newest_first(rows: &Vec<DailyUsageRow>) -> (r: Vec<String>)
    ensures
        views(r@) == recent_sessions(rows@),
{
    let mut out: Vec<String> = Vec::new();
    let mut k: usize = 0;
    while k < rows.len()
        invariant
            k <= rows@.len(),
            views(out@) == sessions_from_end(rows@, k as nat),
        decreases rows.len() - k,
    {
        let s = &rows[rows.len() - 1 - k].session_id;
        let seen = contains_str(&out, s.as_str());
        proof {
            let p = sessions_from_end(rows@, k as nat);
            if seen {
                let j = choose|j: int| 0 <= j < out@.len() && #[trigger] out@[j]@ == s@;
                assert(views(out@)[j] == s@);
                assert(p.contains(s@));
            } else {
                if p.contains(s@) {
                    let j = choose|j: int| 0 <= j < p.len() && p[j] == s@;
                    assert(out@[j]@ == views(out@)[j]);
                }
            }
        }
        if !seen {
            let ghost before = out@;
            out.push(s.clone());
            assert(views(out@) =~= views(before).push(s@));
        }
        k += 1;
    }
    out
}

/// The rows of the newest `n` sessions, by their latest row; the others are
/// dropped.
pub fn keep_recent_sessions(rows: &Vec<DailyUsageRow>, n: u64) -> (r: Vec<DailyUsageRow>)
    ensures
        r@ == rows_of_recent(rows@, n as nat),
{
    let order = sessions_newest_first(rows);
    let mut keep: Vec<String> = Vec::new();
    let mut j: usize = 0;
    while j < order.len() && (j as u64) < n
        invariant
            j <= order@.len(),
            j <= n,
            views(keep@) == views(order@).take(j as int),
        decreases order.len() - j,
    {
        let ghost before = keep@;
        keep.push(order[j].clone());
        assert(views(keep@) =~= views(before).push(order@[j as int]@));
        assert(views(keep@) =~= views(order@).take(j + 1));
        j += 1;
    }
    let ghost kv = if (n as nat) < recent_sessions(rows@).len() {
        recent_sessions(rows@).take(n as int)
    } else {
        recent_sessions(rows@)
    };
    proof {
        if j == order.len() {
            assert(views(order@).take(j as int) =~= views(order@));
        }
    }
    assert(views(keep@) == kv);
    let mut out: Vec<DailyUsageRow> = Vec::new();
    let mut i: usize = 0;
    while i < rows.len()
        invariant
            i <= rows@.len(),
            views(keep@) == kv,
            out@ == rows@.take(i as int).filter(|r: DailyUsageRow| kv.contains(r.session_id@)),
        decreases rows.len() - i,
    {
        proof {
            reveal_with_fuel(Seq::filter, 1);
            assert(rows@.take(i + 1).drop_last() =~= rows@.take(i as int));
        }
        let found = contains_str(&keep, rows[i].session_id.as_str());
        proof {
            let s = rows@[i as int].session_id@;
            if found {
                let x = choose|x: int| 0 <= x < keep@.len() && #[trigger] keep@[x]@ == s;
                assert(views(keep@)[x] == s);
            } else if kv.contains(s) {
                let x = choose|x: int| 0 <= x < kv.len() && kv[x] == s;
                assert(keep@[x]@ == views(keep@)[x]);
            }
        }
        if found {
            out.push(copy_row(&rows[i]));
        }
        i += 1;
    }
    assert(rows@.take(i as int) =~= rows@);
    out
}

} // verus!
