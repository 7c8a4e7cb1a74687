//! Timeline assembly: interactions, their execution runs, the model calls of
//! each run and the tool invocations of each call.

use vstd::prelude::*;

use super::domain::{
    call_status_name, run_kind_name, tool_status_name, ExecutionRunRow, InteractionRow,
    ModelCallRow, RunKind, ToolInvocationRow,
};
use crate::text::{decimal, opt_view, owned, push_str, str_eq};

verus! {

/// The timeline document of a session.
#[derive(Debug)]
pub struct TimelineDocument {
    pub session_id: String,
    pub total_model_calls: usize,
    pub user_interactions: usize,
    pub interactions: Vec<InteractionNode>,
}

/// A user interaction with its execution runs.
#[derive(Debug)]
pub struct InteractionNode {
    pub id: String,
    pub prompt_text: Option<String>,
    pub started_at: i64,
    pub ended_at: Option<i64>,
    pub status: String,
    pub runs: Vec<ExecutionRunNode>,
}

/// An execution run with its model calls.
#[derive(Debug)]
pub struct ExecutionRunNode {
    pub id: String,
    pub run_kind: String,
    pub started_at: i64,
    pub status: String,
    pub tool_call_count: usize,
    pub model_calls: Vec<ModelCallNode>,
}

/// A model call with its tool invocations.
#[derive(Debug)]
pub struct ModelCallNode {
    pub id: String,
    pub sequence_no: i64,
    pub previous_model_call_id: Option<String>,
    pub status: String,
    pub started_at: i64,
    pub resolved_model: String,
    pub provider: String,
    pub input_tokens: i64,
    pub output_tokens: i64,
    pub cost_microusd: i64,
    pub duration_ms: Option<i64>,
    pub ttft_ms: Option<i64>,
    pub stop_reason: Option<String>,
    pub prompt: Option<String>,
    pub operations: Vec<ToolNode>,
}

/// A tool invocation within a model call.
#[derive(Debug)]
pub struct ToolNode {
    pub tool_use_id: Option<String>,
    pub operation_seq: i64,
    pub tool_name: String,
    pub status: String,
    pub input_preview: Option<String>,
    pub result_preview: Option<String>,
}

/// The first present of two optional texts.
pub open spec fn or_text(a: Option<String>, b: Option<String>) -> Option<Seq<char>> {
    if a is Some {
        opt_view(a)
    } else {
        opt_view(b)
    }
}

/// `n` shows tool invocation `t`: the effective previews when present, else the raw ones.
pub open spec fn tool_node_is(n: ToolNode, t: ToolInvocationRow) -> bool {
    &&& opt_view(n.tool_use_id) == opt_view(t.tool_use_id)
    &&& n.operation_seq == t.operation_seq
    &&& n.tool_name@ == t.tool_name@
    &&& n.status@ == tool_status_name(t.status)
    &&& opt_view(n.input_preview) == or_text(t.effective_input_preview, t.model_input_preview)
    &&& opt_view(n.result_preview) == or_text(t.effective_result_preview, t.raw_result_preview)
}

/// `n` shows model call `c` with its tool invocations `tools`, in order.
pub open spec fn call_node_is(n: ModelCallNode, c: ModelCallRow, tools: Seq<ToolInvocationRow>) -> bool {
    &&& n.id@ == c.id@
    &&& n.sequence_no == c.sequence_no
    &&& opt_view(n.previous_model_call_id) == opt_view(c.previous_model_call_id)
    &&& n.status@ == call_status_name(c.status)
    &&& n.started_at == c.started_at
    &&& n.resolved_model@ == c.resolved_model@
    &&& n.provider@ == c.provider@
    &&& n.input_tokens == c.input_tokens
    &&& n.output_tokens == c.output_tokens
    &&& n.cost_microusd == c.cost_microusd
    &&& n.duration_ms == c.duration_ms
    &&& n.ttft_ms == c.ttft_ms
    &&& opt_view(n.stop_reason) == opt_view(c.stop_reason)
    &&& n.prompt is None
    &&& n.operations@.len() == tools.len()
    &&& forall|i: int| 0 <= i < tools.len() ==> tool_node_is(#[trigger] n.operations@[i], tools[i])
}

fn copy_opt(o: &Option<String>) -> (r: Option<String>)
    ensures
        opt_view(r) == opt_view(*o),
{
    crate::text::copy_opt(o)
}

fn first_text(a: &Option<String>, b: &Option<String>) -> (r: Option<String>)
    ensures
        opt_view(r) == or_text(*a, *b),
{
    if a.is_some() {
        copy_opt(a)
    } else {
        copy_opt(b)
    }
}

/// The timeline node of a model call and its tool invocations.
pub fn call_to_node(call: &ModelCallRow, tools: &Vec<ToolInvocationRow>) -> (r: ModelCallNode)
    ensures
        call_node_is(r, *call, tools@),
{
    let mut ops: Vec<ToolNode> = Vec::new();
    let mut i: usize = 0;
    while i < tools.len()
        invariant
            i <= tools@.len(),
            ops@.len() == i,
            forall|j: int| 0 <= j < i ==> tool_node_is(#[trigger] ops@[j], tools@[j]),
        decreases tools@.len() - i,
    {
        let t = &tools[i];
        ops.push(
            ToolNode {
                tool_use_id: copy_opt(&t.tool_use_id),
                operation_seq: t.operation_seq,
                tool_name: t.tool_name.clone(),
                status: owned(t.status.as_str()),
                input_preview: first_text(&t.effective_input_preview, &t.model_input_preview),
                result_preview: first_text(&t.effective_result_preview, &t.raw_result_preview),
            },
        );
        i += 1;
    }
    ModelCallNode {
        id: call.id.clone(),
        sequence_no: call.sequence_no,
        previous_model_call_id: copy_opt(&call.previous_model_call_id),
        status: owned(call.status.as_str()),
        started_at: call.started_at,
        resolved_model: call.resolved_model.clone(),
        provider: call.provider.clone(),
        input_tokens: call.input_tokens,
        output_tokens: call.output_tokens,
        cost_microusd: call.cost_microusd,
        duration_ms: call.duration_ms,
        ttft_ms: call.ttft_ms,
        stop_reason: copy_opt(&call.stop_reason),
        prompt: None,
        operations: ops,
    }
}

/// The positions of the calls of run `run_id`, in call order.
pub open spec fn calls_of_run(calls: Seq<ModelCallRow>, run_id: Seq<char>) -> Seq<int>
    decreases calls.len(),
{
    if calls.len() == 0 {
        Seq::empty()
    } else {
        let prev = calls_of_run(calls.drop_last(), run_id);
        if opt_view(calls.last().execution_run_id) == Some(run_id) {
            prev.push(calls.len() - 1)
        } else {
            prev
        }
    }
}

/// The number of tool invocations of the calls at the given positions.
pub open spec fn tool_total(idx: Seq<int>, tools: Seq<Vec<ToolInvocationRow>>) -> nat
    decreases idx.len(),
{
    if idx.len() == 0 {
        0
    } else {
        tool_total(idx.drop_last(), tools) + tools[idx.last()]@.len()
    }
}

/// `n` shows run `run` with the calls at positions `idx`, their tool
/// invocations and their count.
pub open spec fn run_node_with(
    n: ExecutionRunNode,
    run: ExecutionRunRow,
    idx: Seq<int>,
    calls: Seq<ModelCallRow>,
    tools: Seq<Vec<ToolInvocationRow>>,
) -> bool {
    &&& n.id@ == run.id@
    &&& n.run_kind@ == run_kind_name(run.run_kind)
    &&& n.started_at == run.started_at
    &&& n.status@ == run.status@
    &&& n.tool_call_count == tool_total(idx, tools)
    &&& n.model_calls@.len() == idx.len()
    &&& forall|j: int|
        0 <= j < idx.len() ==> call_node_is(
            #[trigger] n.model_calls@[j],
            calls[idx[j]],
            tools[idx[j]]@,
        )
}

proof fn lemma_calls_of_run_bounds(calls: Seq<ModelCallRow>, run_id: Seq<char>)
    ensures
        forall|j: int|
            0 <= j < calls_of_run(calls, run_id).len() ==> 0 <= #[trigger] calls_of_run(
                calls,
                run_id,
            )[j] < calls.len(),
    decreases calls.len(),
{
    if calls.len() > 0 {
        lemma_calls_of_run_bounds(calls.drop_last(), run_id);
        let prev = calls_of_run(calls.drop_last(), run_id);
        let cur = calls_of_run(calls, run_id);
        assert forall|j: int| 0 <= j < cur.len() implies 0 <= #[trigger] cur[j] < calls.len() by {
            if j < prev.len() {
                assert(cur[j] == prev[j]);
            }
        }
    }
}

proof fn lemma_tool_total_prefix(
    calls: Seq<ModelCallRow>,
    run_id: Seq<char>,
    tools: Seq<Vec<ToolInvocationRow>>,
    i: int,
    j: int,
)
    requires
        0 <= i <= j <= calls.len(),
    ensures
        tool_total(calls_of_run(calls.take(i), run_id), tools) <= tool_total(
            calls_of_run(calls.take(j), run_id),
            tools,
        ),
    decreases j - i,
{
    if i < j {
        lemma_tool_total_prefix(calls, run_id, tools, i, j - 1);
        assert(calls.take(j).drop_last() =~= calls.take(j - 1));
        let prev = calls_of_run(calls.take(j - 1), run_id);
        let cur = calls_of_run(calls.take(j), run_id);
        if cur.len() > prev.len() {
            assert(cur == prev.push(j - 1));
            assert(cur.drop_last() =~= prev);
        } else {
            assert(cur == prev);
        }
    }
}

/// The runs filed under an interaction key (`None`: runs of no interaction), in order.
pub open spec fn runs_for(runs: Seq<ExecutionRunRow>, key: Option<Seq<char>>) -> Seq<ExecutionRunRow>
    decreases runs.len(),
{
    if runs.len() == 0 {
        Seq::empty()
    } else {
        let prev = runs_for(runs.drop_last(), key);
        if opt_view(runs.last().interaction_id) == key {
            prev.push(runs.last())
        } else {
            prev
        }
    }
}

/// The runs of the interactions, interaction by interaction.
pub open spec fn inter_runs(inters: Seq<InteractionRow>, runs: Seq<ExecutionRunRow>) -> Seq<
    ExecutionRunRow,
>
    decreases inters.len(),
{
    if inters.len() == 0 {
        Seq::empty()
    } else {
        inter_runs(inters.drop_last(), runs) + runs_for(runs, Some(inters.last().id@))
    }
}

/// The order in which runs are placed: under each interaction, then the runs
/// of no interaction.
pub open spec fn visit_seq(inters: Seq<InteractionRow>, runs: Seq<ExecutionRunRow>) -> Seq<
    ExecutionRunRow,
> {
    inter_runs(inters, runs) + runs_for(runs, None)
}

/// A run with the same id was placed earlier; its calls went there.
pub open spec fn seen_before(v: Seq<ExecutionRunRow>, p: int) -> bool {
    exists|q: int| 0 <= q < p && v[q].id@ == v[p].id@
}

/// The calls shown under the run placed at position `p`: none when its id was
/// placed before, else all of the run's calls.
pub open spec fn placed_calls(v: Seq<ExecutionRunRow>, p: int, calls: Seq<ModelCallRow>) -> Seq<int> {
    if seen_before(v, p) {
        Seq::empty()
    } else {
        calls_of_run(calls, v[p].id@)
    }
}

/// The earliest start among runs.
pub open spec fn min_started(rs: Seq<ExecutionRunRow>) -> i64
    decreases rs.len(),
{
    if rs.len() == 0 {
        0
    } else if rs.len() == 1 {
        rs[0].started_at
    } else {
        let m = min_started(rs.drop_last());
        if rs.last().started_at < m {
            rs.last().started_at
        } else {
            m
        }
    }
}

/// Whether some run is a main run.
pub open spec fn has_main(rs: Seq<ExecutionRunRow>) -> bool {
    exists|i: int| 0 <= i < rs.len() && #[trigger] rs[i].run_kind == RunKind::Main
}

/// The number of interactions with a main run.
pub open spec fn main_interactions(inters: Seq<InteractionRow>, runs: Seq<ExecutionRunRow>) -> nat
    decreases inters.len(),
{
    if inters.len() == 0 {
        0
    } else {
        main_interactions(inters.drop_last(), runs) + if has_main(
            runs_for(runs, Some(inters.last().id@)),
        ) {
            1nat
        } else {
            0nat
        }
    }
}

/// `n` shows the runs placed at positions `start..` of `v`.
pub open spec fn runs_placed(
    n: Seq<ExecutionRunNode>,
    v: Seq<ExecutionRunRow>,
    start: int,
    calls: Seq<ModelCallRow>,
    tools: Seq<Vec<ToolInvocationRow>>,
) -> bool {
    forall|j: int|
        0 <= j < n.len() ==> run_node_with(
            #[trigger] n[j],
            v[start + j],
            placed_calls(v, start + j, calls),
            calls,
            tools,
        )
}

/// `n` shows interaction `k` with its runs, placed in the visiting order.
pub open spec fn inter_node_is(
    n: InteractionNode,
    inters: Seq<InteractionRow>,
    k: int,
    runs: Seq<ExecutionRunRow>,
    calls: Seq<ModelCallRow>,
    tools: Seq<Vec<ToolInvocationRow>>,
) -> bool {
    let i = inters[k];
    &&& n.id@ == i.id@
    &&& opt_view(n.prompt_text) == opt_view(i.prompt_text)
    &&& n.started_at == i.started_at
    &&& n.ended_at == i.ended_at
    &&& n.status@ == i.status@
    &&& n.runs@.len() == runs_for(runs, Some(i.id@)).len()
    &&& runs_placed(
        n.runs@,
        visit_seq(inters, runs),
        inter_runs(inters.take(k), runs).len() as int,
        calls,
        tools,
    )
}

/// What `build_timeline` returns: one node per interaction, with its runs;
/// then, when some run belongs to no interaction, an internal node with those
/// runs. A run's calls are shown under the first placement of its id only.
pub open spec fn timeline_is(
    d: TimelineDocument,
    session_id: Seq<char>,
    calls: Seq<ModelCallRow>,
    inters: Seq<InteractionRow>,
    runs: Seq<ExecutionRunRow>,
    tools: Seq<Vec<ToolInvocationRow>>,
) -> bool {
    let v = visit_seq(inters, runs);
    let orphans = runs_for(runs, None);
    let ns = d.interactions@;
    &&& d.session_id@ == session_id
    &&& d.total_model_calls == calls.len()
    &&& ns.len() == inters.len() + (if orphans.len() > 0 { 1int } else { 0int })
    &&& forall|k: int|
        0 <= k < inters.len() ==> inter_node_is(#[trigger] ns[k], inters, k, runs, calls, tools)
    &&& orphans.len() > 0 ==> {
        let n = ns[inters.len() as int];
        &&& n.id@ == "inter-"@ + session_id + "-internal"@
        &&& n.prompt_text is None
        &&& n.started_at == min_started(orphans)
        &&& n.ended_at is None
        &&& n.status@ == "completed"@
        &&& n.runs@.len() == orphans.len()
        &&& runs_placed(n.runs@, v, inter_runs(inters, runs).len() as int, calls, tools)
    }
    &&& d.user_interactions == main_interactions(inters, runs) + (if has_main(orphans) {
        1int
    } else {
        0int
    })
}

/// The ids of runs.
pub open spec fn ids_of(rs: Seq<ExecutionRunRow>) -> Seq<Seq<char>> {
    rs.map_values(|r: ExecutionRunRow| r.id@)
}

proof fn lemma_placed_prefix(u: Seq<ExecutionRunRow>, w: Seq<ExecutionRunRow>, p: int, calls: Seq<ModelCallRow>)
    requires
        u.len() <= w.len(),
        u == w.take(u.len() as int),
        0 <= p < u.len(),
    ensures
        u[p] == w[p],
        placed_calls(u, p, calls) == placed_calls(w, p, calls),
{
    assert(u[p] == w[p]);
    if seen_before(u, p) {
        let q = choose|q: int| 0 <= q < p && u[q].id@ == u[p].id@;
        assert(w[q] == u[q]);
    }
    if seen_before(w, p) {
        let q = choose|q: int| 0 <= q < p && w[q].id@ == w[p].id@;
        assert(w[q] == u[q]);
    }
}

proof fn lemma_runs_placed_extend(
    n: Seq<ExecutionRunNode>,
    u: Seq<ExecutionRunRow>,
    w: Seq<ExecutionRunRow>,
    start: int,
    calls: Seq<ModelCallRow>,
    tools: Seq<Vec<ToolInvocationRow>>,
)
    requires
        runs_placed(n, u, start, calls, tools),
        u.len() <= w.len(),
        u == w.take(u.len() as int),
        0 <= start,
        start + n.len() <= u.len(),
    ensures
        runs_placed(n, w, start, calls, tools),
{
    assert forall|j: int| 0 <= j < n.len() implies run_node_with(
        #[trigger] n[j],
        w[start + j],
        placed_calls(w, start + j, calls),
        calls,
        tools,
    ) by {
        lemma_placed_prefix(u, w, start + j, calls);
    }
}

fn run_node(
    run: &ExecutionRunRow,
    fresh: bool,
    calls: &Vec<ModelCallRow>,
    tools: &Vec<Vec<ToolInvocationRow>>,
) -> (r: ExecutionRunNode)
    requires
        tools@.len() == calls@.len(),
        fresh ==> tool_total(calls_of_run(calls@, run.id@), tools@) <= usize::MAX,
    ensures
        run_node_with(
            r,
            *run,
            if fresh {
                calls_of_run(calls@, run.id@)
            } else {
                Seq::empty()
            },
            calls@,
            tools@,
        ),
{
    let mut nodes: Vec<ModelCallNode> = Vec::new();
    let mut count: usize = 0;
    if fresh {
        let mut i: usize = 0;
        proof {
            assert(calls@.take(0) =~= Seq::<ModelCallRow>::empty());
        }
        while i < calls.len()
            invariant
                i <= calls@.len(),
                tools@.len() == calls@.len(),
                tool_total(calls_of_run(calls@, run.id@), tools@) <= usize::MAX,
                count == tool_total(calls_of_run(calls@.take(i as int), run.id@), tools@),
                nodes@.len() == calls_of_run(calls@.take(i as int), run.id@).len(),
                forall|j: int|
                    0 <= j < nodes@.len() ==> call_node_is(
                        #[trigger] nodes@[j],
                        calls@[calls_of_run(calls@.take(i as int), run.id@)[j]],
                        tools@[calls_of_run(calls@.take(i as int), run.id@)[j]]@,
                    ),
            decreases calls@.len() - i,
        {
            let ghost prev = calls_of_run(calls@.take(i as int), run.id@);
            assert(calls@.take(i + 1).drop_last() =~= calls@.take(i as int));
            assert(calls@.take(i + 1).last() == calls@[i as int]);
            let c = &calls[i];
            let matches = match &c.execution_run_id {
                Some(rid) => str_eq(rid.as_str(), run.id.as_str()),
                None => false,
            };
            if matches {
                proof {
                    let cur = calls_of_run(calls@.take(i + 1), run.id@);
                    assert(cur == prev.push(i as int));
                    assert(cur.drop_last() =~= prev);
                    lemma_tool_total_prefix(calls@, run.id@, tools@, i + 1, calls@.len() as int);
                    assert(calls@.take(calls@.len() as int) =~= calls@);
                }
                let node = call_to_node(c, &tools[i]);
                nodes.push(node);
                count = count + tools[i].len();
            }
            i += 1;
        }
        assert(calls@.take(i as int) =~= calls@);
    }
    ExecutionRunNode {
        id: run.id.clone(),
        run_kind: owned(run.run_kind.as_str()),
        started_at: run.started_at,
        status: run.status.clone(),
        tool_call_count: count,
        model_calls: nodes,
    }
}

fn key_matches(id: &Option<String>, key: &Option<String>) -> (b: bool)
    ensures
        b == (opt_view(*id) == opt_view(*key)),
{
    match (id, key) {
        (Some(a), Some(b)) => str_eq(a.as_str(), b.as_str()),
        (None, None) => true,
        _ => false,
    }
}

/// Places the runs filed under `key` after the runs `vv` already placed.
fn place_runs(
    key: &Option<String>,
    runs: &Vec<ExecutionRunRow>,
    calls: &Vec<ModelCallRow>,
    tools: &Vec<Vec<ToolInvocationRow>>,
    visited: &mut Vec<String>,
    Ghost(vv): Ghost<Seq<ExecutionRunRow>>,
) -> (r: (Vec<ExecutionRunNode>, bool))
    requires
        crate::text::views(old(visited)@) == ids_of(vv),
        tools@.len() == calls@.len(),
        forall|i: int|
            0 <= i < runs@.len() ==> tool_total(calls_of_run(calls@, #[trigger] runs@[i].id@), tools@)
                <= usize::MAX,
    ensures
        crate::text::views(final(visited)@) == ids_of(vv + runs_for(runs@, opt_view(*key))),
        r.0@.len() == runs_for(runs@, opt_view(*key)).len(),
        runs_placed(r.0@, vv + runs_for(runs@, opt_view(*key)), vv.len() as int, calls@, tools@),
        r.1 == has_main(runs_for(runs@, opt_view(*key))),
{
    let ghost k = opt_view(*key);
    let mut nodes: Vec<ExecutionRunNode> = Vec::new();
    let mut main = false;
    let mut j: usize = 0;
    proof {
        assert(runs@.take(0) =~= Seq::<ExecutionRunRow>::empty());
        assert(vv + Seq::<ExecutionRunRow>::empty() =~= vv);
    }
    while j < runs.len()
        invariant
            j <= runs@.len(),
            k == opt_view(*key),
            tools@.len() == calls@.len(),
            forall|i: int|
                0 <= i < runs@.len() ==> tool_total(calls_of_run(calls@, #[trigger] runs@[i].id@), tools@)
                    <= usize::MAX,
            crate::text::views(visited@) == ids_of(vv + runs_for(runs@.take(j as int), k)),
            nodes@.len() == runs_for(runs@.take(j as int), k).len(),
            runs_placed(nodes@, vv + runs_for(runs@.take(j as int), k), vv.len() as int, calls@, tools@),
            main == has_main(runs_for(runs@.take(j as int), k)),
        decreases runs@.len() - j,
    {
        let ghost placed = runs_for(runs@.take(j as int), k);
        let ghost u = vv + placed;
        assert(runs@.take(j + 1).drop_last() =~= runs@.take(j as int));
        assert(runs@.take(j + 1).last() == runs@[j as int]);
        let run = &runs[j];
        if key_matches(&run.interaction_id, key) {
            let ghost w = u.push(*run);
            let fresh = !crate::text::contains_str(visited, run.id.as_str());
            proof {
                assert(runs_for(runs@.take(j + 1), k) == placed.push(*run));
                assert(vv + placed.push(*run) =~= w);
                assert(w[u.len() as int] == *run);
                if fresh {
                    assert(crate::text::views(visited@).len() == visited@.len());
                    assert(ids_of(u).len() == u.len());
                    assert forall|q: int| 0 <= q < u.len() implies w[q].id@ != run.id@ by {
                        assert(crate::text::views(visited@)[q] == visited@[q]@);
                        assert(ids_of(u)[q] == u[q].id@);
                        assert(w[q] == u[q]);
                    }
                    assert(!seen_before(w, u.len() as int));
                } else {
                    let i = choose|i: int| 0 <= i < visited@.len() && #[trigger] visited@[i]@ == run.id@;
                    assert(crate::text::views(visited@).len() == visited@.len());
                    assert(ids_of(u).len() == u.len());
                    assert(crate::text::views(visited@)[i] == visited@[i]@);
                    assert(ids_of(u)[i] == u[i].id@);
                    assert(w[i] == u[i]);
                    assert(seen_before(w, u.len() as int));
                }
                assert(u == w.take(u.len() as int));
                lemma_runs_placed_extend(nodes@, u, w, vv.len() as int, calls@, tools@);
            }
            let node = run_node(run, fresh, calls, tools);
            let ghost before = nodes@;
            nodes.push(node);
            let ghost bv = visited@;
            visited.push(run.id.clone());
            proof {
                assert(visited@ == bv.push(visited@.last()));
                assert(crate::text::views(bv) == ids_of(u));
                assert forall|q: int| 0 <= q < visited@.len() implies #[trigger] crate::text::views(
                    visited@,
                )[q] == ids_of(w)[q] by {
                    if q < bv.len() {
                        assert(crate::text::views(bv)[q] == bv[q]@);
                        assert(ids_of(u)[q] == u[q].id@);
                        assert(visited@[q] == bv[q]);
                        assert(w[q] == u[q]);
                    }
                }
                assert(crate::text::views(visited@) =~= ids_of(w));
                assert forall|x: int| 0 <= x < nodes@.len() implies run_node_with(
                    #[trigger] nodes@[x],
                    w[vv.len() + x],
                    placed_calls(w, vv.len() + x, calls@),
                    calls@,
                    tools@,
                ) by {
                    if x < before.len() {
                        assert(nodes@[x] == before[x]);
                    }
                }
            }
            if run.run_kind == RunKind::Main {
                main = true;
            }
            proof {
                let np = placed.push(*run);
                if has_main(placed) {
                    let i = choose|i: int| 0 <= i < placed.len() && #[trigger] placed[i].run_kind == RunKind::Main;
                    assert(np[i] == placed[i]);
                }
                if has_main(np) && !has_main(placed) {
                    let i = choose|i: int| 0 <= i < np.len() && #[trigger] np[i].run_kind == RunKind::Main;
                    if i < placed.len() {
                        assert(np[i] == placed[i]);
                    }
                }
            }
        } else {
            assert(runs_for(runs@.take(j + 1), k) == placed);
        }
        j += 1;
    }
    assert(runs@.take(j as int) =~= runs@);
    (nodes, main)
}

proof fn lemma_inter_runs_prefix(inters: Seq<InteractionRow>, runs: Seq<ExecutionRunRow>, k: int)
    requires
        0 <= k <= inters.len(),
    ensures
        inter_runs(inters.take(k), runs).len() <= inter_runs(inters, runs).len(),
        inter_runs(inters.take(k), runs) == inter_runs(inters, runs).take(
            inter_runs(inters.take(k), runs).len() as int,
        ),
    decreases inters.len() - k,
{
    if k < inters.len() {
        lemma_inter_runs_prefix(inters, runs, k + 1);
        assert(inters.take(k + 1).drop_last() =~= inters.take(k));
        let a = inter_runs(inters.take(k), runs);
        let b = inter_runs(inters.take(k + 1), runs);
        let c = inter_runs(inters, runs);
        assert(b == a + runs_for(runs, Some(inters[k].id@)));
        assert(a =~= c.take(a.len() as int));
    } else {
        assert(inters.take(k) =~= inters);
    }
}

/// Builds the timeline of a session from its model calls, interactions and
/// execution runs; `tools[i]` holds the tool invocations of `calls[i]`.
pub fn build_timeline(
    session_id: &str,
    calls: &Vec<ModelCallRow>,
    interactions: &Vec<InteractionRow>,
    runs: &Vec<ExecutionRunRow>,
    tools: &Vec<Vec<ToolInvocationRow>>,
) -> (d: TimelineDocument)
    requires
        tools@.len() == calls@.len(),
        interactions@.len() < usize::MAX,
        forall|i: int|
            0 <= i < runs@.len() ==> tool_total(calls_of_run(calls@, #[trigger] runs@[i].id@), tools@)
                <= usize::MAX,
    ensures
        timeline_is(d, session_id@, calls@, interactions@, runs@, tools@),
{
    let ghost inters = interactions@;
    let ghost v = visit_seq(inters, runs@);
    let mut visited: Vec<String> = Vec::new();
    let mut out: Vec<InteractionNode> = Vec::new();
    let mut mains: usize = 0;
    let mut k: usize = 0;
    proof {
        assert(inters.take(0) =~= Seq::<InteractionRow>::empty());
        assert(crate::text::views(visited@) =~= ids_of(Seq::<ExecutionRunRow>::empty()));
    }
    while k < interactions.len()
        invariant
            k <= inters.len(),
            inters == interactions@,
            v == visit_seq(inters, runs@),
            inters.len() < usize::MAX,
            tools@.len() == calls@.len(),
            forall|i: int|
                0 <= i < runs@.len() ==> tool_total(calls_of_run(calls@, #[trigger] runs@[i].id@), tools@)
                    <= usize::MAX,
            crate::text::views(visited@) == ids_of(inter_runs(inters.take(k as int), runs@)),
            out@.len() == k,
            forall|x: int| 0 <= x < k ==> inter_node_is(#[trigger] out@[x], inters, x, runs@, calls@, tools@),
            mains == main_interactions(inters.take(k as int), runs@),
            mains <= k,
        decreases inters.len() - k,
    {
        let inter = &interactions[k];
        let ghost vv = inter_runs(inters.take(k as int), runs@);
        let key = Some(inter.id.clone());
        let (nodes, main) = place_runs(&key, runs, calls, tools, &mut visited, Ghost(vv));
        proof {
            let placed = runs_for(runs@, Some(inter.id@));
            assert(opt_view(key) == Some(inter.id@));
            assert(inters.take(k + 1).drop_last() =~= inters.take(k as int));
            assert(inters.take(k + 1).last() == inter);
            assert(inter_runs(inters.take(k + 1), runs@) == vv + placed);
            lemma_inter_runs_prefix(inters, runs@, k + 1);
            let u = vv + placed;
            assert(u =~= v.take(u.len() as int));
            lemma_runs_placed_extend(nodes@, u, v, vv.len() as int, calls@, tools@);
            assert(main_interactions(inters.take(k + 1), runs@) == main_interactions(
                inters.take(k as int),
                runs@,
            ) + if has_main(placed) {
                1nat
            } else {
                0nat
            });
        }
        let ghost before = out@;
        out.push(
            InteractionNode {
                id: inter.id.clone(),
                prompt_text: copy_opt(&inter.prompt_text),
                started_at: inter.started_at,
                ended_at: inter.ended_at,
                status: inter.status.clone(),
                runs: nodes,
            },
        );
        proof {
            assert forall|x: int| 0 <= x < k + 1 implies inter_node_is(
                #[trigger] out@[x],
                inters,
                x,
                runs@,
                calls@,
                tools@,
            ) by {
                if x < k {
                    assert(out@[x] == before[x]);
                }
            }
        }
        if main {
            mains = mains + 1;
        }
        k += 1;
    }
    proof {
        assert(inters.take(k as int) =~= inters);
    }
    let ghost vv = inter_runs(inters, runs@);
    let none: Option<String> = None;
    let (onodes, omain) = place_runs(&none, runs, calls, tools, &mut visited, Ghost(vv));
    let ghost orphans = runs_for(runs@, None);
    assert(vv + orphans == v);
    if onodes.len() > 0 {
        let mut m: i64 = 0;
        let mut first = true;
        let mut j: usize = 0;
        proof {
            assert(runs@.take(0) =~= Seq::<ExecutionRunRow>::empty());
        }
        while j < runs.len()
            invariant
                j <= runs@.len(),
                first == (runs_for(runs@.take(j as int), None).len() == 0),
                !first ==> m == min_started(runs_for(runs@.take(j as int), None)),
            decreases runs@.len() - j,
        {
            assert(runs@.take(j + 1).drop_last() =~= runs@.take(j as int));
            assert(runs@.take(j + 1).last() == runs@[j as int]);
            let ghost prev = runs_for(runs@.take(j as int), None);
            if runs[j].interaction_id.is_none() {
                let st = runs[j].started_at;
                let ghost cur = prev.push(runs@[j as int]);
                assert(runs_for(runs@.take(j + 1), None) == cur);
                assert(cur.drop_last() =~= prev);
                if first {
                    m = st;
                    first = false;
                } else if st < m {
                    m = st;
                }
            } else {
                assert(runs_for(runs@.take(j + 1), None) == prev);
            }
            j += 1;
        }
        assert(runs@.take(j as int) =~= runs@);
        let mut id = owned("inter-");
        push_str(&mut id, session_id);
        push_str(&mut id, "-internal");
        let ghost before = out@;
        out.push(
            InteractionNode {
                id,
                prompt_text: None,
                started_at: m,
                ended_at: None,
                status: owned("completed"),
                runs: onodes,
            },
        );
        proof {
            assert forall|x: int| 0 <= x < inters.len() implies inter_node_is(
                #[trigger] out@[x],
                inters,
                x,
                runs@,
                calls@,
                tools@,
            ) by {
                assert(out@[x] == before[x]);
            }
        }
    }
    let user = if omain {
        mains + 1
    } else {
        mains
    };
    TimelineDocument {
        session_id: owned(session_id),
        total_model_calls: calls.len(),
        user_interactions: user,
        interactions: out,
    }
}

/// The number of tool invocations shown under a list of call nodes.
pub open spec fn ops_total(ns: Seq<ModelCallNode>) -> nat
    decreases ns.len(),
{
    if ns.len() == 0 {
        0
    } else {
        ops_total(ns.drop_last()) + ns.last().operations@.len()
    }
}

/// A node shows a main run.
pub open spec fn node_has_main(n: InteractionNode) -> bool {
    exists|j: int| 0 <= j < n.runs@.len() && #[trigger] n.runs@[j].run_kind@ == "main"@
}

/// The number of nodes that show a main run.
pub open spec fn main_node_count(ns: Seq<InteractionNode>) -> nat
    decreases ns.len(),
{
    if ns.len() == 0 {
        0
    } else {
        main_node_count(ns.drop_last()) + if node_has_main(ns.last()) {
            1nat
        } else {
            0nat
        }
    }
}

proof fn lemma_tool_total_is_ops(idx: Seq<int>, ms: Seq<ModelCallNode>, tools: Seq<Vec<ToolInvocationRow>>)
    requires
        ms.len() == idx.len(),
        forall|j: int| 0 <= j < idx.len() ==> (#[trigger] ms[j]).operations@.len() == tools[idx[j]]@.len(),
    ensures
        tool_total(idx, tools) == ops_total(ms),
    decreases idx.len(),
{
    if idx.len() > 0 {
        let (a, b) = (idx.drop_last(), ms.drop_last());
        assert forall|j: int| 0 <= j < a.len() implies (#[trigger] b[j]).operations@.len() == tools[a[j]]@.len() by {
            assert(b[j] == ms[j] && a[j] == idx[j]);
        }
        lemma_tool_total_is_ops(a, b, tools);
        assert(ms.last().operations@.len() == tools[idx.last()]@.len());
    }
}

proof fn lemma_run_count(
    n: ExecutionRunNode,
    run: ExecutionRunRow,
    idx: Seq<int>,
    calls: Seq<ModelCallRow>,
    tools: Seq<Vec<ToolInvocationRow>>,
)
    requires
        run_node_with(n, run, idx, calls, tools),
    ensures
        n.tool_call_count == ops_total(n.model_calls@),
{
    assert forall|j: int| 0 <= j < idx.len() implies (#[trigger] n.model_calls@[j]).operations@.len()
        == tools[idx[j]]@.len() by {
        assert(call_node_is(n.model_calls@[j], calls[idx[j]], tools[idx[j]]@));
    }
    lemma_tool_total_is_ops(idx, n.model_calls@, tools);
}

proof fn lemma_main_name(k: RunKind)
    ensures
        (run_kind_name(k) == "main"@) == (k == RunKind::Main),
{
    crate::session::domain::run_kind_roundtrip(k);
    crate::session::domain::run_kind_roundtrip(RunKind::Main);
}

proof fn lemma_node_main(
    n: InteractionNode,
    rf: Seq<ExecutionRunRow>,
    v: Seq<ExecutionRunRow>,
    start: int,
    calls: Seq<ModelCallRow>,
    tools: Seq<Vec<ToolInvocationRow>>,
)
    requires
        n.runs@.len() == rf.len(),
        0 <= start,
        start + rf.len() <= v.len(),
        forall|j: int| 0 <= j < rf.len() ==> v[start + j] == #[trigger] rf[j],
        runs_placed(n.runs@, v, start, calls, tools),
    ensures
        node_has_main(n) == has_main(rf),
{
    if node_has_main(n) {
        let j = choose|j: int| 0 <= j < n.runs@.len() && #[trigger] n.runs@[j].run_kind@ == "main"@;
        assert(run_node_with(n.runs@[j], v[start + j], placed_calls(v, start + j, calls), calls, tools));
        lemma_main_name(rf[j].run_kind);
        assert(rf[j].run_kind == RunKind::Main);
    }
    if has_main(rf) {
        let j = choose|j: int| 0 <= j < rf.len() && #[trigger] rf[j].run_kind == RunKind::Main;
        assert(run_node_with(n.runs@[j], v[start + j], placed_calls(v, start + j, calls), calls, tools));
        lemma_main_name(rf[j].run_kind);
        assert(n.runs@[j].run_kind@ == "main"@);
    }
}

proof fn lemma_inter_slice(inters: Seq<InteractionRow>, runs: Seq<ExecutionRunRow>, k: int)
    requires
        0 <= k < inters.len(),
    ensures
        ({
            let start = inter_runs(inters.take(k), runs).len() as int;
            let rf = runs_for(runs, Some(inters[k].id@));
            &&& start + rf.len() <= inter_runs(inters, runs).len()
            &&& forall|j: int| 0 <= j < rf.len() ==> inter_runs(inters, runs)[start + j] == #[trigger] rf[j]
        }),
{
    lemma_inter_runs_prefix(inters, runs, k + 1);
    assert(inters.take(k + 1).drop_last() =~= inters.take(k));
    let a = inter_runs(inters.take(k), runs);
    let rf = runs_for(runs, Some(inters[k].id@));
    let b = inter_runs(inters.take(k + 1), runs);
    assert(b == a + rf);
    let c = inter_runs(inters, runs);
    assert forall|j: int| 0 <= j < rf.len() implies c[a.len() + j] == #[trigger] rf[j] by {
        assert(b[a.len() + j] == rf[j]);
        assert(c.take(b.len() as int)[a.len() + j] == c[a.len() + j]);
    }
}

proof fn lemma_main_prefix(
    d: TimelineDocument,
    session_id: Seq<char>,
    calls: Seq<ModelCallRow>,
    inters: Seq<InteractionRow>,
    runs: Seq<ExecutionRunRow>,
    tools: Seq<Vec<ToolInvocationRow>>,
    k: int,
)
    requires
        timeline_is(d, session_id, calls, inters, runs, tools),
        0 <= k <= inters.len(),
    ensures
        main_node_count(d.interactions@.take(k)) == main_interactions(inters.take(k), runs),
    decreases k,
{
    let ns = d.interactions@;
    if k > 0 {
        let p = k - 1;
        lemma_main_prefix(d, session_id, calls, inters, runs, tools, p);
        let v = visit_seq(inters, runs);
        let ir = inter_runs(inters, runs);
        assert(inter_node_is(ns[p], inters, p, runs, calls, tools));
        lemma_inter_slice(inters, runs, p);
        let start = inter_runs(inters.take(p), runs).len() as int;
        let rf = runs_for(runs, Some(inters[p].id@));
        assert forall|j: int| 0 <= j < rf.len() implies v[start + j] == #[trigger] rf[j] by {
            assert(v[start + j] == ir[start + j]);
        }
        lemma_node_main(ns[p], rf, v, start, calls, tools);
        assert(ns.take(k).drop_last() =~= ns.take(p));
        assert(inters.take(k).drop_last() =~= inters.take(p));
    }
}

/// What a timeline document counts: all the session's model calls; for every
/// run node, the tool invocations shown under its calls; and the number of
/// nodes that show a main run as the user interactions.
pub proof fn timeline_counts_agree(
    d: TimelineDocument,
    session_id: Seq<char>,
    calls: Seq<ModelCallRow>,
    inters: Seq<InteractionRow>,
    runs: Seq<ExecutionRunRow>,
    tools: Seq<Vec<ToolInvocationRow>>,
)
    requires
        timeline_is(d, session_id, calls, inters, runs, tools),
    ensures
        d.total_model_calls == calls.len(),
        forall|k: int, j: int|
            0 <= k < d.interactions@.len() && 0 <= j < d.interactions@[k].runs@.len()
                ==> #[trigger] d.interactions@[k].runs@[j].tool_call_count == ops_total(
                d.interactions@[k].runs@[j].model_calls@,
            ),
        d.user_interactions == main_node_count(d.interactions@),
{
    let ns = d.interactions@;
    let v = visit_seq(inters, runs);
    let orphans = runs_for(runs, None);
    let ir = inter_runs(inters, runs);
    assert forall|k: int, j: int|
        0 <= k < ns.len() && 0 <= j < ns[k].runs@.len() implies #[trigger] ns[k].runs@[j].tool_call_count
        == ops_total(ns[k].runs@[j].model_calls@) by {
        if k < inters.len() {
            assert(inter_node_is(ns[k], inters, k, runs, calls, tools));
            let start = inter_runs(inters.take(k), runs).len() as int;
            lemma_run_count(ns[k].runs@[j], v[start + j], placed_calls(v, start + j, calls), calls, tools);
        } else {
            lemma_run_count(ns[k].runs@[j], v[ir.len() + j], placed_calls(v, ir.len() + j, calls), calls, tools);
        }
    }
    lemma_main_prefix(d, session_id, calls, inters, runs, tools, inters.len() as int);
    if orphans.len() > 0 {
        let last = ns.len() - 1;
        assert forall|j: int| 0 <= j < orphans.len() implies v[ir.len() + j] == #[trigger] orphans[j] by {}
        lemma_node_main(ns[last], orphans, v, ir.len() as int, calls, tools);
        assert(ns.drop_last() =~= ns.take(inters.len() as int));
    } else {
        assert(ns =~= ns.take(inters.len() as int));
    }
    assert(inters.take(inters.len() as int) =~= inters);
}

proof fn lemma_calls_of_run_members(calls: Seq<ModelCallRow>, run_id: Seq<char>)
    ensures
        forall|j: int|
            0 <= j < calls_of_run(calls, run_id).len() ==> opt_view(
                calls[#[trigger] calls_of_run(calls, run_id)[j]].execution_run_id,
            ) == Some(run_id),
        forall|a: int, b: int|
            0 <= a < b < calls_of_run(calls, run_id).len() ==> #[trigger] calls_of_run(calls, run_id)[a]
                < #[trigger] calls_of_run(calls, run_id)[b],
    decreases calls.len(),
{
    lemma_calls_of_run_bounds(calls, run_id);
    if calls.len() > 0 {
        let d = calls.drop_last();
        lemma_calls_of_run_members(d, run_id);
        lemma_calls_of_run_bounds(d, run_id);
        let prev = calls_of_run(d, run_id);
        let cur = calls_of_run(calls, run_id);
        assert forall|j: int| 0 <= j < cur.len() implies opt_view(calls[#[trigger] cur[j]].execution_run_id)
            == Some(run_id) by {
            if j < prev.len() {
                assert(cur[j] == prev[j]);
                assert(calls[prev[j]] == d[prev[j]]);
            }
        }
        assert forall|a: int, b: int| 0 <= a < b < cur.len() implies #[trigger] cur[a] < #[trigger] cur[b] by {
            assert(cur[a] == prev[a]);
            if b < prev.len() {
                assert(cur[b] == prev[b]);
            }
        }
    }
}

/// Where a run node of the document stands in the visiting order.
pub open spec fn run_position(inters: Seq<InteractionRow>, runs: Seq<ExecutionRunRow>, k: int, j: int) -> int {
    if k < inters.len() {
        inter_runs(inters.take(k), runs).len() + j
    } else {
        inter_runs(inters, runs).len() + j
    }
}

proof fn lemma_starts_grow(inters: Seq<InteractionRow>, runs: Seq<ExecutionRunRow>, k1: int, k2: int)
    requires
        0 <= k1 < k2 <= inters.len(),
    ensures
        inter_runs(inters.take(k1), runs).len() + runs_for(runs, Some(inters[k1].id@)).len()
            <= inter_runs(inters.take(k2), runs).len(),
    decreases k2 - k1,
{
    assert(inters.take(k2).drop_last() =~= inters.take(k2 - 1));
    if k2 - 1 > k1 {
        lemma_starts_grow(inters, runs, k1, k2 - 1);
    }
}

proof fn lemma_node_call(
    d: TimelineDocument,
    session_id: Seq<char>,
    calls: Seq<ModelCallRow>,
    inters: Seq<InteractionRow>,
    runs: Seq<ExecutionRunRow>,
    tools: Seq<Vec<ToolInvocationRow>>,
    k: int,
    j: int,
    m: int,
)
    requires
        timeline_is(d, session_id, calls, inters, runs, tools),
        0 <= k < d.interactions@.len(),
        0 <= j < d.interactions@[k].runs@.len(),
        0 <= m < d.interactions@[k].runs@[j].model_calls@.len(),
    ensures
        ({
            let v = visit_seq(inters, runs);
            let p = run_position(inters, runs, k, j);
            let pc = placed_calls(v, p, calls);
            &&& 0 <= p < v.len()
            &&& k < inters.len() ==> p < inter_runs(inters.take(k), runs).len() + runs_for(
                runs,
                Some(inters[k].id@),
            ).len()
            &&& m < pc.len()
            &&& 0 <= pc[m] < calls.len()
            &&& d.interactions@[k].runs@[j].model_calls@[m].id@ == calls[pc[m]].id@
        }),
{
    let ns = d.interactions@;
    let v = visit_seq(inters, runs);
    let ir = inter_runs(inters, runs);
    let p = run_position(inters, runs, k, j);
    if k < inters.len() {
        assert(inter_node_is(ns[k], inters, k, runs, calls, tools));
        lemma_inter_slice(inters, runs, k);
    }
    let pc = placed_calls(v, p, calls);
    assert(run_node_with(ns[k].runs@[j], v[p], pc, calls, tools));
    assert(call_node_is(ns[k].runs@[j].model_calls@[m], calls[pc[m]], tools[pc[m]]@));
    lemma_calls_of_run_bounds(calls, v[p].id@);
}

/// No model call is shown twice in a timeline: where the session's calls have
/// distinct ids, two call nodes with the same id are the same node.
pub proof fn timeline_calls_are_unique(
    d: TimelineDocument,
    session_id: Seq<char>,
    calls: Seq<ModelCallRow>,
    inters: Seq<InteractionRow>,
    runs: Seq<ExecutionRunRow>,
    tools: Seq<Vec<ToolInvocationRow>>,
    k1: int,
    j1: int,
    m1: int,
    k2: int,
    j2: int,
    m2: int,
)
    requires
        timeline_is(d, session_id, calls, inters, runs, tools),
        forall|a: int, b: int| 0 <= a < b < calls.len() ==> #[trigger] calls[a].id@ != #[trigger] calls[b].id@,
        0 <= k1 < d.interactions@.len(),
        0 <= j1 < d.interactions@[k1].runs@.len(),
        0 <= m1 < d.interactions@[k1].runs@[j1].model_calls@.len(),
        0 <= k2 < d.interactions@.len(),
        0 <= j2 < d.interactions@[k2].runs@.len(),
        0 <= m2 < d.interactions@[k2].runs@[j2].model_calls@.len(),
        d.interactions@[k1].runs@[j1].model_calls@[m1].id@ == d.interactions@[k2].runs@[j2].model_calls@[m2].id@,
    ensures
        k1 == k2 && j1 == j2 && m1 == m2,
{
    let v = visit_seq(inters, runs);
    let ir = inter_runs(inters, runs);
    lemma_node_call(d, session_id, calls, inters, runs, tools, k1, j1, m1);
    lemma_node_call(d, session_id, calls, inters, runs, tools, k2, j2, m2);
    let p1 = run_position(inters, runs, k1, j1);
    let p2 = run_position(inters, runs, k2, j2);
    let pc1 = placed_calls(v, p1, calls);
    let pc2 = placed_calls(v, p2, calls);
    let c1 = pc1[m1];
    let c2 = pc2[m2];
    assert(c1 == c2) by {
        if c1 < c2 {
            assert(calls[c1].id@ != calls[c2].id@);
        } else if c2 < c1 {
            assert(calls[c2].id@ != calls[c1].id@);
        }
    }
    assert(!seen_before(v, p1));
    assert(!seen_before(v, p2));
    lemma_calls_of_run_members(calls, v[p1].id@);
    lemma_calls_of_run_members(calls, v[p2].id@);
    assert(opt_view(calls[c1].execution_run_id) == Some(v[p1].id@));
    assert(opt_view(calls[c2].execution_run_id) == Some(v[p2].id@));
    assert(p1 == p2) by {
        if p1 < p2 {
            assert(v[p1].id@ == v[p2].id@);
            assert(seen_before(v, p2));
        } else if p2 < p1 {
            assert(v[p2].id@ == v[p1].id@);
            assert(seen_before(v, p1));
        }
    }
    assert(m1 == m2) by {
        if m1 < m2 {
            assert(pc1[m1] < pc1[m2]);
        } else if m2 < m1 {
            assert(pc1[m2] < pc1[m1]);
        }
    }
    assert(k1 == k2) by {
        if k1 < k2 {
            if k2 < inters.len() {
                lemma_starts_grow(inters, runs, k1, k2);
            } else {
                lemma_starts_grow(inters, runs, k1, inters.len() as int);
                assert(inters.take(inters.len() as int) =~= inters);
            }
        } else if k2 < k1 {
            if k1 < inters.len() {
                lemma_starts_grow(inters, runs, k2, k1);
            } else {
                lemma_starts_grow(inters, runs, k2, inters.len() as int);
                assert(inters.take(inters.len() as int) =~= inters);
            }
        }
    }
}

} // verus!
