//! Reconciliation plans: the interactions, agent runs, execution runs and
//! parent links that a session's observations and model calls give rise to.
//! Each plan is a function of its inputs, so reconciling twice plans the same
//! rows.

use vstd::prelude::*;

use crate::session::domain::{run_kind_name, ModelCallRow, RunKind};
use crate::session::heuristic::{spec_classify, HeuristicClassifier};
use crate::session::observation::{Observation, ObservationKind};
use crate::text::{decimal, decimal_int, opt_view, push_i64, push_str, push_u64, str_eq, str_is_empty};

verus! {

/// How the reconciler groups model calls.
#[derive(Debug, Clone, Copy, PartialEq, Eq, Structural)]
pub struct ReconcilerConfig {
    /// Whether run kinds are read from request text (on by default; exact
    /// hook and telemetry relations take precedence either way).
    pub enable_heuristics: bool,
}

impl Default for ReconcilerConfig {
    fn default() -> (r: Self)
        ensures
            r.enable_heuristics,
    {
        ReconcilerConfig { enable_heuristics: true }
    }
}

// ── Identifiers ──

/// `ident-<session>-<agent>`: the identity of an agent within a session.
pub open spec fn identity_id_of(session: Seq<char>, agent: Seq<char>) -> Seq<char> {
    "ident-"@ + session + "-"@ + agent
}

/// The identity of a session's synthetic main agent.
pub open spec fn main_identity_of(session: Seq<char>) -> Seq<char> {
    identity_id_of(session, "main"@)
}

/// `arun-<identity>-<n>`: the `n`-th run of an agent identity.
pub open spec fn agent_run_id_of(identity: Seq<char>, run_no: nat) -> Seq<char> {
    "arun-"@ + identity + "-"@ + decimal(run_no)
}

/// `inter-<session>`: the interaction of a session's submitted prompts.
pub open spec fn prompt_interaction_of(session: Seq<char>) -> Seq<char> {
    "inter-"@ + session
}

/// `inter-<session>-main`: the interaction made from a main run's prompt.
pub open spec fn main_interaction_of(session: Seq<char>) -> Seq<char> {
    "inter-"@ + session + "-main"@
}

/// `run-<session>-<kind>-<sequence>`: the execution run of a model call.
pub open spec fn execution_run_id_of(session: Seq<char>, kind: RunKind, sequence_no: i64) -> Seq<char> {
    "run-"@ + session + "-"@ + run_kind_name(kind) + "-"@ + decimal_int(sequence_no as int)
}

/// The identity id of an agent within a session.
pub fn identity_id(session_id: &str, agent: &str) -> (r: String)
    ensures
        r@ == identity_id_of(session_id@, agent@),
{
    let mut s = String::new();
    push_str(&mut s, "ident-");
    push_str(&mut s, session_id);
    push_str(&mut s, "-");
    push_str(&mut s, agent);
    assert(s@ =~= identity_id_of(session_id@, agent@));
    s
}

/// The identity id of a session's synthetic main agent.
pub fn main_identity_id(session_id: &str) -> (r: String)
    ensures
        r@ == main_identity_of(session_id@),
{
    identity_id(session_id, "main")
}

/// The id of the `run_no`-th run of an agent identity.
pub fn agent_run_id(identity: &str, run_no: u64) -> (r: String)
    ensures
        r@ == agent_run_id_of(identity@, run_no as nat),
{
    let mut s = String::new();
    push_str(&mut s, "arun-");
    push_str(&mut s, identity);
    push_str(&mut s, "-");
    push_u64(&mut s, run_no);
    assert(s@ =~= agent_run_id_of(identity@, run_no as nat));
    s
}

/// The id of the interaction of a session's submitted prompts.
pub fn prompt_interaction_id(session_id: &str) -> (r: String)
    ensures
        r@ == prompt_interaction_of(session_id@),
{
    let mut s = String::new();
    push_str(&mut s, "inter-");
    push_str(&mut s, session_id);
    assert(s@ =~= prompt_interaction_of(session_id@));
    s
}

/// The id of the execution run of a model call.
pub fn execution_run_id(session_id: &str, kind: RunKind, sequence_no: i64) -> (r: String)
    ensures
        r@ == execution_run_id_of(session_id@, kind, sequence_no),
{
    let mut s = String::new();
    push_str(&mut s, "run-");
    push_str(&mut s, session_id);
    push_str(&mut s, "-");
    push_str(&mut s, kind.as_str());
    push_str(&mut s, "-");
    push_i64(&mut s, sequence_no);
    assert(s@ =~= execution_run_id_of(session_id@, kind, sequence_no));
    s
}

// ── Agent runs ──

/// An agent start as plain values: agent id, agent type and start time.
pub type StartView = (Seq<char>, Seq<char>, i64);

/// The agent starts among the observations, in order.
pub open spec fn agent_starts(obs: Seq<Observation>) -> Seq<StartView>
    decreases obs.len(),
{
    if obs.len() == 0 {
        Seq::empty()
    } else {
        let s = agent_starts(obs.drop_last());
        match obs.last().kind {
            ObservationKind::AgentStart { agent_id, agent_type, started_at } => s.push(
                (agent_id@, agent_type@, started_at),
            ),
            _ => s,
        }
    }
}

/// The end time of the last stop of `agent` among the observations.
pub open spec fn agent_end(obs: Seq<Observation>, agent: Seq<char>) -> Option<i64>
    decreases obs.len(),
{
    if obs.len() == 0 {
        None
    } else {
        match obs.last().kind {
            ObservationKind::AgentStop { agent_id, ended_at } => if agent_id@ == agent {
                Some(ended_at)
            } else {
                agent_end(obs.drop_last(), agent)
            },
            _ => agent_end(obs.drop_last(), agent),
        }
    }
}

/// How many of the first `n` starts are by `agent`.
pub open spec fn starts_by(starts: Seq<StartView>, agent: Seq<char>, n: int) -> nat
    decreases n,
{
    if n <= 0 {
        0
    } else {
        starts_by(starts, agent, n - 1) + if starts[n - 1].0 == agent {
            1nat
        } else {
            0nat
        }
    }
}

/// A planned agent run: which agent, its identity, its number among that
/// identity's runs, when it started and, once the agent stopped, when it ended.
#[derive(Debug)]
pub struct AgentRunPlan {
    pub agent_id: String,
    pub agent_type: String,
    pub identity_id: String,
    pub run_id: String,
    pub run_no: u64,
    pub started_at: i64,
    pub ended_at: Option<i64>,
}

impl AgentRunPlan {
    /// `completed` once the agent stopped, else `in_progress`.
    pub fn status(&self) -> (r: &'static str)
        ensures
            r@ == (if self.ended_at.is_some() {
                "completed"@
            } else {
                "in_progress"@
            }),
    {
        if self.ended_at.is_some() {
            "completed"
        } else {
            "in_progress"
        }
    }
}

/// `p` is the run planned for the `i`-th agent start of `obs`.
pub open spec fn agent_run_planned(p: AgentRunPlan, session: Seq<char>, obs: Seq<Observation>, i: int) -> bool {
    let starts = agent_starts(obs);
    let st = starts[i];
    &&& p.agent_id@ == st.0
    &&& p.agent_type@ == st.1
    &&& p.started_at == st.2
    &&& p.identity_id@ == identity_id_of(session, st.0)
    &&& p.run_no == starts_by(starts, st.0, i) + 1
    &&& p.run_id@ == agent_run_id_of(p.identity_id@, p.run_no as nat)
    &&& p.ended_at == agent_end(obs, st.0)
}

fn collect_starts(observations: &Vec<Observation>) -> (r: Vec<(String, String, i64)>)
    ensures
        r@.len() == agent_starts(observations@).len(),
        forall|i: int|
            0 <= i < r@.len() ==> (#[trigger] r@[i]).0@ == agent_starts(observations@)[i].0 && r@[i].1@
                == agent_starts(observations@)[i].1 && r@[i].2 == agent_starts(observations@)[i].2,
{
    let mut out: Vec<(String, String, i64)> = Vec::new();
    let mut i: usize = 0;
    assert(observations@.take(0) =~= Seq::<Observation>::empty());
    while i < observations.len()
        invariant
            i <= observations@.len(),
            out@.len() == agent_starts(observations@.take(i as int)).len(),
            forall|k: int|
                0 <= k < out@.len() ==> (#[trigger] out@[k]).0@ == agent_starts(observations@.take(i as int))[k].0
                    && out@[k].1@ == agent_starts(observations@.take(i as int))[k].1 && out@[k].2
                    == agent_starts(observations@.take(i as int))[k].2,
        decreases observations@.len() - i,
    {
        let ghost pre = observations@.take(i as int);
        proof {
            assert(observations@.take(i + 1).drop_last() =~= pre);
            assert(observations@.take(i + 1).last() == observations@[i as int]);
        }
        match &observations[i].kind {
            ObservationKind::AgentStart { agent_id, agent_type, started_at } => {
                out.push((agent_id.clone(), agent_type.clone(), *started_at));
            },
            _ => {},
        }
        i += 1;
    }
    assert(observations@.take(i as int) =~= observations@);
    out
}

fn find_agent_end(observations: &Vec<Observation>, agent: &str) -> (r: Option<i64>)
    ensures
        r == agent_end(observations@, agent@),
{
    let mut end: Option<i64> = None;
    let mut i: usize = 0;
    assert(observations@.take(0) =~= Seq::<Observation>::empty());
    while i < observations.len()
        invariant
            i <= observations@.len(),
            end == agent_end(observations@.take(i as int), agent@),
        decreases observations@.len() - i,
    {
        proof {
            assert(observations@.take(i + 1).drop_last() =~= observations@.take(i as int));
            assert(observations@.take(i + 1).last() == observations@[i as int]);
        }
        match &observations[i].kind {
            ObservationKind::AgentStop { agent_id, ended_at } => {
                if str_eq(agent_id.as_str(), agent) {
                    end = Some(*ended_at);
                }
            },
            _ => {},
        }
        i += 1;
    }
    assert(observations@.take(i as int) =~= observations@);
    end
}

/// Plans one agent run per agent start, in order: each agent gets the identity
/// `ident-<session>-<agent>`, its runs are numbered from 1 in start order, and a
/// run is completed at the agent's last stop, if it stopped.
pub fn plan_agent_runs(session_id: &str, observations: &Vec<Observation>) -> (r: Vec<AgentRunPlan>)
    ensures
        r@.len() == agent_starts(observations@).len(),
        forall|i: int| 0 <= i < r@.len() ==> agent_run_planned(#[trigger] r@[i], session_id@, observations@, i),
{
    let starts = collect_starts(observations);
    let ghost sv = agent_starts(observations@);
    let mut out: Vec<AgentRunPlan> = Vec::new();
    let mut j: usize = 0;
    while j < starts.len()
        invariant
            j <= starts@.len(),
            sv == agent_starts(observations@),
            starts@.len() == sv.len(),
            forall|i: int|
                0 <= i < starts@.len() ==> (#[trigger] starts@[i]).0@ == sv[i].0 && starts@[i].1@ == sv[i].1
                    && starts@[i].2 == sv[i].2,
            out@.len() == j,
            forall|i: int| 0 <= i < j ==> agent_run_planned(#[trigger] out@[i], session_id@, observations@, i),
        decreases starts@.len() - j,
    {
        let agent = &starts[j].0;
        let mut c: usize = 0;
        let mut k: usize = 0;
        while k < j
            invariant
                k <= j < starts@.len(),
                c <= k,
                starts@.len() == sv.len(),
                forall|i: int|
                    0 <= i < starts@.len() ==> (#[trigger] starts@[i]).0@ == sv[i].0,
                agent@ == sv[j as int].0,
                c == starts_by(sv, agent@, k as int),
            decreases j - k,
        {
            if str_eq(starts[k].0.as_str(), agent.as_str()) {
                c += 1;
            }
            k += 1;
        }
        let identity = identity_id(session_id, agent.as_str());
        let run_no: u64 = (c as u64) + 1;
        let run_id = agent_run_id(identity.as_str(), run_no);
        let plan = AgentRunPlan {
            agent_id: agent.clone(),
            agent_type: starts[j].1.clone(),
            identity_id: identity,
            run_id,
            run_no,
            started_at: starts[j].2,
            ended_at: find_agent_end(observations, agent.as_str()),
        };
        let ghost prev = out@;
        out.push(plan);
        proof {
            assert forall|i: int| 0 <= i < j + 1 implies agent_run_planned(
                #[trigger] out@[i],
                session_id@,
                observations@,
                i,
            ) by {
                if i < j {
                    assert(out@[i] == prev[i]);
                }
            }
        }
        j += 1;
    }
    out
}


proof fn lemma_starts_by_mono(starts: Seq<StartView>, agent: Seq<char>, n: int, m: int)
    requires
        n <= m,
    ensures
        starts_by(starts, agent, n) <= starts_by(starts, agent, m),
    decreases m - n,
{
    if n < m {
        lemma_starts_by_mono(starts, agent, n, m - 1);
    }
}

/// Runs planned for two starts of the same agent are numbered apart, the later
/// start with the higher number, under the same identity.
pub proof fn agent_runs_numbered_apart(
    session: Seq<char>,
    obs: Seq<Observation>,
    p: AgentRunPlan,
    q: AgentRunPlan,
    i: int,
    j: int,
)
    requires
        0 <= i < j < agent_starts(obs).len(),
        agent_run_planned(p, session, obs, i),
        agent_run_planned(q, session, obs, j),
        p.agent_id@ == q.agent_id@,
    ensures
        p.run_no < q.run_no,
        p.identity_id@ == q.identity_id@,
{
    let starts = agent_starts(obs);
    lemma_starts_by_mono(starts, starts[i].0, i + 1, j);
}

// ── Prompt submits ──

/// A planned interaction for a submitted prompt.
#[derive(Debug)]
pub struct PromptInteractionPlan {
    pub id: String,
    pub session_id: String,
    pub prompt_id: String,
    pub prompt_text: Option<String>,
    pub started_at: i64,
}

/// A prompt submit as plain values: its observation's session, prompt id,
/// prompt text and start time.
pub type PromptView = (Seq<char>, Seq<char>, Option<Seq<char>>, i64);

/// The prompt submits among the observations, in order.
pub open spec fn prompt_submits(obs: Seq<Observation>) -> Seq<PromptView>
    decreases obs.len(),
{
    if obs.len() == 0 {
        Seq::empty()
    } else {
        let s = prompt_submits(obs.drop_last());
        let o = obs.last();
        match o.kind {
            ObservationKind::PromptSubmit { prompt_id, prompt_text, started_at } => s.push(
                (o.session_id@, prompt_id@, opt_view(prompt_text), started_at),
            ),
            _ => s,
        }
    }
}

/// Plans one interaction per prompt submit, in order, each with the id
/// `inter-<session>` of its observation's session.
pub fn plan_prompt_submits(observations: &Vec<Observation>) -> (r: Vec<PromptInteractionPlan>)
    ensures
        r@.len() == prompt_submits(observations@).len(),
        forall|i: int|
            0 <= i < r@.len() ==> {
                let p = prompt_submits(observations@)[i];
                &&& (#[trigger] r@[i]).id@ == prompt_interaction_of(p.0)
                &&& r@[i].session_id@ == p.0
                &&& r@[i].prompt_id@ == p.1
                &&& opt_view(r@[i].prompt_text) == p.2
                &&& r@[i].started_at == p.3
            },
{
    let mut out: Vec<PromptInteractionPlan> = Vec::new();
    let mut i: usize = 0;
    assert(observations@.take(0) =~= Seq::<Observation>::empty());
    while i < observations.len()
        invariant
            i <= observations@.len(),
            out@.len() == prompt_submits(observations@.take(i as int)).len(),
            forall|k: int|
                0 <= k < out@.len() ==> {
                    let p = prompt_submits(observations@.take(i as int))[k];
                    &&& (#[trigger] out@[k]).id@ == prompt_interaction_of(p.0)
                    &&& out@[k].session_id@ == p.0
                    &&& out@[k].prompt_id@ == p.1
                    &&& opt_view(out@[k].prompt_text) == p.2
                    &&& out@[k].started_at == p.3
                },
        decreases observations@.len() - i,
    {
        let ghost pre = observations@.take(i as int);
        proof {
            assert(observations@.take(i + 1).drop_last() =~= pre);
            assert(observations@.take(i + 1).last() == observations@[i as int]);
        }
        let o = &observations[i];
        match &o.kind {
            ObservationKind::PromptSubmit { prompt_id, prompt_text, started_at } => {
                let text = match prompt_text {
                    Some(t) => Some(t.clone()),
                    None => None,
                };
                out.push(
                    PromptInteractionPlan {
                        id: prompt_interaction_id(o.session_id.as_str()),
                        session_id: o.session_id.clone(),
                        prompt_id: prompt_id.clone(),
                        prompt_text: text,
                        started_at: *started_at,
                    },
                );
            },
            _ => {},
        }
        i += 1;
    }
    assert(observations@.take(i as int) =~= observations@);
    out
}

// ── Model calls → execution runs ──

/// The prompt text of the last start of `call` that carried one.
pub open spec fn call_prompt_of(obs: Seq<Observation>, call: Seq<char>) -> Option<Seq<char>>
    decreases obs.len(),
{
    if obs.len() == 0 {
        None
    } else {
        match obs.last().kind {
            ObservationKind::ModelCallStart { call_id, prompt_text: Some(t), .. } => if call_id@ == call {
                Some(t@)
            } else {
                call_prompt_of(obs.drop_last(), call)
            },
            _ => call_prompt_of(obs.drop_last(), call),
        }
    }
}

/// The prompt text recorded for a model call, if any start of it carried one.
pub fn call_prompt(observations: &Vec<Observation>, call_id: &str) -> (r: Option<String>)
    ensures
        opt_view(r) == call_prompt_of(observations@, call_id@),
{
    let mut found: Option<String> = None;
    let mut i: usize = 0;
    assert(observations@.take(0) =~= Seq::<Observation>::empty());
    while i < observations.len()
        invariant
            i <= observations@.len(),
            opt_view(found) == call_prompt_of(observations@.take(i as int), call_id@),
        decreases observations@.len() - i,
    {
        proof {
            assert(observations@.take(i + 1).drop_last() =~= observations@.take(i as int));
            assert(observations@.take(i + 1).last() == observations@[i as int]);
        }
        match &observations[i].kind {
            ObservationKind::ModelCallStart { call_id: c, prompt_text: Some(t), .. } => {
                if str_eq(c.as_str(), call_id) {
                    found = Some(t.clone());
                }
            },
            _ => {},
        }
        i += 1;
    }
    assert(observations@.take(i as int) =~= observations@);
    found
}

/// The run kind of a call: classified from its prompt text (empty when it has
/// none) when heuristics are on, else `Main`.
pub open spec fn planned_kind(prompt: Option<Seq<char>>, heuristics: bool) -> RunKind {
    if heuristics {
        spec_classify(
            match prompt {
                Some(t) => t,
                None => Seq::empty(),
            },
        ).0
    } else {
        RunKind::Main
    }
}

/// The prompt text kept for a call's run: a non-empty prompt, when heuristics are on.
pub open spec fn planned_prompt(prompt: Option<Seq<char>>, heuristics: bool) -> Option<Seq<char>> {
    if heuristics {
        match prompt {
            Some(t) => if t.len() > 0 {
                Some(t)
            } else {
                None
            },
            None => None,
        }
    } else {
        None
    }
}

/// A planned execution run for a model call.
#[derive(Debug)]
pub struct ExecutionRunPlan {
    pub run_kind: RunKind,
    pub prompt_text: Option<String>,
    pub run_id: String,
}

/// Plans the execution run of a model call from its recorded prompt text.
pub fn plan_execution_run(
    session_id: &str,
    call: &ModelCallRow,
    prompt: Option<String>,
    enable_heuristics: bool,
) -> (r: ExecutionRunPlan)
    ensures
        r.run_kind == planned_kind(opt_view(prompt), enable_heuristics),
        opt_view(r.prompt_text) == planned_prompt(opt_view(prompt), enable_heuristics),
        r.run_id@ == execution_run_id_of(session_id@, r.run_kind, call.sequence_no),
{
    let (kind, kept) = if enable_heuristics {
        let text = match prompt {
            Some(t) => t,
            None => String::new(),
        };
        let (kind, _) = HeuristicClassifier::classify(text.as_str());
        let kept = if str_is_empty(text.as_str()) {
            None
        } else {
            Some(text)
        };
        (kind, kept)
    } else {
        (RunKind::Main, None)
    };
    let run_id = execution_run_id(session_id, kind, call.sequence_no);
    ExecutionRunPlan { run_kind: kind, prompt_text: kept, run_id }
}

/// Plans the execution run of each model call of a session, in order.
pub fn plan_execution_runs(
    session_id: &str,
    calls: &Vec<ModelCallRow>,
    observations: &Vec<Observation>,
    enable_heuristics: bool,
) -> (r: Vec<ExecutionRunPlan>)
    ensures
        r@.len() == calls@.len(),
        forall|i: int|
            0 <= i < r@.len() ==> {
                let p = call_prompt_of(observations@, calls@[i].id@);
                &&& (#[trigger] r@[i]).run_kind == planned_kind(p, enable_heuristics)
                &&& opt_view(r@[i].prompt_text) == planned_prompt(p, enable_heuristics)
                &&& r@[i].run_id@ == execution_run_id_of(session_id@, r@[i].run_kind, calls@[i].sequence_no)
            },
{
    let mut out: Vec<ExecutionRunPlan> = Vec::new();
    let mut i: usize = 0;
    while i < calls.len()
        invariant
            i <= calls@.len(),
            out@.len() == i,
            forall|k: int|
                0 <= k < i ==> {
                    let p = call_prompt_of(observations@, calls@[k].id@);
                    &&& (#[trigger] out@[k]).run_kind == planned_kind(p, enable_heuristics)
                    &&& opt_view(out@[k].prompt_text) == planned_prompt(p, enable_heuristics)
                    &&& out@[k].run_id@ == execution_run_id_of(session_id@, out@[k].run_kind, calls@[k].sequence_no)
                },
        decreases calls@.len() - i,
    {
        let prompt = call_prompt(observations, calls[i].id.as_str());
        let plan = plan_execution_run(session_id, &calls[i], prompt, enable_heuristics);
        let ghost prev = out@;
        out.push(plan);
        proof {
            assert forall|k: int| 0 <= k < i + 1 implies {
                let p = call_prompt_of(observations@, calls@[k].id@);
                &&& (#[trigger] out@[k]).run_kind == planned_kind(p, enable_heuristics)
                &&& opt_view(out@[k].prompt_text) == planned_prompt(p, enable_heuristics)
                &&& out@[k].run_id@ == execution_run_id_of(session_id@, out@[k].run_kind, calls@[k].sequence_no)
            } by {
                if k < i {
                    assert(out@[k] == prev[k]);
                }
            }
        }
        i += 1;
    }
    out
}

/// Which interaction an execution run belongs to.
#[derive(Debug)]
pub enum InteractionChoice {
    /// The session's earliest interaction.
    Existing(String),
    /// A new interaction made from the run's prompt text.
    Create { id: String, prompt_text: String },
    /// No interaction.
    Absent,
}

/// A main run belongs to the session's earliest interaction, or else to a new
/// `inter-<session>-main` interaction made from its prompt text, or else to
/// none; any other run belongs to none.
pub fn interaction_for_run(
    session_id: &str,
    run_kind: RunKind,
    existing: Option<String>,
    prompt_text: &Option<String>,
) -> (r: InteractionChoice)
    ensures
        run_kind != RunKind::Main ==> r is Absent,
        run_kind == RunKind::Main ==> match existing {
            Some(e) => r matches InteractionChoice::Existing(x) && x@ == e@,
            None => match prompt_text {
                Some(t) => r matches InteractionChoice::Create { id, prompt_text: p } && id@
                    == main_interaction_of(session_id@) && p@ == t@,
                None => r is Absent,
            },
        },
{
    if run_kind != RunKind::Main {
        return InteractionChoice::Absent;
    }
    match existing {
        Some(e) => InteractionChoice::Existing(e),
        None => match prompt_text {
            Some(t) => {
                let mut id = String::new();
                push_str(&mut id, "inter-");
                push_str(&mut id, session_id);
                push_str(&mut id, "-main");
                assert(id@ =~= main_interaction_of(session_id@));
                InteractionChoice::Create { id, prompt_text: t.clone() }
            },
            None => InteractionChoice::Absent,
        },
    }
}

// ── Subagent parent links ──

/// An agent run as plain values: its id, identity and start time.
pub type AgentRunView = (Seq<char>, Seq<char>, i64);

/// The views of a list of agent runs.
pub open spec fn agent_run_views(v: Seq<(String, String, i64)>) -> Seq<AgentRunView> {
    v.map_values(|r: (String, String, i64)| (r.0@, r.1@, r.2))
}

/// Some run of the main identity started no later than `at`.
pub open spec fn main_started_by(runs: Seq<AgentRunView>, main: Seq<char>, at: i64) -> bool {
    exists|k: int| 0 <= k < runs.len() && (#[trigger] runs[k]).1 == main && runs[k].2 <= at
}

/// The parent links of the first `n` runs: each run of another identity that
/// some main run started no later than is linked to the main identity's first run.
pub open spec fn parent_links_upto(runs: Seq<AgentRunView>, session: Seq<char>, n: int) -> Seq<(Seq<char>, Seq<char>)>
    decreases n,
{
    if n <= 0 {
        Seq::empty()
    } else {
        let l = parent_links_upto(runs, session, n - 1);
        let r = runs[n - 1];
        let main = main_identity_of(session);
        if r.1 != main && main_started_by(runs, main, r.2) {
            l.push((r.0, agent_run_id_of(main, 1)))
        } else {
            l
        }
    }
}

/// Links each completed subagent run (id, identity, start) to the session's
/// first main run, when some main run started no later than it did.
pub fn parent_links(session_id: &str, runs: &Vec<(String, String, i64)>) -> (r: Vec<(String, String)>)
    ensures
        r@.map_values(|l: (String, String)| (l.0@, l.1@)) == parent_links_upto(
            agent_run_views(runs@),
            session_id@,
            runs@.len() as int,
        ),
{
    let ghost rv = agent_run_views(runs@);
    let main = main_identity_id(session_id);
    let parent = agent_run_id(main.as_str(), 1);
    let mut out: Vec<(String, String)> = Vec::new();
    let mut i: usize = 0;
    while i < runs.len()
        invariant
            i <= runs@.len(),
            rv == agent_run_views(runs@),
            main@ == main_identity_of(session_id@),
            parent@ == agent_run_id_of(main@, 1),
            out@.map_values(|l: (String, String)| (l.0@, l.1@)) == parent_links_upto(rv, session_id@, i as int),
        decreases runs@.len() - i,
    {
        let ghost prev = out@;
        if !str_eq(runs[i].1.as_str(), main.as_str()) {
            let at = runs[i].2;
            let mut k: usize = 0;
            let mut seen = false;
            while k < runs.len() && !seen
                invariant
                    k <= runs@.len(),
                    rv == agent_run_views(runs@),
                    !seen ==> forall|x: int| 0 <= x < k ==> !((#[trigger] rv[x]).1 == main@ && rv[x].2 <= at),
                    seen ==> main_started_by(rv, main@, at),
                decreases runs@.len() - k + (if seen { 0int } else { 1int }),
            {
                if str_eq(runs[k].1.as_str(), main.as_str()) && runs[k].2 <= at {
                    seen = true;
                    assert(rv[k as int] == (runs@[k as int].0@, runs@[k as int].1@, runs@[k as int].2));
                } else {
                    assert(rv[k as int] == (runs@[k as int].0@, runs@[k as int].1@, runs@[k as int].2));
                    k += 1;
                }
            }
            proof {
                assert(rv[i as int] == (runs@[i as int].0@, runs@[i as int].1@, runs@[i as int].2));
                if !seen {
                    assert(!main_started_by(rv, main@, at));
                }
            }
            if seen {
                out.push((runs[i].0.clone(), parent.clone()));
                proof {
                    assert(out@.map_values(|l: (String, String)| (l.0@, l.1@)) =~= prev.map_values(
                        |l: (String, String)| (l.0@, l.1@),
                    ).push((rv[i as int].0, parent@)));
                }
            }
        } else {
            proof {
                assert(rv[i as int] == (runs@[i as int].0@, runs@[i as int].1@, runs@[i as int].2));
            }
        }
        i += 1;
    }
    out
}

} // verus!
