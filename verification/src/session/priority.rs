//! Independent correlation classes and the confidence precedence within each.
//! The classes solve different problems and are never merged into a single
//! precedence chain.

use vstd::prelude::*;

use super::domain::{confidence_rank, spec_confidence_rank};

verus! {

/// Correlation categories, each with its own sources.
#[derive(Debug, Clone, Copy, PartialEq, Eq, Structural)]
pub enum CorrelationClass {
    /// Map an HTTP request to its OTel model-call span.
    ModelCall,
    /// Group execution runs under a user prompt.
    PromptGroup,
    /// Group model calls under an agent.
    AgentGroup,
    /// Link tool use, tool result, hook and OTel.
    ToolLink,
    /// Child subagent to parent agent run.
    AgentParent,
}

/// The name of a correlation class.
pub open spec fn class_name(c: CorrelationClass) -> Seq<char> {
    match c {
        CorrelationClass::ModelCall => "model_call"@,
        CorrelationClass::PromptGroup => "prompt_group"@,
        CorrelationClass::AgentGroup => "agent_group"@,
        CorrelationClass::ToolLink => "tool_link"@,
        CorrelationClass::AgentParent => "agent_parent"@,
    }
}

impl CorrelationClass {
    /// The name of this class.
    pub fn as_str(&self) -> (r: &'static str)
        ensures
            r@ == class_name(*self),
    {
        match self {
            CorrelationClass::ModelCall => "model_call",
            CorrelationClass::PromptGroup => "prompt_group",
            CorrelationClass::AgentGroup => "agent_group",
            CorrelationClass::ToolLink => "tool_link",
            CorrelationClass::AgentParent => "agent_parent",
        }
    }
}

/// A candidate relation with a confidence tier.
#[derive(Debug)]
pub struct Candidate {
    pub class: CorrelationClass,
    pub subject: String,
    pub value: String,
    pub confidence: &'static str,
}

/// The rank of a candidate's confidence.
pub open spec fn cand_rank(c: Candidate) -> u8 {
    spec_confidence_rank(c.confidence@)
}

/// `i` is the strongest candidate of `class`: none of that class ranks higher,
/// and none after it ranks as high (the last of the strongest wins).
pub open spec fn is_strongest(cs: Seq<Candidate>, class: CorrelationClass, i: int) -> bool {
    &&& 0 <= i < cs.len()
    &&& cs[i].class == class
    &&& forall|j: int|
        0 <= j < cs.len() && #[trigger] cs[j].class == class ==> cand_rank(cs[j]) <= cand_rank(
            cs[i],
        )
    &&& forall|j: int|
        i < j < cs.len() && #[trigger] cs[j].class == class ==> cand_rank(cs[j]) < cand_rank(
            cs[i],
        )
}

/// Picks the strongest candidate of a class.
pub fn pick_strongest(candidates: &[Candidate], class: CorrelationClass) -> (r: Option<&Candidate>)
    ensures
        match r {
            Some(c) => exists|i: int| is_strongest(candidates@, class, i) && *c == candidates@[i],
            None => forall|j: int| 0 <= j < candidates@.len() ==> #[trigger] candidates@[j].class
                != class,
        },
{
    let mut best: Option<usize> = None;
    let mut i: usize = 0;
    while i < candidates.len()
        invariant
            i <= candidates@.len(),
            match best {
                Some(b) => is_strongest(candidates@.take(i as int), class, b as int),
                None => forall|j: int| 0 <= j < i ==> #[trigger] candidates@[j].class != class,
            },
        decreases candidates@.len() - i,
    {
        let c = &candidates[i];
        if c.class == class {
            let rank = confidence_rank(c.confidence);
            match best {
                Some(b) => {
                    let best_rank = confidence_rank(candidates[b].confidence);
                    if rank >= best_rank {
                        best = Some(i);
                        assert(is_strongest(candidates@.take(i + 1), class, i as int));
                    } else {
                        assert(is_strongest(candidates@.take(i + 1), class, b as int));
                    }
                },
                None => {
                    best = Some(i);
                    assert(is_strongest(candidates@.take(i + 1), class, i as int));
                },
            }
        } else {
            match best {
                Some(b) => {
                    assert(is_strongest(candidates@.take(i + 1), class, b as int));
                },
                None => {},
            }
        }
        i += 1;
    }
    assert(candidates@.take(i as int) =~= candidates@);
    match best {
        Some(b) => Some(&candidates[b]),
        None => None,
    }
}

/// A candidate replaces an existing relation only with a strictly higher
/// confidence, so a weak candidate never overrides an exact one.
pub fn can_overwrite(existing_confidence: &str, incoming_confidence: &str) -> (b: bool)
    ensures
        b == (spec_confidence_rank(incoming_confidence@) > spec_confidence_rank(
            existing_confidence@,
        )),
{
    confidence_rank(incoming_confidence) > confidence_rank(existing_confidence)
}

/// Overwriting only ever raises the confidence of a relation: applying it twice
/// with the same incoming confidence changes nothing the second time.
pub proof fn overwrite_is_monotone(existing: Seq<char>, incoming: Seq<char>)
    ensures
        spec_confidence_rank(incoming) > spec_confidence_rank(existing) ==> !(
        spec_confidence_rank(incoming) > spec_confidence_rank(incoming)),
        !(spec_confidence_rank(incoming) > spec_confidence_rank(existing))
            ==> spec_confidence_rank(existing) >= spec_confidence_rank(incoming),
{
}

/// An exact relation is never overwritten.
pub proof fn exact_is_final(incoming: Seq<char>)
    ensures
        !(spec_confidence_rank(incoming) > spec_confidence_rank("exact"@)),
{
}

} // verus!
