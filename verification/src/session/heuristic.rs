//! Heuristic classifier: request body text features to run kind. These are weak
//! signals, so all classifications carry `weak` confidence.

use vstd::prelude::*;

use super::domain::RunKind;
use crate::text::{seq_contains, seq_starts_with, str_contains, str_starts_with, trim_start_seq};

verus! {

/// The run kind and label the text features of a final user message give.
pub open spec fn spec_classify(text: Seq<char>) -> (RunKind, Seq<char>) {
    let t = trim_start_seq(text);
    if seq_starts_with(t, "<session>"@) && seq_contains(t, "Write the title"@) {
        (RunKind::Title, "title"@)
    } else if seq_starts_with(t, "<conversation>"@) {
        (RunKind::Memory, "memory"@)
    } else if seq_starts_with(t, "<transcript>"@) {
        (RunKind::Subagent, "subagent"@)
    } else if seq_contains(t, "The user stepped away"@) && seq_contains(t, "Recap"@) {
        (RunKind::Recap, "recap"@)
    } else {
        (RunKind::Main, "main"@)
    }
}

/// Classifies a request's final user text into a run kind.
#[derive(Debug)]
pub struct HeuristicClassifier;

impl HeuristicClassifier {
    /// The run kind of a request, from its final user text, and its label.
    pub fn classify(text: &str) -> (r: (RunKind, &'static str))
        ensures
            r.0 == spec_classify(text@).0,
            r.1@ == spec_classify(text@).1,
    {
        let owned_t = crate::text::trim_start_str(text);
        let t = owned_t.as_str();
        if str_starts_with(t, "<session>") && str_contains(t, "Write the title") {
            (RunKind::Title, "title")
        } else if str_starts_with(t, "<conversation>") {
            (RunKind::Memory, "memory")
        } else if str_starts_with(t, "<transcript>") {
            (RunKind::Subagent, "subagent")
        } else if str_contains(t, "The user stepped away") && str_contains(t, "Recap") {
            (RunKind::Recap, "recap")
        } else {
            (RunKind::Main, "main")
        }
    }
}

} // verus!
