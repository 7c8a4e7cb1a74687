//! Provider endpoints.

use vstd::prelude::*;

use crate::text::str_eq;

verus! {

/// A cloud provider endpoint.
#[derive(Debug)]
pub struct Provider {
    pub name: String,
    pub url: String,
    pub token: Option<String>,
    /// `None` inherits the global proxy, `Some("")` forces a direct connection,
    /// `Some(url)` uses that proxy.
    pub proxy: Option<String>,
    /// Protocols this provider serves (`anthropic` / `codex`); empty serves all.
    pub protocols: Vec<String>,
    /// Codex-specific endpoint used instead of `url` for codex requests when it
    /// is set and not empty.
    pub codex_url: Option<String>,
}

/// Whether a provider with the given protocol list serves `protocol`.
pub open spec fn spec_serves(protocols: Seq<String>, protocol: Seq<char>) -> bool {
    protocols.len() == 0 || exists|i: int| 0 <= i < protocols.len() && #[trigger] protocols[i]@
        == protocol
}

impl Provider {
    /// True if this provider serves the given protocol; an empty protocol list serves all.
    pub fn serves(&self, protocol: &str) -> (b: bool)
        ensures
            b == spec_serves(self.protocols@, protocol@),
    {
        if self.protocols.len() == 0 {
            return true;
        }
        let mut i: usize = 0;
        while i < self.protocols.len()
            invariant
                i <= self.protocols.len(),
                forall|j: int| 0 <= j < i ==> #[trigger] self.protocols@[j]@ != protocol@,
            decreases self.protocols.len() - i,
        {
            if str_eq(self.protocols[i].as_str(), protocol) {
                return true;
            }
            i += 1;
        }
        false
    }
}

} // verus!
