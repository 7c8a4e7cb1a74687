//! Configuration errors.

use vstd::prelude::*;

use crate::text::owned;

verus! {

/// Error type for configuration operations.
#[derive(Debug)]
pub enum ConfigError {
    /// The configuration failed validation; the message joins every problem.
    Validation(String),
    /// A named entity (upstream, route, pricing) does not exist.
    NotFound(String),
    /// An entry with the same name already exists.
    Duplicate(String),
}

/// The text an error is shown as.
pub open spec fn error_text(e: ConfigError) -> Seq<char> {
    match e {
        ConfigError::Validation(m) => "config validation failed: "@ + m@,
        ConfigError::NotFound(m) => "not found: "@ + m@,
        ConfigError::Duplicate(m) => "duplicate entry: "@ + m@,
    }
}

impl ConfigError {
    /// The text this error is shown as.
    pub fn message(&self) -> (r: String)
        ensures
            r@ == error_text(*self),
    {
        let (prefix, m) = match self {
            ConfigError::Validation(m) => ("config validation failed: ", m),
            ConfigError::NotFound(m) => ("not found: ", m),
            ConfigError::Duplicate(m) => ("duplicate entry: ", m),
        };
        let mut out = owned(prefix);
        crate::text::push_str(&mut out, m.as_str());
        out
    }
}

} // verus!
