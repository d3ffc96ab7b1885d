//! Errors reported by the library.
use vstd::prelude::*;

verus! {

/// Errors of configuration parsing and pattern compilation.
#[derive(Debug, PartialEq, Eq)]
pub enum SlocGuardError {
    /// A configuration value was rejected; the text says why.
    Config(String),
    /// A glob pattern could not be compiled; `pattern` is the text the user wrote.
    InvalidPattern { pattern: String },
}

impl SlocGuardError {
    /// The human-readable text of the error.
    pub fn message(&self) -> (m: String)
        ensures
            m@ == self.message_spec(),
    {
        match self {
            SlocGuardError::Config(msg) => msg.clone(),
            SlocGuardError::InvalidPattern { pattern } => {
                crate::text::concat3("Invalid glob pattern '", pattern.as_str(), "'")
            },
        }
    }

    /// The pattern that an `InvalidPattern` error reports.
    pub open spec fn pattern_text(&self) -> Option<Seq<char>> {
        match self {
            SlocGuardError::InvalidPattern { pattern } => Some(pattern@),
            _ => None,
        }
    }

    /// The text that `message` returns.
    pub open spec fn message_spec(&self) -> Seq<char> {
        match self {
            SlocGuardError::Config(msg) => msg@,
            SlocGuardError::InvalidPattern { pattern } => "Invalid glob pattern '"@ + pattern@
                + "'"@,
        }
    }
}

} // verus!
