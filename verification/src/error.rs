//! Errors reported by the library.
use vstd::prelude::*;

verus! {

/// An error reported by the library, with its message.
#[derive(Debug, Clone)]
pub enum GlintIndexError {
    /// Any other error.
    Other(String),
}

impl GlintIndexError {
    /// The message of the error.
    pub fn message(&self) -> (r: &str)
        ensures
            match self {
                GlintIndexError::Other(m) => r@ == m@,
            },
    {
        match self {
            GlintIndexError::Other(m) => m.as_str(),
        }
    }
}

} // verus!
