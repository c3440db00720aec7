//! Token counts.
use vstd::prelude::*;

verus! {

/// Token counts that a provider reported. What it did not report is absent.
#[derive(Clone, Copy, Debug, PartialEq, Eq)]
pub struct TokenUsage {
    pub input_tokens: Option<u32>,
    pub output_tokens: Option<u32>,
}

impl Default for TokenUsage {
    fn default() -> (r: Self)
        ensures
            r.input_tokens is None,
            r.output_tokens is None,
    {
        TokenUsage { input_tokens: None, output_tokens: None }
    }
}

} // verus!
