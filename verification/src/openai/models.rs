//! What both APIs have in common on the wire.

use crate::language_model::event::Usage;
use vstd::prelude::*;

verus! {

/// Token counts, under the names of either API.
#[derive(Debug, Clone, Copy, PartialEq, Eq, Structural)]
pub struct WireUsage {
    /// Input tokens, as Chat Completions names them.
    pub prompt_tokens: u32,
    /// Output tokens, as Chat Completions names them.
    pub completion_tokens: u32,
    /// Input tokens, as Responses names them.
    pub input_tokens: u32,
    /// Output tokens, as Responses names them.
    pub output_tokens: u32,
    /// Input tokens that came out of a cache.
    pub cached_tokens: u32,
}

impl Default for WireUsage {
    fn default() -> (r: Self)
        ensures
            r == (WireUsage {
                prompt_tokens: 0,
                completion_tokens: 0,
                input_tokens: 0,
                output_tokens: 0,
                cached_tokens: 0,
            }),
    {
        WireUsage {
            prompt_tokens: 0,
            completion_tokens: 0,
            input_tokens: 0,
            output_tokens: 0,
            cached_tokens: 0,
        }
    }
}

/// The counts, under whichever name the provider used.
pub open spec fn spec_usage(u: WireUsage) -> Usage {
    Usage {
        input_tokens: if u.input_tokens > 0 {
            u.input_tokens
        } else {
            u.prompt_tokens
        },
        output_tokens: if u.output_tokens > 0 {
            u.output_tokens
        } else {
            u.completion_tokens
        },
        cached_input_tokens: u.cached_tokens,
    }
}

impl WireUsage {
    /// The counts, under whichever name the provider used.
    pub fn into_spec(self) -> (r: Usage)
        ensures
            r == spec_usage(self),
    {
        let input = if self.input_tokens > 0 {
            self.input_tokens
        } else {
            self.prompt_tokens
        };
        let output = if self.output_tokens > 0 {
            self.output_tokens
        } else {
            self.completion_tokens
        };
        Usage { input_tokens: input, output_tokens: output, cached_input_tokens: self.cached_tokens }
    }
}

/// Whichever of the two names the provider used, the count comes through; where it used both, the name
/// of Responses counts.
pub proof fn law_counts(n: u32, m: u32, other: u32, cached: u32)
    ensures
        spec_usage(
            WireUsage {
                prompt_tokens: n,
                completion_tokens: m,
                input_tokens: 0,
                output_tokens: 0,
                cached_tokens: cached,
            },
        ) == (Usage { input_tokens: n, output_tokens: m, cached_input_tokens: cached }),
        n > 0 ==> spec_usage(
            WireUsage {
                prompt_tokens: other,
                completion_tokens: other,
                input_tokens: n,
                output_tokens: n,
                cached_tokens: cached,
            },
        ) == (Usage { input_tokens: n, output_tokens: n, cached_input_tokens: cached }),
{
}

} // verus!
