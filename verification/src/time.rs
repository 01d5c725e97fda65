//! Spans of time.

use vstd::prelude::*;

verus! {

/// How long to wait.
#[derive(Debug, Clone, Copy, PartialEq, Eq, Structural)]
pub struct Timeout {
    /// Whole seconds.
    pub secs: u64,
    /// What is left, in nanoseconds.
    pub nanos: u32,
}

impl Timeout {
    /// Whole seconds.
    pub fn from_secs(secs: u64) -> (r: Self)
        ensures
            r == (Timeout { secs, nanos: 0 }),
    {
        Timeout { secs, nanos: 0 }
    }

    /// Milliseconds.
    pub fn from_millis(millis: u64) -> (r: Self)
        ensures
            r.as_millis_spec() == millis,
            r.secs == millis / 1000,
            r.nanos == (millis % 1000) * 1000000,
    {
        Timeout { secs: millis / 1000, nanos: (millis % 1000) as u32 * 1000000 }
    }

    /// The whole milliseconds.
    pub open spec fn as_millis_spec(self) -> int {
        self.secs * 1000 + self.nanos / 1000000
    }

    /// The whole milliseconds.
    pub fn as_millis(&self) -> (r: u128)
        ensures
            r == self.as_millis_spec(),
    {
        self.secs as u128 * 1000 + (self.nanos / 1000000) as u128
    }
}

} // verus!
