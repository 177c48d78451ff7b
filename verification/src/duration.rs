//! Plain time spans.
//!
//! The configuration holds timeouts as whole seconds plus a millisecond
//! remainder — the two readings the library ever makes.  The transport glue
//! converts these to its own representation at the boundary.
#![allow(unused_imports)]
use vstd::prelude::*;

verus! {

/// A span of time: whole seconds and the milliseconds left over.
#[derive(Debug, Clone, Copy, PartialEq, Eq, Structural)]
pub struct Duration {
    pub secs: u64,
    pub subsec_ms: u32,
}

impl Duration {
    /// A span of whole seconds.
    pub fn from_secs(secs: u64) -> (r: Duration)
        ensures
            r.secs == secs,
            r.subsec_ms == 0,
    {
        Duration { secs, subsec_ms: 0 }
    }

    /// A span given in milliseconds.
    pub fn from_millis(ms: u64) -> (r: Duration)
        ensures
            r.secs == ms / 1000,
            r.subsec_ms == ms % 1000,
    {
        Duration { secs: ms / 1000, subsec_ms: (ms % 1000) as u32 }
    }

    /// The whole seconds of this span.
    pub fn as_secs(&self) -> (r: u64)
        ensures
            r == self.secs,
    {
        self.secs
    }

    /// The milliseconds left over below one second.
    pub fn subsec_millis(&self) -> (r: u32)
        ensures
            r == self.subsec_ms,
    {
        self.subsec_ms
    }
}

} // verus!
