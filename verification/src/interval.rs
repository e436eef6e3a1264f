//! Lengths of time in the configuration.

use vstd::prelude::*;

verus! {

/// A length of time: whole seconds and the nanoseconds beyond them.
#[derive(Clone, Copy, Debug, PartialEq, Eq, Structural)]
pub struct Interval {
    pub secs: u64,
    pub nanos: u32,
}

/// Seconds in the interval at which remote prefixes are listed again, unless
/// the configuration says otherwise: ten minutes.
pub const DEFAULT_RELOAD_SECS: u64 = 600;

impl Interval {
    /// The nanoseconds are less than a second.
    pub open spec fn wf(self) -> bool {
        self.nanos < 1_000_000_000
    }

    /// The length in nanoseconds.
    pub open spec fn total_nanos(self) -> int {
        self.secs * 1_000_000_000 + self.nanos
    }
}

/// How often remote prefixes are listed again by default.
pub open spec fn default_interval() -> Interval {
    Interval { secs: DEFAULT_RELOAD_SECS, nanos: 0 }
}

/// How often remote prefixes are listed again by default: every ten minutes.
pub fn default_reload_interval() -> (r: Interval)
    ensures
        r == default_interval(),
        r.wf(),
        r.total_nanos() == 600_000_000_000int,
{
    Interval { secs: DEFAULT_RELOAD_SECS, nanos: 0 }
}

/// Whether `v` is the default, and need not be written to a configuration file.
pub fn is_default_reload_interval(v: &Interval) -> (r: bool)
    ensures
        r <==> *v == default_interval(),
        r <==> v.secs == 600 && v.nanos == 0,
{
    *v == default_reload_interval()
}

} // verus!
