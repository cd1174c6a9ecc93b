//! Readings of a monotonic clock.

use vstd::prelude::*;

verus! {

/// Nanoseconds in one second.
pub const NANOS_PER_SECOND: u64 = 1_000_000_000;

/// A reading of a monotonic clock, in nanoseconds since an origin that the
/// caller fixes once (the start of the process, say).
#[derive(Clone, Copy, Debug, PartialEq, Eq, Structural)]
pub struct Moment {
    pub nanos: u64,
}

/// The whole seconds that lie between `earlier` and `later`; zero where
/// `later` is not after `earlier`.
pub open spec fn whole_seconds_between(earlier: Moment, later: Moment) -> nat {
    if later.nanos >= earlier.nanos {
        ((later.nanos - earlier.nanos) / (NANOS_PER_SECOND as int)) as nat
    } else {
        0
    }
}

impl Moment {
    /// The reading `nanos` nanoseconds after the origin.
    pub fn from_nanos(nanos: u64) -> (m: Moment)
        ensures
            m.nanos == nanos,
    {
        Moment { nanos }
    }

    /// The reading `secs` whole seconds after the origin, or the last
    /// reading that the clock can show where that lies beyond it.
    pub fn from_secs(secs: u64) -> (m: Moment)
        ensures
            secs * NANOS_PER_SECOND <= u64::MAX ==> m.nanos == secs * NANOS_PER_SECOND,
            secs * NANOS_PER_SECOND > u64::MAX ==> m.nanos == u64::MAX,
    {
        if secs <= u64::MAX / NANOS_PER_SECOND {
            assert(secs * NANOS_PER_SECOND <= u64::MAX) by (nonlinear_arith)
                requires
                    secs <= u64::MAX / NANOS_PER_SECOND,
                    NANOS_PER_SECOND == 1_000_000_000,
            ;
            Moment { nanos: secs * NANOS_PER_SECOND }
        } else {
            assert(secs * NANOS_PER_SECOND > u64::MAX) by (nonlinear_arith)
                requires
                    secs > u64::MAX / NANOS_PER_SECOND,
                    NANOS_PER_SECOND == 1_000_000_000,
            ;
            Moment { nanos: u64::MAX }
        }
    }

    /// The whole seconds elapsed since `earlier`, rounded down; zero where
    /// `earlier` is not in the past.
    pub fn seconds_since(self, earlier: Moment) -> (secs: u64)
        ensures
            secs == whole_seconds_between(earlier, self),
    {
        if self.nanos >= earlier.nanos {
            (self.nanos - earlier.nanos) / NANOS_PER_SECOND
        } else {
            0
        }
    }
}

} // verus!
