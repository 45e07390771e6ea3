//! The duration model: an elapsed-time measurement with nanosecond
//! resolution, held as whole seconds plus a sub-second nanosecond remainder.

use vstd::prelude::*;

verus! {

/// Number of nanoseconds in one second.
pub const NANOS_PER_SEC: u32 = 1_000_000_000;

/// One trial's elapsed time: whole seconds plus a nanosecond remainder.
#[derive(Clone, Copy, Debug, PartialEq, Eq, Structural)]
pub struct TrialDuration {
    pub secs: u64,
    pub nanos: u32,
}

impl TrialDuration {
    /// A duration is well formed when its nanosecond remainder is below one
    /// second, so that the (secs, nanos) representation is canonical.
    pub open spec fn wf(self) -> bool {
        self.nanos < NANOS_PER_SEC
    }

    /// The total nanosecond count that this duration stands for.
    pub open spec fn as_nanos_spec(self) -> int {
        self.secs * (NANOS_PER_SEC as int) + self.nanos
    }

    /// The largest total nanosecond count a well-formed duration can hold.
    pub open spec fn max_total_nanos() -> int {
        u64::MAX * (NANOS_PER_SEC as int) + (NANOS_PER_SEC - 1)
    }

    /// Every well-formed duration's nanosecond count lies within the
    /// representable range.
    pub proof fn lemma_wf_bounds(self)
        requires
            self.wf(),
        ensures
            0 <= self.as_nanos_spec() <= Self::max_total_nanos(),
    {
    }

    pub fn new(secs: u64, nanos: u32) -> (d: TrialDuration)
        requires
            nanos < NANOS_PER_SEC,
        ensures
            d.wf(),
            d.as_nanos_spec() == secs * (NANOS_PER_SEC as int) + nanos,
    {
        TrialDuration { secs, nanos }
    }

    /// Builds the canonical duration holding a given total nanosecond count.
    pub fn from_total_nanos(total: u128) -> (d: TrialDuration)
        requires
            total <= Self::max_total_nanos(),
        ensures
            d.wf(),
            d.as_nanos_spec() == total,
    {
        proof {
            assert(total / 1_000_000_000 <= u64::MAX) by (nonlinear_arith)
                requires
                    total <= u64::MAX * 1_000_000_000int + 999_999_999int;
            assert((total / 1_000_000_000) * 1_000_000_000int + total % 1_000_000_000 == total)
                by (nonlinear_arith);
        }
        let secs: u64 = (total / 1_000_000_000) as u64;
        let nanos: u32 = (total % 1_000_000_000) as u32;
        TrialDuration { secs, nanos }
    }
}

/// The total nanosecond count of a duration, as the widest machine integer.
pub fn duration_to_nanos(d: &TrialDuration) -> (n: u128)
    ensures
        n == d.as_nanos_spec(),
{
    proof {
        assert(d.secs * 1_000_000_000int <= u64::MAX * 1_000_000_000int) by (nonlinear_arith);
    }
    d.secs as u128 * 1_000_000_000 + d.nanos as u128
}

} // verus!
