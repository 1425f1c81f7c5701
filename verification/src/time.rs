use vstd::prelude::*;

verus! {

/// Nanoseconds in one second.
pub const NANOS_PER_SEC: u32 = 1_000_000_000;

/// The longest span a `Duration` can hold, in nanoseconds.
pub open spec fn max_duration_nanos() -> nat {
    u64::MAX as nat * NANOS_PER_SEC as nat + 999_999_999
}

/// A span of time with nanosecond precision, covering the same range as the standard library's
/// `Duration`.
#[derive(Copy, Clone, Debug, PartialEq, Eq, Structural)]
pub struct Duration {
    nanos: u128,
}

impl View for Duration {
    type V = nat;

    /// The length of the span in nanoseconds.
    closed spec fn view(&self) -> nat {
        self.nanos as nat
    }
}

impl Duration {
    #[verifier::type_invariant]
    closed spec fn inv(self) -> bool {
        self.nanos <= max_duration_nanos()
    }

    /// Two durations of the same length are equal.
    pub proof fn lemma_view_injective(self, other: Duration)
        requires
            self@ == other@,
        ensures
            self == other,
    {
    }

    /// Returns the length of the duration in nanoseconds.
    pub fn as_nanos(&self) -> (res: u128)
        ensures
            res == self@,
            res <= max_duration_nanos(),
    {
        proof {
            use_type_invariant(self);
        }
        self.nanos
    }

    /// Creates a duration from whole seconds and additional nanoseconds; nanoseconds beyond a
    /// second carry into the seconds.
    pub fn new(secs: u64, nanos: u32) -> (res: Duration)
        requires
            secs as nat + nanos as nat / NANOS_PER_SEC as nat <= u64::MAX,
        ensures
            res@ == secs as nat * NANOS_PER_SEC as nat + nanos as nat,
    {
        proof {
            assert(secs as nat * 1_000_000_000 + nanos as nat <= u64::MAX as nat * 1_000_000_000
                + 999_999_999) by (nonlinear_arith)
                requires
                    secs as nat + nanos as nat / 1_000_000_000 <= u64::MAX,
            ;
        }
        Duration { nanos: secs as u128 * NANOS_PER_SEC as u128 + nanos as u128 }
    }

    /// Creates a duration of `secs` seconds.
    pub fn from_secs(secs: u64) -> (res: Duration)
        ensures
            res@ == secs as nat * NANOS_PER_SEC as nat,
    {
        Duration::new(secs, 0)
    }

    /// Creates a duration of `millis` milliseconds.
    pub fn from_millis(millis: u64) -> (res: Duration)
        ensures
            res@ == millis as nat * 1_000_000,
    {
        proof {
            assert(millis as nat * 1_000_000 <= u64::MAX as nat * 1_000_000_000) by (nonlinear_arith)
                requires
                    millis <= u64::MAX,
            ;
        }
        Duration { nanos: millis as u128 * 1_000_000 }
    }

    /// Creates a duration of `nanos` nanoseconds.
    pub fn from_total_nanos(nanos: u128) -> (res: Duration)
        requires
            nanos <= max_duration_nanos(),
        ensures
            res@ == nanos,
    {
        Duration { nanos }
    }

    /// Returns the whole seconds of the duration.
    pub fn as_secs(&self) -> (res: u64)
        ensures
            res == self@ / NANOS_PER_SEC as nat,
    {
        proof {
            use_type_invariant(self);
            assert(self.nanos / 1_000_000_000 <= u64::MAX) by (nonlinear_arith)
                requires
                    self.nanos <= u64::MAX as nat * 1_000_000_000 + 999_999_999,
            ;
        }
        (self.nanos / NANOS_PER_SEC as u128) as u64
    }

    /// Returns the nanoseconds beyond the whole seconds.
    pub fn subsec_nanos(&self) -> (res: u32)
        ensures
            res == self@ % NANOS_PER_SEC as nat,
            res < NANOS_PER_SEC,
    {
        (self.nanos % NANOS_PER_SEC as u128) as u32
    }

    /// Returns the shorter of two durations.
    pub fn min(self, other: Duration) -> (res: Duration)
        ensures
            res@ == if self@ <= other@ {
                self@
            } else {
                other@
            },
    {
        if self.nanos <= other.nanos {
            self
        } else {
            other
        }
    }
}

/// The number of whole microseconds in a duration.
pub open spec fn spec_micros(d: Duration) -> nat {
    d@ / 1000
}

/// Returns the number of whole microseconds in `d`.
pub fn micros(d: Duration) -> (res: u64)
    requires
        spec_micros(d) <= u64::MAX,
    ensures
        res == spec_micros(d),
{
    let secs = d.as_secs();
    let nanos = d.subsec_nanos();
    proof {
        let t = d@;
        assert(t == secs as nat * 1_000_000_000 + nanos as nat) by (nonlinear_arith)
            requires
                secs == t / 1_000_000_000,
                nanos == t % 1_000_000_000,
        ;
        assert(t / 1000 == secs as nat * 1_000_000 + nanos as nat / 1000) by (nonlinear_arith)
            requires
                t == secs as nat * 1_000_000_000 + nanos as nat,
                nanos < 1_000_000_000,
        ;
    }
    secs * 1_000_000 + nanos as u64 / 1_000
}

} // verus!
