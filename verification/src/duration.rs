//! A span of time with nanosecond precision, as `std::time::Duration` has it.

use vstd::prelude::*;

verus! {

/// Nanoseconds in one second.
pub const NANOS_PER_SEC: u32 = 1_000_000_000;

/// Nanoseconds in one millisecond.
pub const NANOS_PER_MILLI: u32 = 1_000_000;

/// A non-negative span of time: whole seconds plus a sub-second part in nanoseconds.
#[derive(Clone, Copy, Debug, PartialEq, Eq, Structural)]
pub struct Duration {
    secs: u64,
    nanos: u32,
}

impl View for Duration {
    type V = nat;

    /// The span in nanoseconds.
    open spec fn view(&self) -> nat {
        self.spec_secs() * (NANOS_PER_SEC as nat) + self.spec_nanos()
    }
}

/// A span of `secs` seconds and `nanos` nanoseconds (below one second) splits back into them.
pub proof fn lemma_split(secs: nat, nanos: nat)
    requires
        nanos < NANOS_PER_SEC,
    ensures
        (secs * (NANOS_PER_SEC as nat) + nanos) / (NANOS_PER_SEC as nat) == secs,
        (secs * (NANOS_PER_SEC as nat) + nanos) % (NANOS_PER_SEC as nat) == nanos,
{
    assert((secs * 1_000_000_000 + nanos) / 1_000_000_000 == secs
        && (secs * 1_000_000_000 + nanos) % 1_000_000_000 == nanos) by (nonlinear_arith)
        requires
            nanos < 1_000_000_000,
    ;
}

/// The largest span a `Duration` can hold, in nanoseconds.
pub open spec fn max_nanos() -> nat {
    ((u64::MAX as nat) * (NANOS_PER_SEC as nat) + (NANOS_PER_SEC as nat) - 1) as nat
}

impl Duration {
    #[verifier::type_invariant]
    spec fn wf(self) -> bool {
        self.nanos < NANOS_PER_SEC
    }

    /// Whole seconds of the span.
    pub closed spec fn spec_secs(self) -> nat {
        self.secs as nat
    }

    /// Nanoseconds beyond the whole seconds.
    pub closed spec fn spec_nanos(self) -> nat {
        self.nanos as nat
    }

    /// The span with `secs` whole seconds and `nanos` nanoseconds (`nanos` below one second).
    pub fn new(secs: u64, nanos: u32) -> (d: Duration)
        requires
            nanos < NANOS_PER_SEC,
        ensures
            d@ == secs * (NANOS_PER_SEC as nat) + nanos,
            d.spec_secs() == secs,
            d.spec_nanos() == nanos,
    {
        Duration { secs, nanos }
    }

    /// The empty span.
    pub fn zero() -> (d: Duration)
        ensures
            d@ == 0,
    {
        Duration { secs: 0, nanos: 0 }
    }

    /// A span of `secs` seconds.
    pub fn from_secs(secs: u64) -> (d: Duration)
        ensures
            d@ == secs * (NANOS_PER_SEC as nat),
    {
        Duration { secs, nanos: 0 }
    }

    /// A span of `millis` milliseconds.
    pub fn from_millis(millis: u64) -> (d: Duration)
        ensures
            d@ == millis * (NANOS_PER_MILLI as nat),
    {
        let secs = millis / 1000;
        let rest = millis % 1000;
        assert(rest * 1_000_000 < 1_000_000_000) by (nonlinear_arith)
            requires
                rest < 1000,
        ;
        let nanos = (rest as u32) * NANOS_PER_MILLI;
        assert(secs * 1_000_000_000 + rest * 1_000_000 == millis * 1_000_000) by (nonlinear_arith)
            requires
                secs == millis / 1000,
                rest == millis % 1000,
        ;
        Duration { secs, nanos }
    }

    /// Whole seconds of the span.
    pub fn as_secs(&self) -> (s: u64)
        ensures
            s == self@ / (NANOS_PER_SEC as nat),
    {
        proof {
            use_type_invariant(self);
            lemma_split(self.spec_secs(), self.spec_nanos());
        }
        self.secs
    }

    /// Nanoseconds beyond the whole seconds.
    pub fn subsec_nanos(&self) -> (n: u32)
        ensures
            n == self@ % (NANOS_PER_SEC as nat),
    {
        proof {
            use_type_invariant(self);
            lemma_split(self.spec_secs(), self.spec_nanos());
        }
        self.nanos
    }

    /// Whole milliseconds beyond the whole seconds.
    pub fn subsec_millis(&self) -> (n: u32)
        ensures
            n == (self@ % (NANOS_PER_SEC as nat)) / (NANOS_PER_MILLI as nat),
            n < 1000,
    {
        proof {
            use_type_invariant(self);
            lemma_split(self.spec_secs(), self.spec_nanos());
        }
        self.nanos / NANOS_PER_MILLI
    }

    /// The whole number of milliseconds in the span.
    pub fn as_millis(&self) -> (n: u128)
        ensures
            n == self@ / (NANOS_PER_MILLI as nat),
    {
        proof {
            use_type_invariant(self);
            assert((self.secs * 1_000_000_000 + self.nanos) / 1_000_000 == self.secs * 1000
                + self.nanos / 1_000_000) by (nonlinear_arith);
        }
        (self.secs as u128) * 1000 + ((self.nanos / NANOS_PER_MILLI) as u128)
    }

    /// The span in nanoseconds.
    pub fn as_nanos(&self) -> (n: u128)
        ensures
            n == self@,
            n <= max_nanos(),
    {
        proof {
            use_type_invariant(self);
            assert(self.secs * 1_000_000_000 + self.nanos <= (u64::MAX as nat) * 1_000_000_000
                + 999_999_999) by (nonlinear_arith)
                requires
                    self.secs <= u64::MAX,
                    self.nanos < 1_000_000_000,
            ;
        }
        (self.secs as u128) * (NANOS_PER_SEC as u128) + (self.nanos as u128)
    }

    /// The span of `n` nanoseconds.
    pub fn from_nanos(n: u128) -> (d: Duration)
        requires
            n <= max_nanos(),
        ensures
            d@ == n,
    {
        let secs = n / (NANOS_PER_SEC as u128);
        let nanos = n % (NANOS_PER_SEC as u128);
        assert(secs <= u64::MAX) by (nonlinear_arith)
            requires
                secs == n / 1_000_000_000,
                n <= (u64::MAX as nat) * 1_000_000_000 + 999_999_999,
        ;
        assert(secs * 1_000_000_000 + nanos == n) by (nonlinear_arith)
            requires
                secs == n / 1_000_000_000,
                nanos == n % 1_000_000_000,
        ;
        Duration { secs: secs as u64, nanos: nanos as u32 }
    }

    /// Whether the span is empty.
    pub fn is_zero(&self) -> (b: bool)
        ensures
            b == (self@ == 0),
    {
        self.secs == 0 && self.nanos == 0
    }

    /// Whether this span is shorter than `other`.
    pub fn is_less(&self, other: &Duration) -> (b: bool)
        ensures
            b == (self@ < other@),
    {
        proof {
            use_type_invariant(self);
            use_type_invariant(other);
            lemma_split(self.spec_secs(), self.spec_nanos());
            lemma_split(other.spec_secs(), other.spec_nanos());
        }
        self.secs < other.secs || (self.secs == other.secs && self.nanos < other.nanos)
    }

    /// The sum of two spans, or `None` where it is longer than a `Duration` holds.
    pub fn checked_add(&self, other: &Duration) -> (r: Option<Duration>)
        ensures
            r is Some <==> self@ + other@ <= max_nanos(),
            r matches Some(d) ==> d@ == self@ + other@,
    {
        proof {
            use_type_invariant(self);
            use_type_invariant(other);
            lemma_split(self.spec_secs(), self.spec_nanos());
            lemma_split(other.spec_secs(), other.spec_nanos());
        }
        let nanos_sum = self.nanos + other.nanos;
        let (carry, nanos) = if nanos_sum >= NANOS_PER_SEC {
            (1u64, nanos_sum - NANOS_PER_SEC)
        } else {
            (0u64, nanos_sum)
        };
        match self.secs.checked_add(other.secs) {
            Some(s) => match s.checked_add(carry) {
                Some(secs) => Some(Duration { secs, nanos }),
                None => None,
            },
            None => None,
        }
    }

    /// `self - other`, or the empty span where `other` is the longer one.
    pub fn saturating_sub(&self, other: &Duration) -> (d: Duration)
        ensures
            self@ >= other@ ==> d@ == self@ - other@,
            self@ < other@ ==> d@ == 0,
    {
        proof {
            use_type_invariant(self);
            use_type_invariant(other);
            lemma_split(self.spec_secs(), self.spec_nanos());
            lemma_split(other.spec_secs(), other.spec_nanos());
        }
        if self.is_less(other) {
            return Duration::zero();
        }
        if self.nanos >= other.nanos {
            Duration { secs: self.secs - other.secs, nanos: self.nanos - other.nanos }
        } else {
            Duration { secs: self.secs - other.secs - 1, nanos: self.nanos + NANOS_PER_SEC - other.nanos }
        }
    }
}

} // verus!
