//! A span of time, held as whole seconds and a sub-second nanosecond part.

use vstd::prelude::*;

verus! {

/// Number of nanoseconds in one second.
pub const NANOS_PER_SEC: u32 = 1_000_000_000;

/// The largest number of nanoseconds a [`Delay`] can hold.
pub open spec fn max_delay_nanos() -> nat {
    u64::MAX as nat * NANOS_PER_SEC as nat + (NANOS_PER_SEC - 1) as nat
}

/// A span of time: `secs` seconds plus `nanos` nanoseconds, `nanos` below one second.
#[derive(Clone, Copy, Debug, PartialEq, Eq, Structural)]
pub struct Delay {
    secs: u64,
    nanos: u32,
}

impl View for Delay {
    type V = nat;

    /// The whole span in nanoseconds.
    closed spec fn view(&self) -> nat {
        self.secs as nat * NANOS_PER_SEC as nat + self.nanos as nat
    }
}

impl Delay {
    #[verifier::type_invariant]
    spec fn nanos_below_one_second(self) -> bool {
        self.nanos < NANOS_PER_SEC
    }

    /// The empty span.
    pub fn zero() -> (d: Delay)
        ensures
            d@ == 0,
    {
        Delay { secs: 0, nanos: 0 }
    }

    /// A span of `secs` whole seconds.
    pub fn from_secs(secs: u64) -> (d: Delay)
        ensures
            d@ == secs as nat * NANOS_PER_SEC as nat,
    {
        Delay { secs, nanos: 0 }
    }

    /// A span of `millis` milliseconds.
    pub fn from_millis(millis: u64) -> (d: Delay)
        ensures
            d@ == millis as nat * 1_000_000,
    {
        let secs: u64 = millis / 1000;
        let rest: u64 = millis % 1000;
        let nanos: u32 = (rest * 1_000_000) as u32;
        assert(millis as nat * 1_000_000 == secs as nat * NANOS_PER_SEC as nat + rest as nat
            * 1_000_000) by (nonlinear_arith)
            requires
                secs == millis / 1000,
                rest == millis % 1000,
        ;
        Delay { secs, nanos }
    }

    /// A span of `secs` seconds and `nanos` nanoseconds; nanoseconds of a
    /// second or more carry into the seconds. `None` where the seconds overflow.
    pub fn new(secs: u64, nanos: u32) -> (r: Option<Delay>)
        ensures
            r is Some <==> secs as nat + nanos as nat / NANOS_PER_SEC as nat <= u64::MAX,
            r matches Some(d) ==> d@ == secs as nat * NANOS_PER_SEC as nat + nanos as nat,
    {
        let carry: u32 = nanos / NANOS_PER_SEC;
        let rest: u32 = nanos % NANOS_PER_SEC;
        if secs > u64::MAX - carry as u64 {
            None
        } else {
            assert(nanos as nat == carry as nat * NANOS_PER_SEC as nat + rest as nat);
            Some(Delay { secs: secs + carry as u64, nanos: rest })
        }
    }

    /// The whole seconds of this span.
    pub fn as_secs(&self) -> (s: u64)
        ensures
            s as nat == self@ / NANOS_PER_SEC as nat,
    {
        proof {
            use_type_invariant(self);
        }
        self.secs
    }

    /// The nanoseconds beyond the whole seconds of this span.
    pub fn subsec_nanos(&self) -> (n: u32)
        ensures
            n as nat == self@ % NANOS_PER_SEC as nat,
            n < NANOS_PER_SEC,
    {
        proof {
            use_type_invariant(self);
        }
        self.nanos
    }

    /// The sum of two spans; `None` where it would not fit in a `Delay`.
    pub fn checked_add(&self, other: &Delay) -> (r: Option<Delay>)
        ensures
            r is Some <==> self@ + other@ <= max_delay_nanos(),
            r matches Some(d) ==> d@ == self@ + other@,
            other@ == 0 ==> r == Some(*self),
    {
        proof {
            use_type_invariant(self);
            use_type_invariant(other);
        }
        let nanos: u32 = self.nanos + other.nanos;
        if nanos >= NANOS_PER_SEC {
            if self.secs >= u64::MAX - other.secs {
                None
            } else {
                Some(Delay { secs: self.secs + other.secs + 1, nanos: nanos - NANOS_PER_SEC })
            }
        } else {
            if self.secs > u64::MAX - other.secs {
                None
            } else {
                Some(Delay { secs: self.secs + other.secs, nanos })
            }
        }
    }

    /// Whether this span is at least as long as `other`.
    pub fn is_at_least(&self, other: &Delay) -> (b: bool)
        ensures
            b == (self@ >= other@),
    {
        proof {
            use_type_invariant(self);
            use_type_invariant(other);
        }
        self.secs > other.secs || (self.secs == other.secs && self.nanos >= other.nanos)
    }
}

} // verus!
