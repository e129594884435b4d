//! The span of time that `core::time::Duration` holds, as whole seconds and nanoseconds.

use vstd::prelude::*;

verus! {

/// Nanoseconds in a second.
pub const NANOS_PER_SEC: u64 = 1_000_000_000;

/// A span of time: whole seconds plus a sub-second count of nanoseconds, the value of a
/// `core::time::Duration`.
#[derive(Debug, Clone, Copy, PartialEq, Eq, Structural)]
pub struct CoreDuration {
    secs: u64,
    nanos: u32,
}

impl CoreDuration {
    #[verifier::type_invariant]
    spec fn well_formed(self) -> bool {
        self.nanos < NANOS_PER_SEC
    }

    /// The whole seconds.
    pub closed spec fn whole_secs(self) -> nat {
        self.secs as nat
    }

    /// The nanoseconds past the whole seconds.
    pub closed spec fn subsec(self) -> nat {
        self.nanos as nat
    }

    /// The span of `n` nanoseconds.
    pub closed spec fn from_total_nanos(n: nat) -> CoreDuration {
        CoreDuration { secs: (n / 1_000_000_000) as u64, nanos: (n % 1_000_000_000) as u32 }
    }

    /// The span of `n` nanoseconds holds `n` nanoseconds, where its seconds fit in `u64`.
    pub proof fn lemma_from_total_nanos(n: nat)
        requires
            n / 1_000_000_000 <= u64::MAX,
        ensures
            Self::from_total_nanos(n).total_nanos() == n,
    {
        vstd::arithmetic::div_mod::lemma_fundamental_div_mod(n as int, 1_000_000_000);
    }

    /// With fewer than a second of nanoseconds past the whole seconds, the whole seconds
    /// of the span are its nanoseconds divided by a billion.
    pub proof fn lemma_whole_seconds(self)
        requires
            self.subsec() < 1_000_000_000,
        ensures
            self.total_nanos() / 1_000_000_000 == self.whole_secs(),
            self.whole_secs() <= u64::MAX,
    {
        lemma_split_div(self.whole_secs(), self.subsec(), 1_000_000_000, 1);
    }

    /// The whole span in nanoseconds.
    pub open spec fn total_nanos(self) -> nat {
        self.whole_secs() * 1_000_000_000 + self.subsec()
    }

    /// The span of `secs` seconds and `nanos` nanoseconds; nanoseconds beyond a second
    /// carry into the seconds, which must not overflow.
    pub fn new(secs: u64, nanos: u32) -> (d: CoreDuration)
        requires
            secs + nanos / 1_000_000_000 <= u64::MAX,
        ensures
            d.total_nanos() == secs * 1_000_000_000 + nanos,
            d.subsec() < 1_000_000_000,
    {
        let carry = (nanos / 1_000_000_000) as u64;
        let rest = nanos % 1_000_000_000;
        assert(nanos == 1_000_000_000 * carry + rest) by (nonlinear_arith)
            requires
                carry == nanos / 1_000_000_000,
                rest == nanos % 1_000_000_000,
        ;
        CoreDuration { secs: secs + carry, nanos: rest }
    }

    /// The span of `secs` whole seconds.
    pub fn from_secs(secs: u64) -> (d: CoreDuration)
        ensures
            d == CoreDuration::from_total_nanos((secs * 1_000_000_000) as nat),
            d.total_nanos() == secs * 1_000_000_000,
            d.subsec() < 1_000_000_000,
    {
        proof {
            lemma_split_div(secs as nat, 0, 1_000_000_000, 1);
            lemma_split_mod(secs as nat, 0);
        }
        CoreDuration { secs, nanos: 0 }
    }

    /// The span of `millis` milliseconds.
    pub fn from_millis(millis: u64) -> (d: CoreDuration)
        ensures
            d == CoreDuration::from_total_nanos((millis * 1_000_000) as nat),
            d.total_nanos() == millis * 1_000_000,
            d.subsec() < 1_000_000_000,
    {
        let secs = millis / 1_000;
        let rest = millis % 1_000;
        assert(millis * 1_000_000 == secs * 1_000_000_000 + rest * 1_000_000) by (nonlinear_arith)
            requires
                secs == millis / 1_000,
                rest == millis % 1_000,
        ;
        proof {
            lemma_split_div(secs as nat, (rest * 1_000_000) as nat, 1_000_000_000, 1);
            lemma_split_mod(secs as nat, (rest * 1_000_000) as nat);
        }
        CoreDuration { secs, nanos: (rest * 1_000_000) as u32 }
    }

    /// The span of `micros` microseconds.
    pub fn from_micros(micros: u64) -> (d: CoreDuration)
        ensures
            d == CoreDuration::from_total_nanos((micros * 1_000) as nat),
            d.total_nanos() == micros * 1_000,
            d.subsec() < 1_000_000_000,
    {
        let secs = micros / 1_000_000;
        let rest = micros % 1_000_000;
        assert(micros * 1_000 == secs * 1_000_000_000 + rest * 1_000) by (nonlinear_arith)
            requires
                secs == micros / 1_000_000,
                rest == micros % 1_000_000,
        ;
        proof {
            lemma_split_div(secs as nat, (rest * 1_000) as nat, 1_000_000_000, 1);
            lemma_split_mod(secs as nat, (rest * 1_000) as nat);
        }
        CoreDuration { secs, nanos: (rest * 1_000) as u32 }
    }

    /// The span of `nanos` nanoseconds.
    pub fn from_nanos(nanos: u64) -> (d: CoreDuration)
        ensures
            d == CoreDuration::from_total_nanos(nanos as nat),
            d.total_nanos() == nanos,
            d.subsec() < 1_000_000_000,
    {
        let secs = nanos / NANOS_PER_SEC;
        let rest = nanos % NANOS_PER_SEC;
        assert(nanos == secs * 1_000_000_000 + rest) by (nonlinear_arith)
            requires
                secs == nanos / 1_000_000_000,
                rest == nanos % 1_000_000_000,
        ;
        proof {
            lemma_split_div(secs as nat, rest as nat, 1_000_000_000, 1);
            lemma_split_mod(secs as nat, rest as nat);
        }
        CoreDuration { secs, nanos: rest as u32 }
    }

    /// The whole seconds of the span.
    pub fn as_secs(&self) -> (s: u64)
        ensures
            s == self.total_nanos() / 1_000_000_000,
    {
        proof {
            use_type_invariant(self);
            lemma_split_div(self.secs as nat, self.nanos as nat, 1_000_000_000, 1);
        }
        self.secs
    }

    /// The nanoseconds past the whole seconds.
    pub fn subsec_nanos(&self) -> (n: u32)
        ensures
            n == self.total_nanos() % 1_000_000_000,
    {
        proof {
            use_type_invariant(self);
            lemma_split_mod(self.secs as nat, self.nanos as nat);
        }
        self.nanos
    }

    /// The whole milliseconds of the span.
    pub fn as_millis(&self) -> (m: u128)
        ensures
            m == self.total_nanos() / 1_000_000,
    {
        proof {
            use_type_invariant(self);
            lemma_split_div(self.secs as nat, self.nanos as nat, 1_000_000, 1_000);
        }
        self.secs as u128 * 1_000 + (self.nanos / 1_000_000) as u128
    }

    /// The whole microseconds of the span.
    pub fn as_micros(&self) -> (m: u128)
        ensures
            m == self.total_nanos() / 1_000,
    {
        proof {
            use_type_invariant(self);
            lemma_split_div(self.secs as nat, self.nanos as nat, 1_000, 1_000_000);
        }
        self.secs as u128 * 1_000_000 + (self.nanos / 1_000) as u128
    }

    /// The whole span in nanoseconds.
    pub fn as_nanos(&self) -> (n: u128)
        ensures
            n == self.total_nanos(),
    {
        self.secs as u128 * 1_000_000_000 + self.nanos as u128
    }
}

/// Dividing seconds-and-nanoseconds by a unit of `unit` nanoseconds, with
/// `unit * per_sec` nanoseconds in a second.
proof fn lemma_split_div(secs: nat, nanos: nat, unit: nat, per_sec: nat)
    requires
        unit > 0,
        unit * per_sec == 1_000_000_000,
    ensures
        (secs * 1_000_000_000 + nanos) / unit == secs * per_sec + nanos / unit,
{
    assert((secs * 1_000_000_000 + nanos) == unit * (secs * per_sec) + nanos) by (nonlinear_arith)
        requires
            unit * per_sec == 1_000_000_000,
    ;
    lemma_div_add_multiple(secs * per_sec, nanos, unit);
}

proof fn lemma_div_add_multiple(a: nat, b: nat, d: nat)
    requires
        d > 0,
    ensures
        (d * a + b) / d == a + b / d,
{
    vstd::arithmetic::div_mod::lemma_fundamental_div_mod(b as int, d as int);
    let q = b / d;
    let r = b % d;
    assert(d * a + b == d * (a + q) + r) by (nonlinear_arith)
        requires
            b == d * q + r,
    ;
    vstd::arithmetic::div_mod::lemma_div_multiples_vanish_fancy((a + q) as int, r as int, d as int);
}

proof fn lemma_split_mod(secs: nat, nanos: nat)
    requires
        nanos < 1_000_000_000,
    ensures
        (secs * 1_000_000_000 + nanos) % 1_000_000_000 == nanos,
{
    vstd::arithmetic::div_mod::lemma_mod_multiples_vanish(
        secs as int,
        nanos as int,
        1_000_000_000,
    );
    vstd::arithmetic::div_mod::lemma_small_mod(nanos, 1_000_000_000);
}

} // verus!
