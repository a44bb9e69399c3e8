use vstd::prelude::*;

verus! {

/// Nanoseconds in one second.
pub const NANOS_PER_SEC: u32 = 1_000_000_000;

/// Nanoseconds in one millisecond.
pub const NANOS_PER_MILLI: u32 = 1_000_000;

/// The longest span that can be held: `u64::MAX` seconds and 999_999_999 nanoseconds.
pub const MAX_TOTAL_NANOS: u128 = 18_446_744_073_709_551_615_999_999_999;

/// A length of time, held as whole seconds and the nanoseconds beyond them,
/// with the same range as `std::time::Duration`.
///
/// Its view is the whole length in nanoseconds.
#[derive(Clone, Copy, Debug, PartialEq, Eq, Structural)]
pub struct Span {
    secs: u64,
    nanos: u32,
}

/// The largest number of nanoseconds that a `Span` can hold.
pub open spec fn max_nanos() -> nat {
    MAX_TOTAL_NANOS as nat
}

/// `x` clamped to the range of a `Span`.
pub open spec fn clamp_nanos(x: nat) -> nat {
    if x <= max_nanos() {
        x
    } else {
        max_nanos()
    }
}

/// `a - b`, or zero where `b` is the larger.
pub open spec fn sub_or_zero(a: nat, b: nat) -> nat {
    if a >= b {
        (a - b) as nat
    } else {
        0
    }
}

impl View for Span {
    type V = nat;

    closed spec fn view(&self) -> nat {
        (self.secs as nat) * (NANOS_PER_SEC as nat) + (self.nanos as nat)
    }
}

impl Span {
    #[verifier::type_invariant]
    spec fn inv(self) -> bool {
        self.nanos < NANOS_PER_SEC
    }

    fn total(&self) -> (r: u128)
        ensures
            r == self@,
            r <= MAX_TOTAL_NANOS,
    {
        proof {
            use_type_invariant(self);
            assert((self.secs as nat) * 1_000_000_000 <= 18_446_744_073_709_551_615nat
                * 1_000_000_000) by (nonlinear_arith)
                requires
                    self.secs <= u64::MAX,
            ;
        }
        (self.secs as u128) * (NANOS_PER_SEC as u128) + (self.nanos as u128)
    }

    fn from_total(t: u128) -> (r: Span)
        requires
            t <= MAX_TOTAL_NANOS,
        ensures
            r@ == t,
    {
        let secs = t / (NANOS_PER_SEC as u128);
        let nanos = t % (NANOS_PER_SEC as u128);
        assert(secs <= u64::MAX) by (nonlinear_arith)
            requires
                secs == t / 1_000_000_000,
                t <= 18_446_744_073_709_551_615_999_999_999,
        ;
        Span { secs: secs as u64, nanos: nanos as u32 }
    }

    /// The empty span.
    pub fn zero() -> (r: Span)
        ensures
            r@ == 0,
    {
        Span { secs: 0, nanos: 0 }
    }

    /// The longest span there is.
    pub fn max_value() -> (r: Span)
        ensures
            r@ == max_nanos(),
    {
        Span { secs: u64::MAX, nanos: NANOS_PER_SEC - 1 }
    }

    /// `secs` seconds and `nanos` nanoseconds; nanoseconds of a second or more
    /// carry into the seconds.
    pub fn new(secs: u64, nanos: u32) -> (r: Span)
        requires
            secs + nanos / NANOS_PER_SEC <= u64::MAX,
        ensures
            r@ == secs * NANOS_PER_SEC + nanos,
    {
        let carry = nanos / NANOS_PER_SEC;
        let rest = nanos % NANOS_PER_SEC;
        let r = Span { secs: secs + carry as u64, nanos: rest };
        assert(r@ == secs * NANOS_PER_SEC + nanos) by (nonlinear_arith)
            requires
                r@ == (secs + carry) * 1_000_000_000 + rest,
                carry == nanos / 1_000_000_000,
                rest == nanos % 1_000_000_000,
        ;
        r
    }

    /// A span of whole seconds.
    pub fn from_secs(secs: u64) -> (r: Span)
        ensures
            r@ == secs * NANOS_PER_SEC,
    {
        Span { secs, nanos: 0 }
    }

    /// A span of whole milliseconds.
    pub fn from_millis(millis: u64) -> (r: Span)
        ensures
            r@ == millis * NANOS_PER_MILLI,
    {
        let secs = millis / 1000;
        let rest = (millis % 1000) as u32;
        let r = Span { secs, nanos: rest * NANOS_PER_MILLI };
        assert(r@ == millis * 1_000_000) by (nonlinear_arith)
            requires
                r@ == secs * 1_000_000_000 + rest * 1_000_000,
                secs == millis / 1000,
                rest == millis % 1000,
        ;
        r
    }

    /// The whole seconds of the span.
    pub fn as_secs(&self) -> (r: u64)
        ensures
            r == self@ / (NANOS_PER_SEC as nat),
    {
        proof {
            use_type_invariant(self);
            assert(self@ / 1_000_000_000 == self.secs) by (nonlinear_arith)
                requires
                    self@ == self.secs * 1_000_000_000 + self.nanos,
                    self.nanos < 1_000_000_000,
            ;
        }
        self.secs
    }

    /// The nanoseconds of the span beyond its whole seconds.
    pub fn subsec_nanos(&self) -> (r: u32)
        ensures
            r == self@ % (NANOS_PER_SEC as nat),
            r < NANOS_PER_SEC,
    {
        proof {
            use_type_invariant(self);
            assert(self@ % 1_000_000_000 == self.nanos) by (nonlinear_arith)
                requires
                    self@ == self.secs * 1_000_000_000 + self.nanos,
                    self.nanos < 1_000_000_000,
            ;
        }
        self.nanos
    }

    /// The whole span in milliseconds, rounded down.
    pub fn as_millis(&self) -> (r: u128)
        ensures
            r == self@ / (NANOS_PER_MILLI as nat),
    {
        self.total() / (NANOS_PER_MILLI as u128)
    }

    /// The whole span in nanoseconds.
    pub fn as_nanos(&self) -> (r: u128)
        ensures
            r == self@,
    {
        self.total()
    }

    /// Whether the span is empty.
    pub fn is_zero(&self) -> (r: bool)
        ensures
            r == (self@ == 0),
    {
        self.total() == 0
    }

    /// The span `n` times over, or the longest span where that is out of range.
    pub fn saturating_mul(&self, n: u32) -> (r: Span)
        ensures
            r@ == clamp_nanos(self@ * (n as nat)),
    {
        let t = self.total();
        proof {
            assert(t * n <= 18_446_744_073_709_551_615_999_999_999u128 * 4_294_967_295u128)
                by (nonlinear_arith)
                requires
                    t <= 18_446_744_073_709_551_615_999_999_999u128,
                    n <= 4_294_967_295u32,
            ;
        }
        let product = t * (n as u128);
        if product > MAX_TOTAL_NANOS {
            Span::max_value()
        } else {
            Span::from_total(product)
        }
    }

    /// This span less `other`, or the empty span where `other` is the longer.
    pub fn saturating_sub(&self, other: Span) -> (r: Span)
        ensures
            r@ == sub_or_zero(self@, other@),
    {
        let a = self.total();
        let b = other.total();
        if a >= b {
            Span::from_total(a - b)
        } else {
            Span::zero()
        }
    }
}

} // verus!
