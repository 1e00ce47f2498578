//! Times of impact as exact rational numbers.
//!
//! A time of impact is the ratio `num / den` of two `i128` values with a
//! positive denominator. The solver never divides, so a time is carried
//! exactly: comparisons cross-multiply, which stays within `i128` because
//! numerators and denominators produced by the solver are bounded by
//! [`NUM_BOUND`] and [`DEN_BOUND`].

use vstd::prelude::*;
use crate::geom::lemma_mul_in_bounds;

verus! {

/// Bound on the numerator of a solver-produced time (2^63).
pub const NUM_BOUND: i128 = 0x8000_0000_0000_0000;

/// Bound on the denominator of a solver-produced time (2^62).
pub const DEN_BOUND: i128 = 0x4000_0000_0000_0000;

/// A time of impact: the exact rational `num / den`, with `den > 0`.
#[derive(Clone, Copy, PartialEq, Eq, Structural, Debug)]
pub struct Toi {
    pub num: i128,
    pub den: i128,
}

impl Toi {
    /// Well-formed: positive denominator, and both parts small enough that
    /// comparing two well-formed times by cross-multiplication fits `i128`.
    pub open spec fn wf(self) -> bool {
        &&& 0 < self.den <= DEN_BOUND
        &&& -NUM_BOUND <= self.num <= NUM_BOUND
    }

    /// The time is strictly positive.
    pub open spec fn is_positive(self) -> bool {
        self.num > 0
    }

    /// `self < other`, as rationals with positive denominators.
    pub open spec fn lt_spec(self, other: Toi) -> bool {
        self.num * other.den < other.num * self.den
    }

    /// `self <= other`, as rationals with positive denominators.
    pub open spec fn le_spec(self, other: Toi) -> bool {
        self.num * other.den <= other.num * self.den
    }

    /// The time equals the integer `k`.
    pub open spec fn eq_int_spec(self, k: int) -> bool {
        self.num == k * self.den
    }

    pub fn new(num: i128, den: i128) -> (r: Self)
        ensures
            r.num == num,
            r.den == den,
    {
        Toi { num, den }
    }

    pub fn positive(&self) -> (r: bool)
        ensures
            r == self.is_positive(),
    {
        self.num > 0
    }

    /// Strict comparison of two times, exact.
    pub fn lt(&self, other: &Toi) -> (r: bool)
        requires
            self.wf(),
            other.wf(),
        ensures
            r == self.lt_spec(*other),
    {
        proof {
            lemma_mul_in_bounds(self.num as int, other.den as int, NUM_BOUND as int, DEN_BOUND as int);
            lemma_mul_in_bounds(other.num as int, self.den as int, NUM_BOUND as int, DEN_BOUND as int);
        }
        self.num * other.den < other.num * self.den
    }

    /// Non-strict comparison of two times, exact.
    pub fn le(&self, other: &Toi) -> (r: bool)
        requires
            self.wf(),
            other.wf(),
        ensures
            r == self.le_spec(*other),
    {
        proof {
            lemma_mul_in_bounds(self.num as int, other.den as int, NUM_BOUND as int, DEN_BOUND as int);
            lemma_mul_in_bounds(other.num as int, self.den as int, NUM_BOUND as int, DEN_BOUND as int);
        }
        self.num * other.den <= other.num * self.den
    }

    /// Does the time equal the integer `k`? Exact, for any well-formed time.
    pub fn eq_int(&self, k: i64) -> (r: bool)
        requires
            self.wf(),
        ensures
            r == self.eq_int_spec(k as int),
    {
        proof {
            lemma_mul_in_bounds(k as int, self.den as int, NUM_BOUND as int, DEN_BOUND as int);
        }
        self.num == (k as i128) * self.den
    }

    /// The time is at most 1: a hit within the current step when the
    /// velocity encodes one full step of displacement.
    pub fn le_one(&self) -> (r: bool)
        requires
            self.wf(),
        ensures
            r == (self.num <= self.den),
    {
        self.num <= self.den
    }
}

} // verus!
