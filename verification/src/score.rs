//! Confidence and match scores as exact rationals.
//!
//! Rule confidences and match scores lie in [0, 1] (a scored match may
//! exceed 1 transiently when a bonus is added during deduplication).
//! Representing them as exact fractions keeps every scoring formula of the
//! pipeline — halving for missing paths, length-ratio fuzzy scores, the
//! save-folder bonus — free of rounding, so ordering laws hold exactly.

use vstd::prelude::*;

verus! {

/// An exact non-negative rational `num / den`, used for confidences and
/// match scores.
#[derive(Debug, Clone, Copy)]
pub struct Score {
    pub num: u64,
    pub den: u64,
}

impl Score {
    /// A score is meaningful only with a positive denominator.
    pub open spec fn valid(self) -> bool {
        0 < self.den
    }

    /// Mathematical ordering: `self <= other` as rationals.
    pub open spec fn spec_le(self, other: Score) -> bool {
        self.num * other.den <= other.num * self.den
    }

    /// Strict ordering as rationals.
    pub open spec fn spec_lt(self, other: Score) -> bool {
        self.num * other.den < other.num * self.den
    }

    /// Equality of the represented rational values.
    pub open spec fn same_value(self, other: Score) -> bool {
        self.num * other.den == other.num * self.den
    }

    pub fn new(num: u64, den: u64) -> (r: Score)
        requires
            0 < den,
        ensures
            r.num == num,
            r.den == den,
            r.valid(),
    {
        Score { num, den }
    }

    /// Compare two scores; exact, no rounding.
    pub fn le(&self, other: &Score) -> (r: bool)
        ensures
            r == self.spec_le(*other),
    {
        proof {
            lemma_u64_mul_fits_u128(self.num, other.den);
            lemma_u64_mul_fits_u128(other.num, self.den);
        }
        (self.num as u128) * (other.den as u128) <= (other.num as u128) * (self.den as u128)
    }

    /// Strict comparison.
    pub fn lt(&self, other: &Score) -> (r: bool)
        ensures
            r == self.spec_lt(*other),
    {
        proof {
            lemma_u64_mul_fits_u128(self.num, other.den);
            lemma_u64_mul_fits_u128(other.num, self.den);
        }
        (self.num as u128) * (other.den as u128) < (other.num as u128) * (self.den as u128)
    }

    /// Value equality of the represented rationals.
    pub fn value_eq(&self, other: &Score) -> (r: bool)
        ensures
            r == self.same_value(*other),
    {
        proof {
            lemma_u64_mul_fits_u128(self.num, other.den);
            lemma_u64_mul_fits_u128(other.num, self.den);
        }
        (self.num as u128) * (other.den as u128) == (other.num as u128) * (self.den as u128)
    }

    /// Exactly half of this score.
    pub fn halved(&self) -> (r: Score)
        requires
            self.den <= u64::MAX / 2,
        ensures
            r.num == self.num,
            r.den == 2 * self.den,
            self.valid() ==> r.valid(),
    {
        Score { num: self.num, den: 2 * self.den }
    }

    /// This score plus one tenth (the "looks like a save folder" bonus).
    pub fn plus_tenth(&self) -> (r: Score)
        requires
            self.num <= u64::MAX / 16,
            self.den <= u64::MAX / 16,
        ensures
            r.num == 10 * self.num + self.den,
            r.den == 10 * self.den,
            self.valid() ==> r.valid(),
    {
        Score { num: 10 * self.num + self.den, den: 10 * self.den }
    }
}

/// The product of two `u64` values fits in a `u128`.
proof fn lemma_u64_mul_fits_u128(a: u64, b: u64)
    ensures
        a * b <= 0xffff_ffff_ffff_ffff * 0xffff_ffff_ffff_ffff,
{
    assert(a * b <= 0xffff_ffff_ffff_ffff * 0xffff_ffff_ffff_ffff) by (nonlinear_arith)
        requires
            a <= 0xffff_ffff_ffff_ffff,
            b <= 0xffff_ffff_ffff_ffff,
    ;
}

/// Whether `r` is exactly half of `c`, as rational values.
pub open spec fn is_half_of(r: Score, c: Score) -> bool {
    2 * r.num * c.den == c.num * r.den
}

/// Halving yields exactly half of the original value.
pub proof fn lemma_halved_is_half(c: Score, r: Score)
    requires
        c.valid(),
        r.num == c.num,
        r.den == 2 * c.den,
    ensures
        is_half_of(r, c),
{
    assert(2 * r.num * c.den == c.num * r.den) by (nonlinear_arith)
        requires
            r.num == c.num,
            r.den == 2 * c.den,
    ;
}

/// The ordering is total.
pub proof fn lemma_le_total(a: Score, b: Score)
    requires
        a.valid(),
        b.valid(),
    ensures
        a.spec_le(b) || b.spec_le(a),
{
}

/// A value at most a second, itself strictly below a third, is strictly
/// below the third.
pub proof fn lemma_le_lt_trans(a: Score, b: Score, c: Score)
    requires
        a.valid(),
        b.valid(),
        c.valid(),
        a.spec_le(b),
        b.spec_lt(c),
    ensures
        a.spec_lt(c),
{
    assert(a.num * c.den < c.num * a.den) by (nonlinear_arith)
        requires
            0 < a.den,
            0 < b.den,
            0 < c.den,
            a.num * b.den <= b.num * a.den,
            b.num * c.den < c.num * b.den,
    ;
}

/// The ordering is transitive.
pub proof fn lemma_le_trans(a: Score, b: Score, c: Score)
    requires
        a.valid(),
        b.valid(),
        c.valid(),
        a.spec_le(b),
        b.spec_le(c),
    ensures
        a.spec_le(c),
{
    assert(a.num * c.den <= c.num * a.den) by (nonlinear_arith)
        requires
            0 < a.den,
            0 < b.den,
            0 < c.den,
            a.num * b.den <= b.num * a.den,
            b.num * c.den <= c.num * b.den,
    ;
}

} // verus!
