//! Lengths and coordinates.
//!
//! The table measures in single-precision pixels. What this crate decides
//! never adds or scales such a number: it carries it, compares it, and takes
//! the larger or the smaller of two. For that the bit pattern of the number is
//! enough, so that is what [`Px`] holds.

use vstd::prelude::*;

verus! {

/// A single-precision number of pixels, as its bit pattern.
///
/// Two lengths compare as the numbers do: both zeros are equal, and NaN is
/// neither equal to anything, nor below or above it.
#[derive(Debug, Clone, Copy)]
pub struct Px {
    pub bits: u32,
}

/// The bit that marks a negative number.
pub const SIGN: u32 = 0x8000_0000;

/// Bit pattern of infinity. The patterns beyond it, of either sign, are NaN.
pub const INFINITY: u32 = 0x7f80_0000;

/// Place of a number in the order of the numbers. Positive numbers have their bit
/// pattern as their rank; a negative number has the negated rank of its opposite;
/// both zeros have rank zero. Of two numbers the smaller has the smaller rank.
pub open spec fn rank_of(length: Px) -> int {
    if length.bits < SIGN {
        length.bits as int
    } else {
        SIGN - length.bits
    }
}

/// Place of a bit pattern in the total order of them all: the negative zero comes
/// just before the positive one, the NaNs beyond the infinities.
pub open spec fn total_rank(length: Px) -> int {
    if length.bits < SIGN {
        length.bits as int
    } else {
        SIGN - length.bits - 1
    }
}

/// Is this no number at all?
pub open spec fn is_nan(length: Px) -> bool {
    rank_of(length) > INFINITY || rank_of(length) < -INFINITY
}

/// Is the first number smaller than the second? Not if either is NaN.
pub open spec fn below(a: Px, b: Px) -> bool {
    !is_nan(a) && !is_nan(b) && rank_of(a) < rank_of(b)
}

/// Is the first number no larger than the second? Not if either is NaN.
pub open spec fn at_most(a: Px, b: Px) -> bool {
    !is_nan(a) && !is_nan(b) && rank_of(a) <= rank_of(b)
}

/// Are the two the same number? Not if either is NaN.
pub open spec fn equal(a: Px, b: Px) -> bool {
    !is_nan(a) && !is_nan(b) && rank_of(a) == rank_of(b)
}

/// Is the first at least as large as the second, if the second is a number?
pub open spec fn covers(a: Px, b: Px) -> bool {
    is_nan(b) || at_most(b, a)
}

/// The smaller of two lengths, or the one that is a number if only one is.
pub open spec fn smaller(a: Px, b: Px) -> Px {
    if is_nan(a) || below(b, a) {
        b
    } else {
        a
    }
}

/// The larger of two lengths, or the one that is a number if only one is.
pub open spec fn larger(a: Px, b: Px) -> Px {
    if is_nan(a) || below(a, b) {
        b
    } else {
        a
    }
}

/// The nearest length to this one between two bounds. NaN stays NaN.
pub open spec fn held_between(length: Px, low: Px, high: Px) -> Px {
    if below(length, low) {
        low
    } else if below(high, length) {
        high
    } else {
        length
    }
}

impl PartialEq for Px {
    fn eq(&self, other: &Px) -> (same: bool) {
        !self.is_nan() && !other.is_nan() && self.rank() == other.rank()
    }
}

impl vstd::std_specs::cmp::PartialEqSpecImpl for Px {
    open spec fn obeys_eq_spec() -> bool {
        true
    }

    open spec fn eq_spec(&self, other: &Px) -> bool {
        equal(*self, *other)
    }
}

impl Px {
    /// The length zero.
    pub fn zero() -> (result: Px)
        ensures
            result == zero(),
    {
        Px { bits: 0 }
    }

    /// The number with this bit pattern.
    pub fn from_bits(bits: u32) -> (result: Px)
        ensures
            result == (Px { bits }),
    {
        Px { bits }
    }

    /// The bit pattern of this number.
    pub fn to_bits(self) -> (bits: u32)
        ensures
            bits == self.bits,
    {
        self.bits
    }

    fn rank(self) -> (rank: i32)
        ensures
            rank == rank_of(self),
    {
        if self.bits < SIGN {
            self.bits as i32
        } else {
            let magnitude: u32 = self.bits - SIGN;

            -(magnitude as i32)
        }
    }

    /// Does the first come before the second in the total order of all bit
    /// patterns?
    pub fn precedes(self, other: Px) -> (precedes: bool)
        ensures
            precedes == (total_rank(self) < total_rank(other)),
    {
        match (self.bits < SIGN, other.bits < SIGN) {
            (true, true) => self.bits < other.bits,
            (false, false) => other.bits < self.bits,
            (first, _) => !first,
        }
    }

    /// Is this no number at all?
    pub fn is_nan(self) -> (nan: bool)
        ensures
            nan == is_nan(self),
    {
        let magnitude: u32 = if self.bits < SIGN {
            self.bits
        } else {
            self.bits - SIGN
        };

        magnitude > INFINITY
    }

    /// Is this number smaller than the other? Not if either is NaN.
    pub fn is_below(self, other: Px) -> (result: bool)
        ensures
            result == below(self, other),
    {
        !self.is_nan() && !other.is_nan() && self.rank() < other.rank()
    }

    /// Is this number no larger than the other? Not if either is NaN.
    pub fn is_at_most(self, other: Px) -> (result: bool)
        ensures
            result == at_most(self, other),
    {
        !self.is_nan() && !other.is_nan() && self.rank() <= other.rank()
    }

    /// The larger of two lengths, or the one that is a number if only one is.
    pub fn max(self, other: Px) -> (result: Px)
        ensures
            result == larger(self, other),
    {
        if self.is_nan() || self.is_below(other) {
            other
        } else {
            self
        }
    }

    /// The smaller of two lengths, or the one that is a number if only one is.
    pub fn min(self, other: Px) -> (result: Px)
        ensures
            result == smaller(self, other),
    {
        if self.is_nan() || other.is_below(self) {
            other
        } else {
            self
        }
    }

    /// The nearest length to this one between two bounds. NaN stays NaN.
    pub fn clamp(self, low: Px, high: Px) -> (result: Px)
        requires
            at_most(low, high),
        ensures
            result == held_between(self, low, high),
    {
        if self.is_below(low) {
            low
        } else if high.is_below(self) {
            high
        } else {
            self
        }
    }
}

/// The length zero.
pub open spec fn zero() -> Px {
    Px { bits: 0 }
}

/// A place in the plane, or a distance on each axis.
#[derive(Debug, Clone, Copy, PartialEq)]
pub struct Point {
    pub x: Px,
    pub y: Px,
}

impl Point {
    /// Are the two the same place? Not if any coordinate is NaN.
    pub fn coincides(self, other: Point) -> (same: bool)
        ensures
            same == same_place(self, other),
    {
        self.x == other.x && self.y == other.y
    }
}

/// Are the two the same place? Not if any coordinate is NaN.
pub open spec fn same_place(a: Point, b: Point) -> bool {
    equal(a.x, b.x) && equal(a.y, b.y)
}

/// Of two numbers one is below the other, or they are equal, and never more than
/// one of the three. NaN is none of the three to anything, itself included.
pub proof fn numbers_compare_and_nan_does_not(a: Px, b: Px)
    ensures
        !is_nan(a) && !is_nan(b) ==> below(a, b) || equal(a, b) || below(b, a),
        is_nan(a) || is_nan(b) ==> !below(a, b) && !equal(a, b) && !at_most(a, b),
        !(below(a, b) && below(b, a)),
        !(below(a, b) && equal(a, b)),
        at_most(a, b) <==> below(a, b) || equal(a, b),
{
}

/// The larger of two lengths covers both, the smaller is above neither, and either
/// is a number if one of the two is.
pub proof fn a_number_outlasts_nan(a: Px, b: Px)
    ensures
        covers(larger(a, b), a) && covers(larger(a, b), b),
        !below(a, smaller(a, b)) && !below(b, smaller(a, b)),
        is_nan(larger(a, b)) ==> is_nan(a) && is_nan(b),
        is_nan(smaller(a, b)) ==> is_nan(a) && is_nan(b),
{
}

/// Of two lengths the larger is one of them, and so is the smaller: where they
/// differ, the one and the other; where they do not, the first.
pub proof fn one_of_the_two_is_taken(a: Px, b: Px)
    ensures
        below(a, b) ==> larger(a, b) == b && smaller(a, b) == a,
        below(b, a) ==> larger(a, b) == a && smaller(a, b) == b,
        equal(a, b) ==> larger(a, b) == a && smaller(a, b) == a,
        is_nan(a) ==> larger(a, b) == b && smaller(a, b) == b,
        is_nan(b) && !is_nan(a) ==> larger(a, b) == a && smaller(a, b) == a,
{
}

/// A length between two bounds is kept, one below them is raised to the lower and
/// one above them lowered to the upper. NaN stays NaN.
pub proof fn a_length_is_held_between_its_bounds(length: Px, low: Px, high: Px)
    requires
        at_most(low, high),
    ensures
        at_most(low, length) && at_most(length, high) ==> held_between(length, low, high) == length,
        below(length, low) ==> held_between(length, low, high) == low,
        below(high, length) ==> held_between(length, low, high) == high,
        is_nan(length) ==> held_between(length, low, high) == length,
{
}

/// Bit patterns without a sign run up with the numbers they stand for, those with
/// one run down; every number with a sign is below every one without, but for the
/// two zeros, which are equal. What is beyond infinity is no number.
pub proof fn bit_patterns_run_with_the_numbers(a: Px, b: Px)
    ensures
        a.bits <= 0x7f80_0000 && b.bits <= 0x7f80_0000 ==> (below(a, b) <==> a.bits < b.bits),
        0x8000_0000 <= a.bits <= 0xff80_0000 && 0x8000_0000 <= b.bits <= 0xff80_0000 ==> (below(
            a,
            b,
        ) <==> a.bits > b.bits),
        0x8000_0000 < a.bits <= 0xff80_0000 && b.bits <= 0x7f80_0000 ==> below(a, b),
        a.bits == 0x8000_0000 && b.bits == 0 ==> equal(a, b),
        is_nan(a) <==> 0x7f80_0000 < a.bits < 0x8000_0000 || a.bits > 0xff80_0000,
        zero().bits == 0,
{
}

/// What is below something is below all that is above it.
pub proof fn below_carries_on(a: Px, b: Px, c: Px)
    ensures
        below(a, b) && at_most(b, c) ==> below(a, c),
        at_most(a, b) && below(b, c) ==> below(a, c),
        at_most(a, b) && at_most(b, c) ==> at_most(a, c),
        equal(a, b) && equal(b, c) ==> equal(a, c),
{
}

} // verus!
