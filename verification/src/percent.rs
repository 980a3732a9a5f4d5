//! Percentages as fixed-point numbers.

use vstd::prelude::*;

verus! {

/// Number of units in one percentage point.
pub const UNITS_PER_POINT: u32 = 1_000_000;

/// Number of units in one hundred percent.
pub const FULL_UNITS: u32 = 100_000_000;

/// Brings a number of units into the range from zero to one hundred percent.
pub open spec fn clamp_units(units: int) -> int {
    if units < 0 {
        0
    } else if units > FULL_UNITS {
        FULL_UNITS as int
    } else {
        units
    }
}

/// The units of `100 * current / target`, rounded down and brought into range.
///
/// The quotient is that of the two numbers as they are, so an amount and a
/// target that are both negative give the same as their sizes do, and an
/// amount on the other side of zero than the target gives zero. A zero target
/// stands for a goal that any positive amount has passed.
pub open spec fn ratio_units(current: int, target: int) -> int {
    if target == 0 {
        if current > 0 {
            FULL_UNITS as int
        } else {
            0
        }
    } else if target > 0 {
        clamp_units((FULL_UNITS * current) / target)
    } else {
        clamp_units((FULL_UNITS * (-current)) / (-target))
    }
}

/// A percentage between 0 and 100, held in millionths of a percentage point.
#[derive(Clone, Copy, Debug, PartialEq, Eq)]
pub struct Percent {
    units: u32,
}

impl Percent {
    /// The percentage in millionths of a percentage point.
    pub closed spec fn value(self) -> nat {
        self.units as nat
    }

    /// A percentage never exceeds one hundred.
    #[verifier::type_invariant]
    pub open spec fn in_range(self) -> bool {
        self.value() <= FULL_UNITS
    }

    /// Whether the full mark has been reached exactly.
    pub open spec fn complete(self) -> bool {
        self.value() == FULL_UNITS
    }

    /// No progress at all.
    pub fn zero() -> (r: Percent)
        ensures
            r.value() == 0,
            r.in_range(),
    {
        Percent { units: 0 }
    }

    /// One hundred percent.
    pub fn full() -> (r: Percent)
        ensures
            r.value() == FULL_UNITS,
            r.in_range(),
    {
        Percent { units: FULL_UNITS }
    }

    /// The percentage of so many units; anything above the full mark counts as full.
    pub fn from_units(units: u64) -> (r: Percent)
        ensures
            r.value() == clamp_units(units as int),
            r.in_range(),
    {
        if units > FULL_UNITS as u64 {
            Percent { units: FULL_UNITS }
        } else {
            Percent { units: units as u32 }
        }
    }

    /// How far `current` has come toward `target`: one hundred times their
    /// quotient, rounded down to a millionth of a percentage point, and never
    /// less than 0 or more than 100. It is exactly 100 as soon as a positive
    /// target is reached, and stays there however far the target is passed.
    pub fn from_ratio(current: i64, target: i64) -> (r: Percent)
        ensures
            r.value() == ratio_units(current as int, target as int),
            r.in_range(),
            target > 0 && current >= target ==> r.complete(),
            target > 0 && current < target ==> !r.complete(),
    {
        proof {
            if target > 0 {
                lemma_ratio_bounds(current as int, target as int);
            }
        }
        Percent::ratio(current as i128, target as i128)
    }

    /// Which part `part` is of `whole`.
    pub fn from_counts(part: usize, whole: usize) -> (r: Percent)
        ensures
            r.value() == ratio_units(part as int, whole as int),
            r.in_range(),
    {
        Percent::ratio(part as i128, whole as i128)
    }

    fn ratio(current: i128, target: i128) -> (r: Percent)
        requires
            -0x1_0000_0000_0000_0000 <= current <= 0x1_0000_0000_0000_0000,
            -0x1_0000_0000_0000_0000 <= target <= 0x1_0000_0000_0000_0000,
        ensures
            r.value() == ratio_units(current as int, target as int),
            r.in_range(),
    {
        let mut n: i128 = current;
        let mut d: i128 = target;
        if d < 0 {
            n = -n;
            d = -d;
        }
        if d == 0 {
            return if n > 0 { Percent::full() } else { Percent::zero() };
        }
        proof {
            lemma_ratio_bounds(n as int, d as int);
        }
        if n <= 0 {
            return Percent::zero();
        }
        if n >= d {
            return Percent::full();
        }
        assert(FULL_UNITS * n <= FULL_UNITS * 0x1_0000_0000_0000_0000) by (nonlinear_arith)
            requires
                0 < n <= 0x1_0000_0000_0000_0000,
        ;
        let scaled: i128 = (FULL_UNITS as i128) * n;
        let q: i128 = scaled / d;
        Percent { units: q as u32 }
    }

    /// The percentage in millionths of a percentage point.
    pub fn units(&self) -> (r: u32)
        ensures
            r == self.value(),
            r <= FULL_UNITS,
    {
        proof {
            use_type_invariant(self);
        }
        self.units
    }

    /// Whether the full mark has been reached exactly.
    pub fn is_complete(&self) -> (r: bool)
        ensures
            r == self.complete(),
    {
        self.units == FULL_UNITS
    }
}

/// A percentage that is computed as a ratio never leaves the range from 0 to
/// 100, and stands at exactly 100 wherever the ratio itself lies above 100
/// percent: where more has been reached than the target asks for.
pub proof fn lemma_ratio_clamped(current: int, target: int)
    ensures
        0 <= ratio_units(current, target) <= FULL_UNITS,
        target > 0 && current >= target ==> ratio_units(current, target) == FULL_UNITS,
        target < 0 && current <= target ==> ratio_units(current, target) == FULL_UNITS,
        target > 0 && current < target ==> ratio_units(current, target) < FULL_UNITS,
{
    if target > 0 {
        lemma_ratio_bounds(current, target);
    } else if target < 0 {
        lemma_ratio_bounds(-current, -target);
    }
}

/// Where the quotient `FULL_UNITS * n / d` lies for a positive `d`.
pub proof fn lemma_ratio_bounds(n: int, d: int)
    requires
        d > 0,
    ensures
        n <= 0 ==> (FULL_UNITS * n) / d <= 0,
        n >= d ==> (FULL_UNITS * n) / d >= FULL_UNITS,
        0 < n < d ==> 0 <= (FULL_UNITS * n) / d < FULL_UNITS,
{
    let f = FULL_UNITS as int;
    let q = (f * n) / d;
    assert(f * n == d * q + (f * n) % d && 0 <= (f * n) % d < d) by {
        vstd::arithmetic::div_mod::lemma_fundamental_div_mod(f * n, d);
    }
    if n <= 0 {
        assert(f * n <= 0) by (nonlinear_arith)
            requires
                f > 0,
                n <= 0,
        ;
        assert(q <= 0) by (nonlinear_arith)
            requires
                d * q <= 0,
                d > 0,
        ;
    }
    if n >= d {
        assert(f * n >= f * d) by (nonlinear_arith)
            requires
                f > 0,
                n >= d,
        ;
        assert(q >= f) by (nonlinear_arith)
            requires
                d * q + d > f * d,
                d > 0,
        ;
    }
    if 0 < n < d {
        assert(0 <= f * n < f * d) by (nonlinear_arith)
            requires
                f > 0,
                0 < n < d,
        ;
        assert(q < f) by (nonlinear_arith)
            requires
                d * q < f * d,
                d > 0,
        ;
        assert(q >= 0) by (nonlinear_arith)
            requires
                d * q + d > 0,
                d > 0,
        ;
    }
}

} // verus!
