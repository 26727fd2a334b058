//! 32-bit floating-point numbers, carried by their bit patterns and compared by
//! value.
use vstd::prelude::*;

verus! {

/// A 32-bit binary floating-point number, held as its bit pattern.
#[derive(Clone, Copy, Debug, PartialEq, Eq, Structural)]
pub struct Float(pub u32);

/// The bits of zero.
pub const ZERO: u32 = 0;

/// The bits of one half.
pub const HALF: u32 = 0x3f00_0000;

/// The bits of the number nearest to 0.6.
pub const SIX_TENTHS: u32 = 0x3f19_999a;

/// The bits of the number nearest to 0.7.
pub const SEVEN_TENTHS: u32 = 0x3f33_3333;

/// The bits of the number nearest to 0.8.
pub const EIGHT_TENTHS: u32 = 0x3f4c_cccd;

/// The bits of the number nearest to 0.85.
pub const EIGHTY_FIVE_HUNDREDTHS: u32 = 0x3f59_999a;

/// The bits of the number nearest to 0.9.
pub const NINE_TENTHS: u32 = 0x3f66_6666;

/// The bits of the number nearest to 0.95.
pub const NINETY_FIVE_HUNDREDTHS: u32 = 0x3f73_3333;

/// The bits of one.
pub const ONE: u32 = 0x3f80_0000;

impl Float {
    /// The bit pattern without the sign.
    pub open spec fn magnitude(self) -> int {
        self.0 as int % 0x8000_0000
    }

    /// Not a number.
    pub open spec fn is_nan(self) -> bool {
        self.magnitude() > 0x7f80_0000
    }

    /// An integer that orders the numbers as their values do. Both zeros have
    /// the same one.
    pub open spec fn key(self) -> int {
        if self.0 >= 0x8000_0000 {
            -self.magnitude()
        } else {
            self.magnitude()
        }
    }

    /// `self < other` by value; false where either is not a number.
    pub open spec fn below(self, other: Float) -> bool {
        !self.is_nan() && !other.is_nan() && self.key() < other.key()
    }

    /// `self <= other` by value; false where either is not a number.
    pub open spec fn at_most(self, other: Float) -> bool {
        !self.is_nan() && !other.is_nan() && self.key() <= other.key()
    }

    /// A number from 0 to 1.
    pub open spec fn in_unit(self) -> bool {
        Float(ZERO).at_most(self) && self.at_most(Float(ONE))
    }

    /// The nearest number from 0 to 1; what is not a number stays.
    pub open spec fn unit(self) -> Float {
        if self.below(Float(ZERO)) {
            Float(ZERO)
        } else if Float(ONE).below(self) {
            Float(ONE)
        } else {
            self
        }
    }

    /// The greater of two numbers; `self` where neither is greater.
    pub open spec fn greater(self, other: Float) -> Float {
        if self.below(other) || self.is_nan() {
            other
        } else {
            self
        }
    }

    /// Whether this is not a number.
    pub fn nan(self) -> (r: bool)
        ensures
            r == self.is_nan(),
    {
        self.0 % 0x8000_0000 > 0x7f80_0000
    }

    /// `self < other` by value.
    pub fn less(self, other: Float) -> (r: bool)
        ensures
            r == self.below(other),
    {
        if self.nan() || other.nan() {
            return false;
        }
        let a: i64 = if self.0 >= 0x8000_0000 {
            -((self.0 % 0x8000_0000) as i64)
        } else {
            (self.0 % 0x8000_0000) as i64
        };
        let b: i64 = if other.0 >= 0x8000_0000 {
            -((other.0 % 0x8000_0000) as i64)
        } else {
            (other.0 % 0x8000_0000) as i64
        };
        a < b
    }

    /// `self <= other` by value.
    pub fn less_or_equal(self, other: Float) -> (r: bool)
        ensures
            r == self.at_most(other),
    {
        !self.nan() && !other.nan() && !other.less(self)
    }

    /// The nearest number from 0 to 1; what is not a number stays.
    pub fn clamp_unit(self) -> (r: Float)
        ensures
            r == self.unit(),
    {
        if self.less(Float(ZERO)) {
            Float(ZERO)
        } else if Float(ONE).less(self) {
            Float(ONE)
        } else {
            self
        }
    }

    /// The greater of two numbers.
    pub fn max(self, other: Float) -> (r: Float)
        ensures
            r == self.greater(other),
    {
        if self.less(other) || self.nan() {
            other
        } else {
            self
        }
    }

    /// Whether this is a number from 0 to 1.
    pub fn within_unit(self) -> (r: bool)
        ensures
            r == self.in_unit(),
    {
        Float(ZERO).less_or_equal(self) && self.less_or_equal(Float(ONE))
    }
}

/// Clamping leaves a number from 0 to 1, and leaves such a number as it is.
pub proof fn law_unit_is_in_unit(x: Float)
    requires
        !x.is_nan(),
    ensures
        x.unit().in_unit(),
        x.in_unit() ==> x.unit() == x,
{
}

/// `n` tenths, for `n` from 0 to 10.
pub open spec fn tenths(n: int) -> Float {
    if n == 0 {
        Float(ZERO)
    } else if n == 1 {
        Float(0x3dcc_cccd)
    } else if n == 2 {
        Float(0x3e4c_cccd)
    } else if n == 3 {
        Float(0x3e99_999a)
    } else if n == 4 {
        Float(0x3ecc_cccd)
    } else if n == 5 {
        Float(HALF)
    } else if n == 6 {
        Float(SIX_TENTHS)
    } else if n == 7 {
        Float(SEVEN_TENTHS)
    } else if n == 8 {
        Float(EIGHT_TENTHS)
    } else if n == 9 {
        Float(NINE_TENTHS)
    } else {
        Float(ONE)
    }
}

/// Of a positive normal number, the 24-bit significand.
pub open spec fn significand(x: Float) -> int {
    x.0 as int % 0x80_0000 + 0x80_0000
}

/// Of a positive normal number from 1/16 up to 1, two to the power of minus the
/// exponent that goes with `significand`: the number is their quotient.
pub open spec fn divisor(x: Float) -> int {
    let e = x.0 / 0x80_0000;
    if e == 127 {
        0x80_0000
    } else if e == 126 {
        0x100_0000
    } else if e == 125 {
        0x200_0000
    } else if e == 124 {
        0x400_0000
    } else {
        0x800_0000
    }
}

/// The tenths from one to ten are the numbers nearest to their names: the value
/// `significand / divisor` differs from `n / 10` by less than half of
/// `1 / divisor`.
pub proof fn law_tenths_are_nearest(n: int)
    requires
        1 <= n <= 10,
    ensures
        123 <= tenths(n).0 / 0x80_0000 <= 127,
        -5 < 10 * significand(tenths(n)) - n * divisor(tenths(n)) < 5,
{
    assert(n == 1 || n == 2 || n == 3 || n == 4 || n == 5 || n == 6 || n == 7 || n == 8 || n == 9
        || n == 10);
}

/// More tenths make a greater number.
pub proof fn law_tenths_grow(m: int, n: int)
    requires
        0 <= m < n <= 10,
    ensures
        tenths(m).below(tenths(n)),
{
    assert(m == 0 || m == 1 || m == 2 || m == 3 || m == 4 || m == 5 || m == 6 || m == 7 || m == 8
        || m == 9);
}

/// Numbers are ordered by value: of two that are not the same in value one is below
/// the other, never both; what is below something is below whatever that is below;
/// and what is not a number is neither below nor above anything.
pub proof fn law_numbers_are_ordered(a: Float, b: Float, c: Float)
    ensures
        a.below(b) ==> !b.below(a) && a.at_most(b) && !b.at_most(a),
        a.below(b) && b.below(c) ==> a.below(c),
        !a.is_nan() && !b.is_nan() ==> a.below(b) || b.below(a) || (a.at_most(b) && b.at_most(a)),
        a.is_nan() ==> !a.below(b) && !b.below(a) && !a.at_most(b) && !b.at_most(a),
        a.at_most(b) <==> !a.is_nan() && !b.is_nan() && !b.below(a),
{
}

/// The bits of numbers from zero up grow with their values, and those of numbers
/// below zero grow as they fall; the two zeros are the same in value.
pub proof fn law_bits_tell_the_order(a: Float, b: Float)
    ensures
        a.0 <= 0x7f80_0000 && b.0 <= 0x7f80_0000 ==> (a.below(b) <==> a.0 < b.0),
        0x8000_0000 < a.0 <= 0xff80_0000 && b.0 <= 0x7f80_0000 ==> a.below(b),
        0x8000_0000 <= a.0 <= 0xff80_0000 && 0x8000_0000 <= b.0 <= 0xff80_0000 ==> (a.below(b)
            <==> b.0 < a.0),
        Float(0).at_most(Float(0x8000_0000)) && Float(0x8000_0000).at_most(Float(0)),
        a.is_nan() <==> 0x7f80_0000 < a.0 < 0x8000_0000 || a.0 > 0xff80_0000,
{
}

/// Clamping a number gives 0 below, 1 above, and the number itself between; the
/// greater of two is one of them, and neither is above it.
pub proof fn law_clamping_and_greater(a: Float, b: Float)
    ensures
        a.below(Float(0)) ==> a.unit() == Float(0),
        Float(0x3f80_0000).below(a) ==> a.unit() == Float(0x3f80_0000),
        Float(0).at_most(a) && a.at_most(Float(0x3f80_0000)) ==> a.unit() == a,
        a.greater(b) == a || a.greater(b) == b,
        !a.is_nan() && !b.is_nan() ==> a.at_most(a.greater(b)) && b.at_most(a.greater(b)),
        a.in_unit() <==> Float(0).at_most(a) && a.at_most(Float(0x3f80_0000)),
{
}

} // verus!
