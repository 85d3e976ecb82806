//! Single-precision numbers, held as their bit patterns and compared as numbers.
use vstd::arithmetic::power2::*;
use vstd::prelude::*;

verus! {

/// An IEEE 754 binary32 number, by its bit pattern.
///
/// The library carries and compares such numbers; it does no arithmetic on them.
#[derive(Clone, Copy, Debug, PartialEq, Eq, Structural)]
pub struct Single {
    pub bits: u32,
}

/// The absolute value of the number with the given bits below the sign bit, in units of the least
/// positive number: a biased exponent of 8 bits, and a fraction of 23 bits to which a leading one
/// belongs unless the exponent is zero. Infinity comes out above every finite number.
pub open spec fn absolute(magnitude: nat) -> nat {
    let exponent = magnitude / 0x80_0000;
    let fraction = magnitude % 0x80_0000;
    if exponent == 0 {
        fraction
    } else {
        (0x80_0000 + fraction) * pow2((exponent - 1) as nat)
    }
}

impl Single {
    /// The sign bit is set.
    pub open spec fn negative(self) -> bool {
        self.bits >= 0x8000_0000
    }

    /// The bits below the sign bit.
    pub open spec fn magnitude(self) -> nat {
        if self.negative() {
            (self.bits - 0x8000_0000) as nat
        } else {
            self.bits as nat
        }
    }

    /// Not a number: the exponent is all ones and the fraction is not zero.
    pub open spec fn is_nan(self) -> bool {
        self.magnitude() > 0x7f80_0000
    }

    /// The number, in units of the least positive one.
    pub open spec fn number(self) -> int {
        if self.negative() {
            -absolute(self.magnitude())
        } else {
            absolute(self.magnitude()) as int
        }
    }

    /// `self > other`, which is false wherever one of them is not a number.
    pub open spec fn above(self, other: Single) -> bool {
        &&& !self.is_nan()
        &&& !other.is_nan()
        &&& self.number() > other.number()
    }

    /// `self >= other`, which is false wherever one of them is not a number.
    pub open spec fn at_least(self, other: Single) -> bool {
        &&& !self.is_nan()
        &&& !other.is_nan()
        &&& self.number() >= other.number()
    }

    /// Zero, with a positive sign.
    #[verifier::allow_in_spec]
    pub fn zero() -> Single
        returns
            (Single { bits: 0 }),
    {
        Single { bits: 0 }
    }

    /// Whether the number is greater than `other`.
    pub fn gt(self, other: Single) -> (r: bool)
        ensures
            r == self.above(other),
            r == (!self.is_nan() && !other.is_nan() && self.rank() > other.rank()),
    {
        proof {
            rank_orders_numbers(self, other);
        }
        !self.nan() && !other.nan() && self.place() > other.place()
    }

    /// Whether the number is `other` or greater.
    pub fn ge(self, other: Single) -> (r: bool)
        ensures
            r == self.at_least(other),
            r == (!self.is_nan() && !other.is_nan() && self.rank() >= other.rank()),
    {
        proof {
            rank_orders_numbers(self, other);
        }
        !self.nan() && !other.nan() && self.place() >= other.place()
    }

    /// Whether the number is `other` or less.
    pub fn le(self, other: Single) -> (r: bool)
        ensures
            r == other.at_least(self),
            r == (!self.is_nan() && !other.is_nan() && self.rank() <= other.rank()),
    {
        other.ge(self)
    }

    fn nan(self) -> (r: bool)
        ensures
            r == self.is_nan(),
    {
        if self.bits >= 0x8000_0000 {
            self.bits - 0x8000_0000 > 0x7f80_0000
        } else {
            self.bits > 0x7f80_0000
        }
    }

    /// The place of the number among all numbers, read off its bits.
    pub open spec fn rank(self) -> int {
        if self.negative() {
            -self.magnitude()
        } else {
            self.magnitude() as int
        }
    }

    fn place(self) -> (r: i64)
        ensures
            r == self.rank(),
    {
        if self.bits >= 0x8000_0000 {
            0x8000_0000 - self.bits as i64
        } else {
            self.bits as i64
        }
    }
}

/// Absolute values grow with the bits below the sign bit.
proof fn absolute_grows(a: nat, b: nat)
    requires
        a < b,
    ensures
        absolute(a) < absolute(b),
{
    let ea = a / 0x80_0000;
    let fa = a % 0x80_0000;
    let eb = b / 0x80_0000;
    let fb = b % 0x80_0000;
    assert(ea <= eb);
    if ea == eb {
        assert(fa < fb);
        if ea > 0 {
            let p = pow2((ea - 1) as nat);
            lemma_pow2_pos((ea - 1) as nat);
            assert((0x80_0000 + fa) * p < (0x80_0000 + fb) * p) by (nonlinear_arith)
                requires
                    fa < fb,
                    p > 0,
            ;
        }
    } else {
        let q = pow2((eb - 1) as nat);
        lemma_pow2_pos((eb - 1) as nat);
        assert((0x80_0000 + fb) * q >= 0x80_0000 * q) by (nonlinear_arith)
            requires
                q > 0,
        ;
        if ea == 0 {
            assert(fa < 0x80_0000 * q) by (nonlinear_arith)
                requires
                    fa < 0x80_0000,
                    q > 0,
            ;
        } else {
            let p = pow2((ea - 1) as nat);
            lemma_pow2_pos((ea - 1) as nat);
            lemma_pow2_unfold(ea);
            if ea < eb - 1 {
                lemma_pow2_strictly_increases(ea, (eb - 1) as nat);
            }
            assert(2 * p <= q);
            assert((0x80_0000 + fa) * p < 0x80_0000 * q) by (nonlinear_arith)
                requires
                    fa < 0x80_0000,
                    p > 0,
                    2 * p <= q,
            ;
        }
    }
}

/// Numbers are in the order of their ranks, and so of their bits, which run the other way where
/// the sign bit is set.
pub proof fn rank_orders_numbers(a: Single, b: Single)
    ensures
        a.rank() > b.rank() <==> a.number() > b.number(),
        a.rank() >= b.rank() <==> a.number() >= b.number(),
{
    let x = a.magnitude();
    let y = b.magnitude();
    if x < y {
        absolute_grows(x, y);
    }
    if y < x {
        absolute_grows(y, x);
    }
    assert(absolute(0) == 0);
    if 0 < x {
        absolute_grows(0, x);
    }
    if 0 < y {
        absolute_grows(0, y);
    }
}

/// Of two numbers, one is at least the other, and both are where they are equal.
pub proof fn numbers_are_ordered(a: Single, b: Single, c: Single)
    ensures
        !a.is_nan() && !b.is_nan() ==> (a.at_least(b) || b.above(a)) && !(a.at_least(b) && b.above(
            a,
        )),
        a.at_least(b) && b.at_least(a) ==> a.number() == b.number(),
        a.at_least(b) && b.at_least(c) ==> a.at_least(c),
        a.above(b) ==> a.at_least(b),
        a.is_nan() ==> !a.at_least(b) && !b.at_least(a) && !a.above(b) && !b.above(a),
{
}

/// The bits of a number say what it is worth: up to twice the least number with a leading one, as
/// much as they count; from there on, twice as much for each step of the exponent; and the
/// opposite where the sign bit is set. What lies beyond infinity, on either side, is no number.
pub proof fn numbers_follow_their_bits(bits: u32)
    ensures
        bits < 0x100_0000 ==> (Single { bits }).number() == bits,
        0x80_0000 <= bits < 0x7f80_0000 ==> (Single { bits: (bits + 0x80_0000) as u32 }).number()
            == 2 * (Single { bits }).number(),
        bits >= 0x8000_0000 ==> (Single { bits }).number() == -(Single {
            bits: (bits - 0x8000_0000) as u32,
        }).number(),
        (Single { bits }).is_nan() <==> 0x7f80_0000 < bits < 0x8000_0000 || 0xff80_0000 < bits,
{
    lemma2_to64();
    if bits < 0x100_0000 {
        let m = (Single { bits }).magnitude();
        if m >= 0x80_0000 {
            let one = pow2(0);
            assert(m / 0x80_0000 == 1 && m % 0x80_0000 == m - 0x80_0000);
            assert(m * one == m) by (nonlinear_arith)
                requires
                    one == 1,
            ;
            assert(absolute(m) == m * one);
        }
    }
    if 0x80_0000 <= bits < 0x7f80_0000 {
        let e = bits as nat / 0x80_0000;
        let f = bits as nat % 0x80_0000;
        let up = (bits + 0x80_0000) as nat;
        assert(up / 0x80_0000 == e + 1 && up % 0x80_0000 == f);
        lemma_pow2_unfold(e);
        let p = pow2((e - 1) as nat);
        assert((0x80_0000 + f) * (2 * p) == 2 * ((0x80_0000 + f) * p)) by (nonlinear_arith);
    }
}

/// Two numbers compare as what they are worth, whatever their bits; what is no number compares
/// with nothing.
pub proof fn comparing_goes_by_the_numbers(a: Single, b: Single)
    ensures
        a.at_least(b) <==> !a.is_nan() && !b.is_nan() && a.number() >= b.number(),
        a.above(b) <==> !a.is_nan() && !b.is_nan() && a.number() > b.number(),
        Single::zero().number() == 0,
        !Single::zero().is_nan(),
{
    assert(absolute(0) == 0);
}

} // verus!
