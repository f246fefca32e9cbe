//! Unsigned 256-bit numbers, as far as exact statistics need them: products
//! of 128-bit numbers, their sums and differences, and their order.

use vstd::prelude::*;

verus! {

/// Two to the power of 64.
pub open spec fn two_64() -> int {
    0x1_0000_0000_0000_0000
}

/// Two to the power of 128.
pub open spec fn two_128() -> int {
    0x1_0000_0000_0000_0000_0000_0000_0000_0000int
}

/// Two to the power of 256.
pub open spec fn two_256() -> int {
    two_128() * two_128()
}

/// An unsigned number below two to the power of 256. Its view is the number.
#[derive(Clone, Copy, Debug, PartialEq, Eq)]
pub struct U256 {
    high: u128,
    low: u128,
}

impl View for U256 {
    type V = nat;

    closed spec fn view(&self) -> nat {
        (self.high * two_128() + self.low) as nat
    }
}

/// The product of two numbers written in base two to the power of 64, digit
/// by digit.
proof fn lemma_product_by_digits(a1: int, a0: int, b1: int, b0: int)
    ensures
        (a1 * two_64() + a0) * (b1 * two_64() + b0) == (a1 * b1) * two_128() + (a1 * b0 + a0
            * b1) * two_64() + a0 * b0,
{
    assert((a1 * 0x1_0000_0000_0000_0000 + a0) * (b1 * 0x1_0000_0000_0000_0000 + b0) == (a1
        * b1) * 0x1_0000_0000_0000_0000_0000_0000_0000_0000int + (a1 * b0 + a0 * b1)
        * 0x1_0000_0000_0000_0000 + a0 * b0) by (nonlinear_arith);
}

/// The product of two numbers below two to the power of 64 is below two to
/// the power of 128.
proof fn lemma_digit_product_fits(a: int, b: int)
    requires
        0 <= a < two_64(),
        0 <= b < two_64(),
    ensures
        0 <= a * b <= 0xFFFF_FFFF_FFFF_FFFE_0000_0000_0000_0001,
{
    assert(0 <= a * b <= 0xFFFF_FFFF_FFFF_FFFF * 0xFFFF_FFFF_FFFF_FFFF) by (nonlinear_arith)
        requires
            0 <= a <= 0xFFFF_FFFF_FFFF_FFFF,
            0 <= b <= 0xFFFF_FFFF_FFFF_FFFF,
    ;
}

impl U256 {
    /// The number zero.
    pub fn zero() -> (r: U256)
        ensures
            r@ == 0,
    {
        U256 { high: 0, low: 0 }
    }

    /// Every number of this type is below two to the power of 256.
    pub proof fn lemma_bounded(self)
        ensures
            self@ < two_256(),
    {
        assert(self.high * two_128() + self.low < two_128() * two_128()) by (nonlinear_arith)
            requires
                0 <= self.high < two_128(),
                0 <= self.low < two_128(),
        ;
    }

    /// The number divided by two to the power of 128, rounded down.
    pub fn high(&self) -> (r: u128)
        ensures
            r == self@ / (two_128() as nat),
    {
        proof {
            vstd::arithmetic::div_mod::lemma_fundamental_div_mod_converse(
                self@ as int,
                two_128(),
                self.high as int,
                self.low as int,
            );
        }
        self.high
    }

    /// The remainder of the number on division by two to the power of 128.
    pub fn low(&self) -> (r: u128)
        ensures
            r == self@ % (two_128() as nat),
    {
        proof {
            vstd::arithmetic::div_mod::lemma_fundamental_div_mod_converse(
                self@ as int,
                two_128(),
                self.high as int,
                self.low as int,
            );
        }
        self.low
    }

    /// The product of two numbers.
    pub fn product(a: u128, b: u128) -> (r: U256)
        ensures
            r@ == a * b,
    {
        let a1: u128 = a / 0x1_0000_0000_0000_0000;
        let a0: u128 = a % 0x1_0000_0000_0000_0000;
        let b1: u128 = b / 0x1_0000_0000_0000_0000;
        let b0: u128 = b % 0x1_0000_0000_0000_0000;
        proof {
            lemma_digit_product_fits(a0 as int, b0 as int);
            lemma_digit_product_fits(a0 as int, b1 as int);
            lemma_digit_product_fits(a1 as int, b0 as int);
            lemma_digit_product_fits(a1 as int, b1 as int);
            lemma_product_by_digits(a1 as int, a0 as int, b1 as int, b0 as int);
        }
        let p00: u128 = a0 * b0;
        let p01: u128 = a0 * b1;
        let p10: u128 = a1 * b0;
        let p11: u128 = a1 * b1;
        let middle: u128 = p00 / 0x1_0000_0000_0000_0000 + p01 % 0x1_0000_0000_0000_0000 + p10
            % 0x1_0000_0000_0000_0000;
        let low: u128 = (middle % 0x1_0000_0000_0000_0000) * 0x1_0000_0000_0000_0000 + p00
            % 0x1_0000_0000_0000_0000;
        let high: u128 = p11 + p01 / 0x1_0000_0000_0000_0000 + p10 / 0x1_0000_0000_0000_0000
            + middle / 0x1_0000_0000_0000_0000;
        proof {
            let w = two_64();
            assert(a == a1 * w + a0);
            assert(b == b1 * w + b0);
            assert(a * b == p11 * two_128() + (p01 + p10) * w + p00);
            assert(p01 == (p01 / 0x1_0000_0000_0000_0000) * w + p01 % 0x1_0000_0000_0000_0000);
            assert(p10 == (p10 / 0x1_0000_0000_0000_0000) * w + p10 % 0x1_0000_0000_0000_0000);
            assert(p00 == (p00 / 0x1_0000_0000_0000_0000) * w + p00 % 0x1_0000_0000_0000_0000);
            assert(middle == (middle / 0x1_0000_0000_0000_0000) * w + middle
                % 0x1_0000_0000_0000_0000);
            assert(w * w == two_128()) by (nonlinear_arith)
                requires
                    w == 0x1_0000_0000_0000_0000,
            ;
            let p01h = (p01 / 0x1_0000_0000_0000_0000) as int;
            let p01l = (p01 % 0x1_0000_0000_0000_0000) as int;
            let p10h = (p10 / 0x1_0000_0000_0000_0000) as int;
            let p10l = (p10 % 0x1_0000_0000_0000_0000) as int;
            let p00h = (p00 / 0x1_0000_0000_0000_0000) as int;
            let p00l = (p00 % 0x1_0000_0000_0000_0000) as int;
            let mh = (middle / 0x1_0000_0000_0000_0000) as int;
            let ml = (middle % 0x1_0000_0000_0000_0000) as int;
            assert(p11 * (w * w) + ((p01h * w + p01l) + (p10h * w + p10l)) * w + (p00h * w + p00l)
                == (p11 + p01h + p10h + mh) * (w * w) + (ml * w + p00l)) by (nonlinear_arith)
                requires
                    p00h + p01l + p10l == mh * w + ml,
            ;
        }
        U256 { high, low }
    }

    /// The sum of two numbers, where it is below two to the power of 256.
    pub fn plus(self, other: U256) -> (r: U256)
        requires
            self@ + other@ < two_256(),
        ensures
            r@ == self@ + other@,
    {
        let carry: u128 = if self.low > u128::MAX - other.low {
            1
        } else {
            0
        };
        let low: u128 = if carry == 1 {
            self.low - (u128::MAX - other.low) - 1
        } else {
            self.low + other.low
        };
        proof {
            let w = two_128();
            assert(self.low + other.low == carry * w + low);
            assert((self.high + other.high + carry) * w + low == self@ + other@)
                by (nonlinear_arith)
                requires
                    self@ == self.high * w + self.low,
                    other@ == other.high * w + other.low,
                    self.low + other.low == carry * w + low,
            ;
            assert(self.high + other.high + carry < w) by (nonlinear_arith)
                requires
                    (self.high + other.high + carry) * w + low < w * w,
                    low >= 0,
                    w > 0,
            ;
        }
        U256 { high: self.high + other.high + carry, low }
    }

    /// Whether the number is at most `other`.
    pub fn at_most(&self, other: &U256) -> (b: bool)
        ensures
            b == (self@ <= other@),
    {
        proof {
            let w = two_128();
            if self.high < other.high {
                assert(self.high * w + w <= other.high * w) by (nonlinear_arith)
                    requires
                        self.high + 1 <= other.high,
                        w > 0,
                ;
            }
            if self.high > other.high {
                assert(other.high * w + w <= self.high * w) by (nonlinear_arith)
                    requires
                        other.high + 1 <= self.high,
                        w > 0,
                ;
            }
        }
        self.high < other.high || (self.high == other.high && self.low <= other.low)
    }

    /// The difference of two numbers, the second at most the first.
    pub fn minus(self, other: U256) -> (r: U256)
        requires
            other@ <= self@,
        ensures
            r@ == self@ - other@,
    {
        proof {
            let w = two_128();
            if self.high < other.high {
                assert(self.high * w + w <= other.high * w) by (nonlinear_arith)
                    requires
                        self.high + 1 <= other.high,
                        w > 0,
                ;
            }
        }
        if self.low >= other.low {
            proof {
                let w = two_128();
                assert((self.high - other.high) * w + (self.low - other.low) == (self.high * w
                    + self.low) - (other.high * w + other.low)) by (nonlinear_arith);
            }
            U256 { high: self.high - other.high, low: self.low - other.low }
        } else {
            proof {
                let w = two_128();
                assert((self.high - other.high - 1) * w + (w - (other.low - self.low)) == (
                self.high * w + self.low) - (other.high * w + other.low)) by (nonlinear_arith);
            }
            U256 {
                high: self.high - other.high - 1,
                low: u128::MAX - (other.low - self.low) + 1,
            }
        }
    }
}

impl U256 {
    /// The number divided by `divisor`, rounded down, where the quotient is
    /// below two to the power of 128.
    pub fn quotient(&self, divisor: u128) -> (r: u128)
        requires
            divisor > 0,
            self@ < divisor * two_128(),
        ensures
            r == self@ / (divisor as nat),
    {
        let mut low: u128 = 0;
        let mut high: u128 = u128::MAX;
        assert(0 * divisor == 0);
        assert((high + 1) * divisor == divisor * two_128()) by (nonlinear_arith)
            requires
                high + 1 == two_128(),
        ;
        while low < high
            invariant
                low <= high,
                divisor > 0,
                low * divisor <= self@,
                self@ < (high + 1) * divisor,
            decreases high - low,
        {
            let gap: u128 = high - low;
            let middle: u128 = low + gap / 2 + gap % 2;
            if U256::product(middle, divisor).at_most(self) {
                low = middle;
            } else {
                high = middle - 1;
            }
        }
        proof {
            let x = self@ as int;
            let d = divisor as int;
            let q = low as int;
            assert(q * d + d == (q + 1) * d) by (nonlinear_arith);
            assert(x == q * d + (x - q * d));
            vstd::arithmetic::div_mod::lemma_fundamental_div_mod_converse(x, d, q, x - q * d);
        }
        low
    }
}

} // verus!
