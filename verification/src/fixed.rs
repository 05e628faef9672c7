use crate::quantity::{Quantity, Scalar};
use vstd::arithmetic::div_mod::lemma_mod_multiples_vanish;
use vstd::prelude::*;

verus! {

/// The bits of the number one: `2^32`.
pub const ONE: i64 = 0x1_0000_0000;

/// The largest index that a fixed-point number can stand for.
pub const MAX_INDEX: usize = 0x7fff_ffff;

/// A fixed-point number: `bits` steps of `2^-32`. Its arithmetic is exact where
/// the result is such a number, rounds towards zero where it lies between two,
/// and stops at the largest or the smallest number where it lies beyond them.
#[derive(Clone, Copy, Debug, PartialEq, Eq, Structural)]
pub struct Fixed {
    /// The number in steps of `2^-32`.
    pub bits: i64,
}

/// The whole number `x` as bits, held between the smallest and the largest.
pub open spec fn saturated(x: int) -> i64 {
    if x < i64::MIN {
        i64::MIN
    } else if x > i64::MAX {
        i64::MAX
    } else {
        x as i64
    }
}

/// The size of `x` without its sign.
pub open spec fn magnitude(x: int) -> int {
    if x < 0 {
        -x
    } else {
        x
    }
}

/// `x / y` rounded towards zero, for `y` other than zero.
pub open spec fn quotient(x: int, y: int) -> int {
    if (x < 0) == (y < 0) {
        magnitude(x) / magnitude(y)
    } else {
        -(magnitude(x) / magnitude(y))
    }
}

/// Whether `r` is the root of `n` rounded down.
pub open spec fn is_floor_root(n: int, r: int) -> bool {
    0 <= r && r * r <= n < (r + 1) * (r + 1)
}

/// The root of `n` rounded down, for `n` not below zero.
pub open spec fn floor_root(n: int) -> int {
    choose|r: int| is_floor_root(n, r)
}

/// A number has one root rounded down at most.
pub proof fn lemma_floor_root_is_unique(n: int, r: int)
    requires
        is_floor_root(n, r),
    ensures
        floor_root(n) == r,
{
    let c = floor_root(n);
    if c < r {
        assert((c + 1) * (c + 1) <= r * r) by (nonlinear_arith)
            requires
                0 <= c,
                c + 1 <= r,
        ;
    }
    if r < c {
        assert((r + 1) * (r + 1) <= c * c) by (nonlinear_arith)
            requires
                0 <= r,
                r + 1 <= c,
        ;
    }
}

/// The size of `x` without its sign.
fn magnitude_of(x: i64) -> (m: u128)
    ensures
        m == magnitude(x as int),
        m <= 0x8000_0000_0000_0000,
{
    if x < 0 {
        (-(x as i128)) as u128
    } else {
        x as u128
    }
}

/// The number of the size `m` with the sign that `negative` tells, held
/// between the smallest and the largest.
fn with_sign(negative: bool, m: u128) -> (r: i64)
    ensures
        r == saturated(
            if negative {
                -(m as int)
            } else {
                m as int
            },
        ),
{
    if negative {
        if m > 0x8000_0000_0000_0000 {
            i64::MIN
        } else {
            (-(m as i128)) as i64
        }
    } else {
        if m > 0x7fff_ffff_ffff_ffff {
            i64::MAX
        } else {
            m as i64
        }
    }
}

impl Fixed {
    /// The number with the bits `bits`.
    pub fn new(bits: i64) -> (r: Self)
        ensures
            r.bits == bits,
    {
        Fixed { bits }
    }
}

impl Quantity<Fixed> for Fixed {
    open spec fn plus_spec(self, other: Self) -> Self {
        Fixed { bits: saturated(self.bits + other.bits) }
    }

    open spec fn minus_spec(self, other: Self) -> Self {
        Fixed { bits: saturated(self.bits - other.bits) }
    }

    open spec fn times_spec(self, k: Fixed) -> Self {
        Fixed { bits: saturated(quotient(self.bits * k.bits, ONE as int)) }
    }

    /// Division by zero stops at the largest number for a dividend above zero,
    /// at the smallest for one below, and gives zero for zero.
    open spec fn over_spec(self, k: Fixed) -> Self {
        if k.bits == 0 {
            Fixed {
                bits: if self.bits > 0 {
                    i64::MAX
                } else if self.bits < 0 {
                    i64::MIN
                } else {
                    0
                },
            }
        } else {
            Fixed { bits: saturated(quotient(self.bits * ONE, k.bits as int)) }
        }
    }

    fn plus(self, other: Self) -> (r: Self) {
        let sum: i128 = self.bits as i128 + other.bits as i128;
        Fixed { bits: with_sign(sum < 0, magnitude_wide(sum)) }
    }

    fn minus(self, other: Self) -> (r: Self) {
        let difference: i128 = self.bits as i128 - other.bits as i128;
        Fixed { bits: with_sign(difference < 0, magnitude_wide(difference)) }
    }

    fn times(self, k: Fixed) -> (r: Self) {
        let negative = (self.bits < 0) != (k.bits < 0);
        let a = magnitude_of(self.bits);
        let b = magnitude_of(k.bits);
        proof {
            lemma_product_of_magnitudes(self.bits as int, k.bits as int);
        }
        let product: u128 = a * b;
        Fixed { bits: with_sign(negative, product / 0x1_0000_0000) }
    }

    fn over(self, k: Fixed) -> (r: Self) {
        if k.bits == 0 {
            if self.bits > 0 {
                Fixed { bits: i64::MAX }
            } else if self.bits < 0 {
                Fixed { bits: i64::MIN }
            } else {
                Fixed { bits: 0 }
            }
        } else {
            let negative = (self.bits < 0) != (k.bits < 0);
            let a = magnitude_of(self.bits);
            let b = magnitude_of(k.bits);
            proof {
                lemma_product_of_magnitudes(self.bits as int, ONE as int);
            }
            let scaled: u128 = a * 0x1_0000_0000;
            Fixed { bits: with_sign(negative, scaled / b) }
        }
    }
}

impl Scalar for Fixed {
    /// An index above `MAX_INDEX` gives the largest number.
    open spec fn from_index_spec(n: usize) -> Self {
        Fixed {
            bits: if n <= MAX_INDEX {
                (n * ONE) as i64
            } else {
                i64::MAX
            },
        }
    }

    /// A number below zero gives the index zero.
    open spec fn to_index_spec(self) -> usize {
        if self.bits < 0 {
            0
        } else {
            (self.bits / ONE) as usize
        }
    }

    open spec fn floor_spec(self) -> Self {
        Fixed { bits: (self.bits - (self.bits as int) % (ONE as int)) as i64 }
    }

    /// The root of a number below zero is zero.
    open spec fn sqrt_spec(self) -> Self {
        Fixed {
            bits: if self.bits < 0 {
                0
            } else {
                floor_root(self.bits * ONE) as i64
            },
        }
    }

    open spec fn less_than_spec(self, other: Self) -> bool {
        self.bits < other.bits
    }

    open spec fn equals_spec(self, other: Self) -> bool {
        self.bits == other.bits
    }

    fn from_index(n: usize) -> (r: Self) {
        if n <= MAX_INDEX {
            assert(n * ONE <= 0x7fff_ffff * 0x1_0000_0000) by (nonlinear_arith)
                requires
                    n <= 0x7fff_ffff,
                    ONE == 0x1_0000_0000,
            ;
            Fixed { bits: (n as i64) * ONE }
        } else {
            Fixed { bits: i64::MAX }
        }
    }

    fn to_index(self) -> (r: usize) {
        if self.bits < 0 {
            0
        } else {
            (self.bits / ONE) as usize
        }
    }

    fn floor(self) -> (r: Self) {
        // The smallest number is a whole one, so that to count from it keeps
        // what is left over.
        let raised: u128 = (self.bits as i128 + 0x8000_0000_0000_0000) as u128;
        let rest: u128 = raised % 0x1_0000_0000;
        proof {
            lemma_mod_multiples_vanish(0x8000_0000, self.bits as int, ONE as int);
        }
        Fixed { bits: (self.bits as i128 - rest as i128) as i64 }
    }

    fn sqrt(self) -> (r: Self) {
        if self.bits < 0 {
            return Fixed { bits: 0 };
        }
        let n: u128 = (self.bits as u128) * 0x1_0000_0000;
        let mut lo: u128 = 0;
        let mut hi: u128 = 0x1_0000_0000_0000;
        assert(0x1_0000_0000_0000 * 0x1_0000_0000_0000 > n) by (nonlinear_arith)
            requires
                n < 0x8000_0000_0000_0000 * 0x1_0000_0000,
        ;
        while hi - lo > 1
            invariant
                lo < hi <= 0x1_0000_0000_0000,
                lo * lo <= n < hi * hi,
            decreases hi - lo,
        {
            let mid: u128 = lo + (hi - lo) / 2;
            assert(mid * mid <= 0x1_0000_0000_0000 * 0x1_0000_0000_0000) by (nonlinear_arith)
                requires
                    mid <= 0x1_0000_0000_0000,
            ;
            if mid * mid <= n {
                lo = mid;
            } else {
                hi = mid;
            }
        }
        proof {
            lemma_floor_root_is_unique(n as int, lo as int);
        }
        Fixed { bits: lo as i64 }
    }

    fn less_than(self, other: Self) -> (r: bool) {
        self.bits < other.bits
    }

    fn equals(self, other: Self) -> (r: bool) {
        self.bits == other.bits
    }
}

/// The size of `x` without its sign, for a sum or a difference of two numbers.
fn magnitude_wide(x: i128) -> (m: u128)
    requires
        -0x1_0000_0000_0000_0000 <= x <= 0x1_0000_0000_0000_0000,
    ensures
        m == magnitude(x as int),
{
    if x < 0 {
        (-x) as u128
    } else {
        x as u128
    }
}

/// The size of a product is the product of the sizes, and a product is below
/// zero where exactly one factor is.
proof fn lemma_product_of_magnitudes(x: int, y: int)
    ensures
        magnitude(x * y) == magnitude(x) * magnitude(y),
        x * y < 0 <==> x != 0 && y != 0 && (x < 0) != (y < 0),
        magnitude(x) <= 0x8000_0000_0000_0000 && magnitude(y) <= 0x8000_0000_0000_0000
            ==> magnitude(x) * magnitude(y) <= 0x4000_0000_0000_0000_0000_0000_0000_0000,
{
    assert(magnitude(x * y) == magnitude(x) * magnitude(y)) by (nonlinear_arith);
    assert(x * y < 0 <==> x != 0 && y != 0 && (x < 0) != (y < 0)) by (nonlinear_arith);
    assert(magnitude(x) <= 0x8000_0000_0000_0000 && magnitude(y) <= 0x8000_0000_0000_0000
        ==> magnitude(x) * magnitude(y) <= 0x4000_0000_0000_0000_0000_0000_0000_0000)
        by (nonlinear_arith);
}

} // verus!
