//! Double-precision numbers as bit patterns.
//!
//! A reading's value is an IEEE 754 binary64 number. It is held here as the 64 bits of
//! its encoding, and everything the library decides about it is decided on those bits
//! with integer arithmetic. The meaning of a bit pattern is given by [`Double::scaled`]:
//! the number it encodes, counted in steps of 2^-1074, the smallest positive value of
//! the format, so that every number of the format is a whole count of steps.

use vstd::prelude::*;
use vstd::arithmetic::power2::*;

verus! {

/// The bit that holds the sign.
pub const SIGN_BIT: u64 = 0x8000_0000_0000_0000;

/// The weight of the lowest exponent bit, which is also the implicit leading bit of a
/// normal number's significand: 2^52.
pub const HIDDEN_BIT: u64 = 0x0010_0000_0000_0000;

/// The pattern of positive infinity. Patterns above it, sign apart, are not numbers.
pub const INFINITY_BITS: u64 = 0x7ff0_0000_0000_0000;

/// The number of steps of 2^-1074 that a sign-free bit pattern stands for.
///
/// With biased exponent `e` and fraction `f`, a subnormal pattern (`e == 0`) stands for
/// `f` steps and any other for `(2^52 + f) * 2^(e - 1)` steps. The patterns of infinity
/// and beyond are given the count that the same formula yields, which lies above every
/// finite one.
pub open spec fn magnitude(pattern: int) -> int {
    let exponent = pattern / (HIDDEN_BIT as int);
    let fraction = pattern % (HIDDEN_BIT as int);
    if exponent <= 0 {
        fraction
    } else {
        (HIDDEN_BIT + fraction) * pow2((exponent - 1) as nat)
    }
}

/// The number of steps of 2^-1074 in the whole number `n`.
pub open spec fn whole(n: int) -> int {
    n * pow2(1074)
}

/// A larger sign-free pattern stands for a larger magnitude.
pub proof fn lemma_magnitude_increases(x: int, y: int)
    requires
        0 <= x < y,
    ensures
        0 <= magnitude(x) < magnitude(y),
{
    let h = HIDDEN_BIT as int;
    let ex = x / h;
    let fx = x % h;
    let ey = y / h;
    let fy = y % h;
    assert(x == ex * h + fx && 0 <= fx < h);
    assert(y == ey * h + fy && 0 <= fy < h);
    assert(0 <= ex <= ey);
    if ex > 0 {
        lemma_pow2_pos((ex - 1) as nat);
        let px = pow2((ex - 1) as nat) as int;
        assert(0 <= (h + fx) * px) by (nonlinear_arith)
            requires
                0 <= fx,
                0 < h,
                0 < px,
        ;
    }
    if ey > 0 {
        let py = pow2((ey - 1) as nat) as int;
        lemma_pow2_pos((ey - 1) as nat);
        if ex == 0 {
            assert(h <= (h + fy) * py) by (nonlinear_arith)
                requires
                    1 <= py,
                    0 <= fy,
                    0 < h,
            ;
        } else if ex == ey {
            assert((h + fx) * py < (h + fy) * py) by (nonlinear_arith)
                requires
                    fx < fy,
                    0 < py,
            ;
        } else {
            let px = pow2((ex - 1) as nat) as int;
            let pm = pow2(ex as nat) as int;
            lemma_pow2_unfold(ex as nat);
            if ex < ey - 1 {
                lemma_pow2_strictly_increases(ex as nat, (ey - 1) as nat);
            }
            assert((h + fx) * px < h * pm) by (nonlinear_arith)
                requires
                    0 <= fx < h,
                    0 < px,
                    pm == 2 * px,
            ;
            assert(h * pm <= (h + fy) * py) by (nonlinear_arith)
                requires
                    0 < pm <= py,
                    0 <= fy,
                    0 < h,
            ;
        }
    }
}

/// Sign-free patterns are ordered as the magnitudes they stand for.
pub proof fn lemma_magnitude_order(x: int, y: int)
    requires
        0 <= x,
        0 <= y,
    ensures
        x < y <==> magnitude(x) < magnitude(y),
        x == y <==> magnitude(x) == magnitude(y),
        magnitude(x) == 0 <==> x == 0,
{
    if x < y {
        lemma_magnitude_increases(x, y);
    }
    if y < x {
        lemma_magnitude_increases(y, x);
    }
    if 0 < x {
        lemma_magnitude_increases(0, x);
    }
}

/// A pattern with biased exponent `1023 + k` whose significand is `n * 2^(52 - k)`
/// encodes the whole number `n`.
pub proof fn lemma_whole_number(bits: u64, n: int, k: nat)
    requires
        k <= 52,
        bits / HIDDEN_BIT == 1023 + k,
        HIDDEN_BIT + bits % HIDDEN_BIT == n * pow2((52 - k) as nat),
    ensures
        !(Double { bits }).is_nan(),
        (Double { bits }).scaled() == whole(n),
{
    let low = pow2((52 - k) as nat) as int;
    let high = pow2(1022 + k) as int;
    lemma_pow2_adds((52 - k) as nat, 1022 + k);
    assert((n * low) * high == n * (low * high)) by (nonlinear_arith);
}

/// A binary64 number, held as the bits of its encoding.
#[derive(Clone, Copy, Debug)]
pub struct Double {
    pub bits: u64,
}

impl Double {
    /// Whether the sign bit is set. It may be set on zero and on a pattern that is not
    /// a number.
    pub open spec fn sign(self) -> bool {
        self.bits >= SIGN_BIT
    }

    /// The bits without the sign.
    pub open spec fn pattern(self) -> int {
        if self.bits >= SIGN_BIT {
            self.bits - SIGN_BIT
        } else {
            self.bits as int
        }
    }

    /// Whether the bits encode no number at all (a NaN).
    pub open spec fn is_nan(self) -> bool {
        self.pattern() > INFINITY_BITS
    }

    /// The encoded number in steps of 2^-1074. Both zeros give 0. The infinities give a
    /// count beyond every finite number's, on their side of zero. Of a NaN the count
    /// means nothing.
    pub open spec fn scaled(self) -> int {
        if self.sign() {
            -magnitude(self.pattern())
        } else {
            magnitude(self.pattern())
        }
    }

    /// The format's `<`: both are numbers and `self` is the smaller. False whenever a
    /// NaN is involved.
    pub open spec fn is_less(self, other: Double) -> bool {
        !self.is_nan() && !other.is_nan() && self.scaled() < other.scaled()
    }

    /// The format's `>`: both are numbers and `self` is the larger. False whenever a
    /// NaN is involved.
    pub open spec fn is_greater(self, other: Double) -> bool {
        other.is_less(self)
    }

    /// The format's `==`: both are numbers, and the same number. The two zeros are
    /// equal; a NaN equals nothing, itself included.
    pub open spec fn is_equal(self, other: Double) -> bool {
        !self.is_nan() && !other.is_nan() && self.scaled() == other.scaled()
    }

    /// Whether `self` is a number below the whole number `n`.
    pub open spec fn below(self, n: int) -> bool {
        !self.is_nan() && self.scaled() < whole(n)
    }

    /// Whether `self` is a number above the whole number `n`.
    pub open spec fn above(self, n: int) -> bool {
        !self.is_nan() && self.scaled() > whole(n)
    }

    /// The bits without the sign.
    fn unsigned_bits(&self) -> (r: u64)
        ensures
            r == self.pattern(),
    {
        if self.bits >= SIGN_BIT {
            self.bits - SIGN_BIT
        } else {
            self.bits
        }
    }

    /// Decides the format's `<` on the bit patterns.
    pub fn lt(&self, other: &Double) -> (r: bool)
        ensures
            r == self.is_less(*other),
    {
        let a: u64 = self.unsigned_bits();
        let b: u64 = other.unsigned_bits();
        proof {
            lemma_magnitude_order(a as int, b as int);
            lemma_magnitude_order(a as int, 0);
            lemma_magnitude_order(b as int, 0);
        }
        if a > INFINITY_BITS || b > INFINITY_BITS {
            false
        } else if self.bits >= SIGN_BIT {
            if other.bits >= SIGN_BIT {
                a > b
            } else {
                a != 0 || b != 0
            }
        } else {
            other.bits < SIGN_BIT && a < b
        }
    }

    /// Decides the format's `>` on the bit patterns.
    pub fn gt(&self, other: &Double) -> (r: bool)
        ensures
            r == self.is_greater(*other),
    {
        other.lt(self)
    }
}

impl PartialEq for Double {
    /// Decides the format's `==` on the bit patterns.
    fn eq(&self, other: &Double) -> (r: bool) {
        let a: u64 = self.unsigned_bits();
        let b: u64 = other.unsigned_bits();
        proof {
            lemma_magnitude_order(a as int, b as int);
            lemma_magnitude_order(a as int, 0);
            lemma_magnitude_order(b as int, 0);
        }
        a <= INFINITY_BITS && b <= INFINITY_BITS && (self.bits == other.bits || (a == 0 && b == 0))
    }
}

impl vstd::std_specs::cmp::PartialEqSpecImpl for Double {
    open spec fn obeys_eq_spec() -> bool {
        true
    }

    open spec fn eq_spec(&self, other: &Double) -> bool {
        self.is_equal(*other)
    }
}

} // verus!
