//! Amounts as IEEE 754 double-precision bit patterns.
//!
//! The arithmetic on prices and sizes is done in floating point by the program around
//! this library. What the library does with such an amount is compare it, and a
//! comparison needs no arithmetic: apart from the sign, the bits of two doubles
//! are ordered as the doubles are.
use vstd::arithmetic::power2::{lemma2_to64, lemma_pow2_adds, lemma_pow2_pos, lemma_pow2_strictly_increases, lemma_pow2_unfold, pow2};
use vstd::prelude::*;

verus! {

/// The bits of a double.
#[derive(Clone, Copy, PartialEq, Eq, Debug, Structural)]
pub struct Amount {
    pub bits: u64,
}

/// The lowest pattern of a negative double: the sign bit alone.
pub const SIGN_BIT: u64 = 0x8000_0000_0000_0000;

/// Positive infinity; the patterns between it and `SIGN_BIT` are not numbers.
pub const INFINITY_BITS: u64 = 0x7ff0_0000_0000_0000;

/// The pattern of 1.
pub const ONE_BITS: u64 = 0x3ff0_0000_0000_0000;

/// The number of patterns that share one exponent.
pub const MANTISSA_SPAN: u64 = 0x0010_0000_0000_0000;

/// The value, times two to the 1074, of a non-negative finite double with the
/// bits `magnitude`. That factor makes every finite double an integer.
pub open spec fn scaled_magnitude(magnitude: int) -> int {
    let exponent = magnitude / (MANTISSA_SPAN as int);
    let mantissa = magnitude % (MANTISSA_SPAN as int);
    if exponent == 0 {
        mantissa
    } else {
        (MANTISSA_SPAN + mantissa) * pow2((exponent - 1) as nat)
    }
}

impl Amount {
    pub open spec fn is_negative_pattern(self) -> bool {
        self.bits >= SIGN_BIT
    }

    /// The bits without the sign.
    pub open spec fn magnitude(self) -> int {
        if self.is_negative_pattern() {
            self.bits - SIGN_BIT
        } else {
            self.bits as int
        }
    }

    pub open spec fn is_nan(self) -> bool {
        self.magnitude() > INFINITY_BITS
    }

    pub open spec fn is_finite(self) -> bool {
        self.magnitude() < INFINITY_BITS
    }

    /// Where the amount stands among the amounts that are numbers. Both zeros
    /// stand at 0.
    pub open spec fn rank(self) -> int {
        if self.is_negative_pattern() {
            -self.magnitude()
        } else {
            self.magnitude()
        }
    }

    /// The value of a finite amount, times two to the 1074.
    pub open spec fn scaled_value(self) -> int {
        if self.is_negative_pattern() {
            -scaled_magnitude(self.magnitude())
        } else {
            scaled_magnitude(self.magnitude())
        }
    }

    /// `self > 0`.
    pub open spec fn spec_is_positive(self) -> bool {
        !self.is_nan() && self.rank() > 0
    }

    /// `|self| > 0`.
    pub open spec fn spec_is_nonzero(self) -> bool {
        !self.is_nan() && self.rank() != 0
    }

    /// `self <= 0`.
    pub open spec fn spec_at_most_zero(self) -> bool {
        !self.is_nan() && self.rank() <= 0
    }

    /// `self >= 0`.
    pub open spec fn spec_at_least_zero(self) -> bool {
        !self.is_nan() && self.rank() >= 0
    }

    /// `self >= 1`.
    pub open spec fn spec_at_least_one(self) -> bool {
        !self.is_nan() && self.rank() >= ONE_BITS
    }

    /// `self < 1`.
    pub open spec fn spec_below_one(self) -> bool {
        !self.is_nan() && self.rank() < ONE_BITS
    }

    /// The larger of two amounts, where one that is no number counts for nothing.
    pub open spec fn spec_max(self, other: Amount) -> Amount {
        if self.is_nan() {
            other
        } else if other.is_nan() {
            self
        } else if self.rank() < other.rank() {
            other
        } else {
            self
        }
    }

    pub fn zero() -> (r: Amount)
        ensures
            r.bits == 0,
            r.rank() == 0,
            !r.is_nan(),
    {
        Amount { bits: 0 }
    }

    pub fn is_positive(&self) -> (r: bool)
        ensures
            r == self.spec_is_positive(),
    {
        0 < self.bits && self.bits <= INFINITY_BITS
    }

    pub fn is_nonzero(&self) -> (r: bool)
        ensures
            r == self.spec_is_nonzero(),
    {
        let magnitude: u64 = if self.bits >= SIGN_BIT { self.bits - SIGN_BIT } else { self.bits };
        0 < magnitude && magnitude <= INFINITY_BITS
    }

    pub fn at_most_zero(&self) -> (r: bool)
        ensures
            r == self.spec_at_most_zero(),
    {
        self.bits == 0 || (self.bits >= SIGN_BIT && self.bits - SIGN_BIT <= INFINITY_BITS)
    }

    pub fn at_least_zero(&self) -> (r: bool)
        ensures
            r == self.spec_at_least_zero(),
    {
        self.bits <= INFINITY_BITS || self.bits == SIGN_BIT
    }

    pub fn at_least_one(&self) -> (r: bool)
        ensures
            r == self.spec_at_least_one(),
    {
        ONE_BITS <= self.bits && self.bits <= INFINITY_BITS
    }

    pub fn below_one(&self) -> (r: bool)
        ensures
            r == self.spec_below_one(),
    {
        self.bits < ONE_BITS || (self.bits >= SIGN_BIT && self.bits - SIGN_BIT <= INFINITY_BITS)
    }

    pub fn max(self, other: Amount) -> (r: Amount)
        ensures
            r == self.spec_max(other),
    {
        let self_negative: bool = self.bits >= SIGN_BIT;
        let other_negative: bool = other.bits >= SIGN_BIT;
        let self_magnitude: u64 = if self_negative { self.bits - SIGN_BIT } else { self.bits };
        let other_magnitude: u64 = if other_negative { other.bits - SIGN_BIT } else { other.bits };
        if self_magnitude > INFINITY_BITS {
            other
        } else if other_magnitude > INFINITY_BITS {
            self
        } else {
            let below: bool = if self_negative {
                if other_negative {
                    self_magnitude > other_magnitude
                } else {
                    self_magnitude > 0 || other_magnitude > 0
                }
            } else {
                !other_negative && self_magnitude < other_magnitude
            };
            if below {
                other
            } else {
                self
            }
        }
    }
}

/// Of two magnitudes the one with the smaller bits is the smaller number.
pub proof fn lemma_scaled_magnitude_increases(a: int, b: int)
    requires
        0 <= a < b,
    ensures
        0 <= scaled_magnitude(a) < scaled_magnitude(b),
{
    let span = MANTISSA_SPAN as int;
    let ea = a / span;
    let eb = b / span;
    let ma = a % span;
    let mb = b % span;
    assert(a == ea * span + ma && 0 <= ma < span && ea >= 0);
    assert(b == eb * span + mb && 0 <= mb < span && eb >= 0);
    assert(ea <= eb);
    if ea > 0 {
        lemma_pow2_pos((ea - 1) as nat);
    }
    if eb > 0 {
        lemma_pow2_pos((eb - 1) as nat);
    }
    if ea == eb {
        if ea > 0 {
            let p = pow2((ea - 1) as nat) as int;
            assert(0 <= (span + ma) * p < (span + mb) * p) by (nonlinear_arith)
                requires
                    0 <= ma < mb,
                    span > 0,
                    p > 0,
            ;
        }
    } else {
        let q = pow2((eb - 1) as nat) as int;
        assert((span + mb) * q >= span * q) by (nonlinear_arith)
            requires
                mb >= 0,
                q > 0,
        ;
        if ea == 0 {
            assert(span * q >= span) by (nonlinear_arith)
                requires
                    span > 0,
                    q >= 1,
            ;
        } else {
            let p = pow2((ea - 1) as nat) as int;
            lemma_pow2_unfold(ea as nat);
            if ea < eb - 1 {
                lemma_pow2_strictly_increases(ea as nat, (eb - 1) as nat);
            }
            assert(q >= 2 * p);
            assert(0 <= (span + ma) * p < 2 * span * p) by (nonlinear_arith)
                requires
                    0 <= ma < span,
                    p > 0,
            ;
            assert(2 * span * p <= span * q) by (nonlinear_arith)
                requires
                    q >= 2 * p,
                    span > 0,
            ;
        }
    }
}

/// Finite amounts are ordered by their bits as they are by their values: what
/// the comparisons of this module say of ranks they say of the numbers.
pub proof fn law_rank_orders_values(a: Amount, b: Amount)
    requires
        a.is_finite(),
        b.is_finite(),
    ensures
        a.rank() < b.rank() <==> a.scaled_value() < b.scaled_value(),
        a.rank() == b.rank() <==> a.scaled_value() == b.scaled_value(),
{
    let x = a.magnitude();
    let y = b.magnitude();
    assert(scaled_magnitude(0) == 0);
    if x > 0 {
        lemma_scaled_magnitude_increases(0, x);
    }
    if y > 0 {
        lemma_scaled_magnitude_increases(0, y);
    }
    if x < y {
        lemma_scaled_magnitude_increases(x, y);
    }
    if y < x {
        lemma_scaled_magnitude_increases(y, x);
    }
}

/// The pattern that stands for 1 in the comparisons has the value 1, and the
/// pattern that stands for 0 has the value 0.
pub proof fn law_one_and_zero_have_their_values(one: Amount, zero: Amount)
    requires
        one.bits == ONE_BITS,
        zero.bits == 0,
    ensures
        one.scaled_value() == pow2(1074),
        zero.scaled_value() == 0,
{
    assert(ONE_BITS as int / MANTISSA_SPAN as int == 1023);
    assert(ONE_BITS as int % MANTISSA_SPAN as int == 0);
    lemma_pow2_adds(52, 1022);
    lemma_pow2_adds(26, 26);
    lemma2_to64();
    assert(pow2(52) == MANTISSA_SPAN);
}

/// The larger of two amounts does not depend on the order in which they are
/// given, except that the two zeros may stand for each other.
pub proof fn law_max_commutes(a: Amount, b: Amount)
    requires
        !a.is_nan() || !b.is_nan(),
    ensures
        a.spec_max(b).rank() == b.spec_max(a).rank(),
        !a.spec_max(b).is_nan(),
{
}

/// The comparisons of finite amounts with zero and one are those of their values, and the larger
/// of two has the larger value.
pub proof fn law_comparisons_are_of_values(a: Amount, b: Amount)
    requires
        a.is_finite(),
        b.is_finite(),
    ensures
        a.spec_is_positive() <==> a.scaled_value() > 0,
        a.spec_is_nonzero() <==> a.scaled_value() != 0,
        a.spec_at_most_zero() <==> a.scaled_value() <= 0,
        a.spec_at_least_zero() <==> a.scaled_value() >= 0,
        a.spec_at_least_one() <==> a.scaled_value() >= pow2(1074),
        a.spec_below_one() <==> a.scaled_value() < pow2(1074),
        a.spec_max(b).scaled_value() == (if a.scaled_value() < b.scaled_value() {
            b.scaled_value()
        } else {
            a.scaled_value()
        }),
{
    let zero = Amount { bits: 0 };
    let one = Amount { bits: ONE_BITS };
    law_one_and_zero_have_their_values(one, zero);
    law_rank_orders_values(a, zero);
    law_rank_orders_values(zero, a);
    law_rank_orders_values(a, one);
    law_rank_orders_values(one, a);
    law_rank_orders_values(a, b);
}

/// What is not a number compares with nothing, and gives way to the other in a maximum.
pub proof fn law_what_is_no_number_compares_with_nothing(a: Amount, b: Amount)
    requires
        a.is_nan(),
    ensures
        !a.spec_is_positive(),
        !a.spec_is_nonzero(),
        !a.spec_at_most_zero(),
        !a.spec_at_least_zero(),
        !a.spec_at_least_one(),
        !a.spec_below_one(),
        a.spec_max(b) == b,
        !b.is_nan() ==> b.spec_max(a) == b,
{
}

} // verus!
