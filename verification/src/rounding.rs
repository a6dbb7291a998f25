//! Rounding to the nearest double, in whole numbers.
use crate::amount::{lemma_scaled_magnitude_increases, scaled_magnitude, Amount, INFINITY_BITS, MANTISSA_SPAN};
use vstd::arithmetic::div_mod::{lemma_fundamental_div_mod, lemma_fundamental_div_mod_converse};
use vstd::arithmetic::power2::{lemma2_to64, lemma_pow2_adds, lemma_pow2_pos, lemma_pow2_strictly_increases, lemma_pow2_unfold, pow2};
use vstd::prelude::*;

verus! {

/// Two to the 53: whole numbers up to it are doubles.
pub const EXACT_LIMIT: u64 = 0x0020_0000_0000_0000;

/// What the value of an amount is multiplied by to make it whole.
pub open spec fn unit() -> int {
    pow2(1074) as int
}

/// An amount is the double nearest to `n / d`: that number lies between the midpoints
/// to the two neighbours of the amount, and where it is such a midpoint the bits of
/// the amount are even.
pub open spec fn rounds_to(n: int, d: int, a: Amount) -> bool {
    let x = a.bits as int;
    let twice = 2 * n * unit();
    let above = (scaled_magnitude(x) + scaled_magnitude(x + 1)) * d;
    let below = (scaled_magnitude(x - 1) + scaled_magnitude(x)) * d;
    &&& x < INFINITY_BITS
    &&& twice <= above
    &&& twice == above ==> x % 2 == 0
    &&& x > 0 ==> below <= twice
    &&& x > 0 && below == twice ==> x % 2 == 0
}

/// The double nearest to `n / d`.
pub open spec fn nearest(n: int, d: int) -> Amount {
    choose|a: Amount| rounds_to(n, d, a)
}

/// Only one double is the nearest to a number.
pub proof fn law_rounding_is_unique(n: int, d: int, a: Amount, b: Amount)
    requires
        d > 0,
        rounds_to(n, d, a),
        rounds_to(n, d, b),
    ensures
        a == b,
{
    lemma_not_below(n, d, a, b);
    lemma_not_below(n, d, b, a);
}

proof fn lemma_not_below(n: int, d: int, a: Amount, b: Amount)
    requires
        d > 0,
        rounds_to(n, d, a),
        rounds_to(n, d, b),
    ensures
        a.bits >= b.bits,
{
    let x = a.bits as int;
    let y = b.bits as int;
    if x < y {
        lemma_scaled_magnitude_increases(x, x + 1);
        if x + 1 < y {
            lemma_scaled_magnitude_increases(x + 1, y);
            lemma_scaled_magnitude_increases(x, y - 1);
        }
        let above = scaled_magnitude(x) + scaled_magnitude(x + 1);
        let below = scaled_magnitude(y - 1) + scaled_magnitude(y);
        if above < below {
            assert(above * d < below * d) by (nonlinear_arith)
                requires
                    above < below,
                    d > 0,
            ;
        }
    }
}

/// Rounding keeps the side of a number that is itself a double.
proof fn lemma_rounding_keeps_side(n: int, d: int, a: Amount, y: int)
    requires
        d > 0,
        rounds_to(n, d, a),
        y >= 0,
    ensures
        n * unit() >= scaled_magnitude(y) * d ==> a.bits >= y,
        n * unit() <= scaled_magnitude(y) * d ==> a.bits <= y,
{
    let x = a.bits as int;
    let v = n * unit();
    assert(2 * n * unit() == 2 * v) by (nonlinear_arith)
        requires
            v == n * unit(),
    ;
    if x < y {
        lemma_scaled_magnitude_increases(x, x + 1);
        if x + 1 < y {
            lemma_scaled_magnitude_increases(x + 1, y);
        }
        let above = scaled_magnitude(x) + scaled_magnitude(x + 1);
        let twice = 2 * scaled_magnitude(y);
        assert(above * d < twice * d) by (nonlinear_arith)
            requires
                above < twice,
                d > 0,
        ;
        assert(twice * d == 2 * (scaled_magnitude(y) * d)) by (nonlinear_arith)
            requires
                twice == 2 * scaled_magnitude(y),
        ;
    }
    if y < x {
        lemma_scaled_magnitude_increases(x - 1, x);
        if y < x - 1 {
            lemma_scaled_magnitude_increases(y, x - 1);
        }
        let below = scaled_magnitude(x - 1) + scaled_magnitude(x);
        let twice = 2 * scaled_magnitude(y);
        assert(below * d > twice * d) by (nonlinear_arith)
            requires
                below > twice,
                d > 0,
        ;
        assert(twice * d == 2 * (scaled_magnitude(y) * d)) by (nonlinear_arith)
            requires
                twice == 2 * scaled_magnitude(y),
        ;
    }
}

/// There is a nearest double to every number below the largest one.
proof fn lemma_nearest_exists(n: int, d: int, limit: int)
    requires
        n >= 0,
        d > 0,
        0 < limit < INFINITY_BITS,
        n * unit() < scaled_magnitude(limit) * d,
    ensures
        rounds_to(n, d, nearest(n, d)),
{
    let v = n * unit();
    lemma_pow2_pos(1074);
    assert(v >= 0) by (nonlinear_arith)
        requires
            n >= 0,
            unit() > 0,
            v == n * unit(),
    ;
    let y = lemma_floor(v, d, limit);
    assert(2 * n * unit() == 2 * v) by (nonlinear_arith)
        requires
            v == n * unit(),
    ;
    let low = scaled_magnitude(y);
    let high = scaled_magnitude(y + 1);
    assert((low + high) * d == low * d + high * d) by (nonlinear_arith);
    if y > 0 {
        lemma_scaled_magnitude_increases(y - 1, y);
        let under = scaled_magnitude(y - 1);
        assert((under + low) * d < 2 * (low * d)) by (nonlinear_arith)
            requires
                under < low,
                d > 0,
        ;
    }
    lemma_scaled_magnitude_increases(y + 1, y + 2);
    let over = scaled_magnitude(y + 2);
    assert((high + over) * d > 2 * (high * d)) by (nonlinear_arith)
        requires
            over > high,
            d > 0,
    ;
    let a = if 2 * v < low * d + high * d || (2 * v == low * d + high * d && y % 2 == 0) {
        Amount { bits: y as u64 }
    } else {
        Amount { bits: (y + 1) as u64 }
    };
    assert(rounds_to(n, d, a));
}

/// The largest double that is not above a number.
proof fn lemma_floor(v: int, d: int, limit: int) -> (y: int)
    requires
        v >= 0,
        d > 0,
        limit > 0,
        v < scaled_magnitude(limit) * d,
    ensures
        0 <= y < limit,
        scaled_magnitude(y) * d <= v < scaled_magnitude(y + 1) * d,
    decreases limit,
{
    if scaled_magnitude(limit - 1) * d <= v {
        limit - 1
    } else {
        if limit == 1 {
            assert(scaled_magnitude(0) == 0);
            assert(0int * d == 0) by (nonlinear_arith);
        }
        lemma_floor(v, d, limit - 1)
    }
}

/// A fraction may be expanded before it is rounded.
proof fn lemma_expand(n: int, d: int, c: int, a: Amount)
    requires
        c > 0,
        rounds_to(n, d, a),
    ensures
        rounds_to(n * c, d * c, a),
{
    let x = a.bits as int;
    let u = unit();
    let above = scaled_magnitude(x) + scaled_magnitude(x + 1);
    let below = scaled_magnitude(x - 1) + scaled_magnitude(x);
    let twice = 2 * n * u;
    assert(2 * (n * c) * u == twice * c) by (nonlinear_arith)
        requires
            twice == 2 * n * u,
    ;
    assert(above * (d * c) == (above * d) * c) by (nonlinear_arith);
    assert(below * (d * c) == (below * d) * c) by (nonlinear_arith);
    lemma_scale(twice, above * d, c);
    lemma_scale(below * d, twice, c);
}

proof fn lemma_scale(a: int, b: int, c: int)
    by (nonlinear_arith)
    requires
        c > 0,
    ensures
        a <= b <==> a * c <= b * c,
        a == b <==> a * c == b * c,
{
}

/// The double `m` times two to the `s`, for `m` from two to the 52 up to two to the 53.
pub open spec fn double_of(m: int, s: int) -> Amount {
    Amount { bits: ((s + 1074) * MANTISSA_SPAN + m) as u64 }
}

/// What a unit in the last place of such a double is worth.
pub open spec fn last_place(s: int) -> int {
    pow2((s + 1074) as nat) as int
}

proof fn lemma_double(m: int, s: int)
    requires
        MANTISSA_SPAN <= m <= EXACT_LIMIT,
        -1000 <= s <= 900,
    ensures
        double_of(m, s).bits == (s + 1074) * MANTISSA_SPAN + m,
        double_of(m, s).bits < INFINITY_BITS - 1,
        scaled_magnitude((s + 1074) * MANTISSA_SPAN + m) == m * last_place(s),
        last_place(s) > 0,
{
    let span = MANTISSA_SPAN as int;
    let x = (s + 1074) * span + m;
    lemma_pow2_pos((s + 1074) as nat);
    lemma_pow2_unfold((s + 1075) as nat);
    if m < EXACT_LIMIT {
        lemma_fundamental_div_mod_converse(x, span, s + 1075, m - span);
    } else {
        lemma_fundamental_div_mod_converse(x, span, s + 1076, 0);
        let p = last_place(s);
        assert(span * (2 * p) == (2 * span) * p) by (nonlinear_arith);
    }
}

/// Twice a number against a number of last places, as the fraction tells it.
proof fn lemma_compare(v: int, d: int, nn: int, dd: int, p: int, c: int)
    requires
        d > 0,
        dd > 0,
        p > 0,
        v * dd == nn * d * p,
    ensures
        2 * v <= c * p * d <==> 2 * nn <= c * dd,
        2 * v == c * p * d <==> 2 * nn == c * dd,
{
    let k = d * p;
    assert(k > 0) by (nonlinear_arith)
        requires
            d > 0,
            p > 0,
            k == d * p,
    ;
    lemma_scale(2 * v, c * p * d, dd);
    lemma_scale(2 * nn, c * dd, k);
    assert((2 * v) * dd == (2 * nn) * k) by (nonlinear_arith)
        requires
            v * dd == nn * d * p,
            k == d * p,
    ;
    assert((c * p * d) * dd == (c * dd) * k) by (nonlinear_arith)
        requires
            k == d * p,
    ;
}

proof fn lemma_round_down(n: int, d: int, nn: int, dd: int, m: int, s: int)
    requires
        d > 0,
        dd > 0,
        MANTISSA_SPAN <= m < EXACT_LIMIT,
        -1000 <= s <= 900,
        (n * unit()) * dd == nn * d * last_place(s),
        m * dd <= nn,
        2 * nn <= (2 * m + 1) * dd,
        2 * nn == (2 * m + 1) * dd ==> m % 2 == 0,
    ensures
        rounds_to(n, d, double_of(m, s)),
{
    let v = n * unit();
    let p = last_place(s);
    let x = (s + 1074) * MANTISSA_SPAN + m;
    lemma_double(m, s);
    lemma_double(m + 1, s);
    assert(2 * n * unit() == 2 * v) by (nonlinear_arith)
        requires
            v == n * unit(),
    ;
    lemma_compare(v, d, nn, dd, p, 2 * m + 1);
    assert((m * p + (m + 1) * p) * d == (2 * m + 1) * p * d) by (nonlinear_arith);
    lemma_scaled_magnitude_increases(x - 1, x);
    let under = scaled_magnitude(x - 1);
    assert((under + m * p) * d < 2 * m * p * d) by (nonlinear_arith)
        requires
            under < m * p,
            d > 0,
    ;
    lemma_compare(v, d, nn, dd, p, 2 * m);
    assert(2 * m * p * d <= 2 * v) by {
        if 2 * v <= 2 * m * p * d {
            assert(2 * nn <= 2 * m * dd);
            assert(2 * m * dd == 2 * (m * dd)) by (nonlinear_arith);
        }
    }
}

proof fn lemma_round_up(n: int, d: int, nn: int, dd: int, m: int, s: int)
    requires
        d > 0,
        dd > 0,
        MANTISSA_SPAN < m <= EXACT_LIMIT,
        -1000 <= s <= 900,
        (n * unit()) * dd == nn * d * last_place(s),
        nn < m * dd,
        (2 * m - 1) * dd <= 2 * nn,
        2 * nn == (2 * m - 1) * dd ==> m % 2 == 0,
    ensures
        rounds_to(n, d, double_of(m, s)),
{
    let v = n * unit();
    let p = last_place(s);
    let x = (s + 1074) * MANTISSA_SPAN + m;
    lemma_double(m, s);
    lemma_double(m - 1, s);
    assert(2 * n * unit() == 2 * v) by (nonlinear_arith)
        requires
            v == n * unit(),
    ;
    lemma_compare(v, d, nn, dd, p, 2 * m - 1);
    assert(((m - 1) * p + m * p) * d == (2 * m - 1) * p * d) by (nonlinear_arith);
    lemma_scaled_magnitude_increases(x, x + 1);
    let over = scaled_magnitude(x + 1);
    assert((m * p + over) * d > 2 * m * p * d) by (nonlinear_arith)
        requires
            over > m * p,
            d > 0,
    ;
    lemma_compare(v, d, nn, dd, p, 2 * m);
    assert(2 * m * dd == 2 * (m * dd)) by (nonlinear_arith);
}

/// A double that is not zero: `m` times two to the `s`.
pub struct Rounded {
    pub m: u64,
    pub s: i64,
}

impl Rounded {
    /// The parts are in their ranges.
    pub open spec fn is_valid(self) -> bool {
        MANTISSA_SPAN <= self.m <= EXACT_LIMIT && -120 <= self.s <= 80
    }

    pub open spec fn amount(self) -> Amount {
        double_of(self.m as int, self.s as int)
    }

    /// The value, made whole.
    pub open spec fn value(self) -> int {
        self.m * last_place(self.s as int)
    }

    /// The bits of the double.
    pub fn to_amount(&self) -> (r: Amount)
        requires
            self.is_valid(),
        ensures
            r == self.amount(),
            r.bits < INFINITY_BITS,
            r.scaled_value() == self.value(),
    {
        proof {
            lemma_double(self.m as int, self.s as int);
        }
        Amount { bits: (self.s + 1074) as u64 * MANTISSA_SPAN + self.m }
    }
}

/// Doubling the denominator moves the last place up.
proof fn lemma_last_place_up(v: int, nn: int, d: int, dd: int, s: int)
    requires
        -1000 <= s <= 900,
        v * dd == nn * d * last_place(s),
    ensures
        v * (2 * dd) == nn * d * last_place(s + 1),
        (v * dd == (2 * nn) * d * last_place(s - 1)),
{
    lemma_pow2_unfold((s + 1075) as nat);
    lemma_pow2_unfold((s + 1074) as nat);
    let p = last_place(s);
    let q = last_place(s - 1);
    assert(last_place(s + 1) == 2 * p);
    assert(p == 2 * q);
    assert(v * (2 * dd) == nn * d * (2 * p)) by (nonlinear_arith)
        requires
            v * dd == nn * d * p,
    ;
    assert((2 * nn) * d * q == nn * d * p) by (nonlinear_arith)
        requires
            p == 2 * q,
    ;
}

/// A power of two below another has the smaller exponent.
proof fn lemma_exponent_below(e: nat, f: nat)
    requires
        pow2(e) < pow2(f),
    ensures
        e < f,
{
    if f < e {
        lemma_pow2_strictly_increases(f, e);
    }
}

proof fn lemma_powers()
    ensures
        pow2(52) == 0x10_0000_0000_0000,
        pow2(53) == 0x20_0000_0000_0000,
        pow2(76) == 0x1000_0000_0000_0000_0000,
        pow2(117) == 0x20_0000_0000_0000_0000_0000_0000_0000,
{
    lemma2_to64();
    lemma_pow2_adds(26, 26);
    lemma_pow2_adds(26, 27);
    lemma_pow2_adds(52, 24);
    lemma_pow2_adds(64, 53);
}

/// The double nearest to `n / d`.
fn round_ratio(n: u128, d: u128) -> (r: Rounded)
    requires
        0 < n,
        0 < d <= 0x1_0000_0000_0000_0000,
    ensures
        r.is_valid(),
        rounds_to(n as int, d as int, r.amount()),
        r.s > 0 ==> n >= EXACT_LIMIT * d,
        r.s <= 0 ==> n * pow2((-r.s) as nat) < EXACT_LIMIT * d,
        d == 1 && r.s <= 0 ==> r.value() == n * unit(),
{
    let ghost v = n * unit();
    let mut dd: u128 = d;
    let mut nn: u128 = n;
    let mut s: i64 = 0;
    proof {
        lemma_powers();
        lemma2_to64();
        assert(v * d == n * d * last_place(0)) by (nonlinear_arith)
            requires
                v == n * unit(),
                last_place(0) == unit(),
        ;
        lemma_fundamental_div_mod(n as int, dd as int);
        assert(d * pow2(0) == d);
    }
    while n / dd >= EXACT_LIMIT as u128
        invariant
            n > 0,
            d > 0,
            dd > 0,
            0 <= s <= 76,
            v == n * unit(),
            v * dd == n * d * last_place(s as int),
            dd == d * pow2(s as nat),
            s > 0 ==> n >= MANTISSA_SPAN * dd,
            s > 0 ==> n >= EXACT_LIMIT * d,
            s == 0 ==> dd == d,
        decreases n - dd,
    {
        proof {
            lemma_powers();
            lemma_fundamental_div_mod(n as int, dd as int);
            let q = n as int / dd as int;
            assert(n >= EXACT_LIMIT * dd) by (nonlinear_arith)
                requires
                    n >= dd * q,
                    q >= EXACT_LIMIT,
                    dd > 0,
            ;
            assert(pow2(s as nat) <= dd) by (nonlinear_arith)
                requires
                    dd == d * pow2(s as nat),
                    d >= 1,
            ;
            lemma_exponent_below(s as nat, 76);
            lemma_last_place_up(v, n as int, d as int, dd as int, s as int);
            lemma_pow2_unfold((s + 1) as nat);
            assert(2 * dd == d * pow2((s + 1) as nat)) by (nonlinear_arith)
                requires
                    dd == d * pow2(s as nat),
                    pow2((s + 1) as nat) == 2 * pow2(s as nat),
            ;
        }
        dd = dd * 2;
        s = s + 1;
    }
    proof {
        lemma_fundamental_div_mod(n as int, dd as int);
        let q = n as int / dd as int;
        let rest = n as int % dd as int;
        assert(n < EXACT_LIMIT * dd) by (nonlinear_arith)
            requires
                n == dd * q + rest,
                rest < dd,
                q + 1 <= EXACT_LIMIT,
                dd > 0,
        ;
        assert(n * pow2(0) == n);
    }
    while nn / dd < MANTISSA_SPAN as u128
        invariant
            n > 0,
            0 < d <= 0x1_0000_0000_0000_0000,
            dd > 0,
            nn > 0,
            -117 <= s <= 76,
            v == n * unit(),
            v * dd == nn * d * last_place(s as int),
            nn < EXACT_LIMIT * dd,
            s > 0 ==> nn >= MANTISSA_SPAN * dd,
            s > 0 ==> n >= EXACT_LIMIT * d,
            s <= 0 ==> dd == d && nn == n * pow2((-s) as nat),
        decreases EXACT_LIMIT * dd - nn,
    {
        proof {
            lemma_powers();
            lemma_fundamental_div_mod(nn as int, dd as int);
            let q = nn as int / dd as int;
            let rest = nn as int % dd as int;
            assert(nn < MANTISSA_SPAN * dd) by (nonlinear_arith)
                requires
                    nn == dd * q + rest,
                    rest < dd,
                    q + 1 <= MANTISSA_SPAN,
                    dd > 0,
            ;
            assert(pow2((-s) as nat) <= nn) by (nonlinear_arith)
                requires
                    nn == n * pow2((-s) as nat),
                    n >= 1,
            ;
            lemma_exponent_below((-s) as nat, 117);
            lemma_last_place_up(v, nn as int, d as int, dd as int, s as int);
            lemma_pow2_unfold((1 - s) as nat);
            assert(2 * nn == n * pow2((1 - s) as nat)) by (nonlinear_arith)
                requires
                    nn == n * pow2((-s) as nat),
                    pow2((1 - s) as nat) == 2 * pow2((-s) as nat),
            ;
        }
        nn = nn * 2;
        s = s - 1;
    }
    let whole: u128 = nn / dd;
    let rest: u128 = nn % dd;
    proof {
        lemma_fundamental_div_mod(nn as int, dd as int);
        assert(whole < EXACT_LIMIT) by (nonlinear_arith)
            requires
                nn >= dd * whole,
                nn < EXACT_LIMIT * dd,
                dd > 0,
        ;
        assert(dd * whole == whole * dd) by (nonlinear_arith);
        assert((2 * whole + 1) * dd == 2 * (whole * dd) + dd) by (nonlinear_arith);
        assert((whole + 1) * dd == whole * dd + dd) by (nonlinear_arith);
        assert(dd < 0x20_0000_0000_0000_0000_0000_0000_0000) by (nonlinear_arith)
            requires
                nn >= dd * whole,
                whole >= 0x10_0000_0000_0000,
                nn <= 0xffff_ffff_ffff_ffff_ffff_ffff_ffff_ffff,
        ;
    }
    let up: bool = 2 * rest > dd || (2 * rest == dd && whole % 2 == 1);
    if up {
        proof {
            lemma_round_up(n as int, d as int, nn as int, dd as int, whole + 1, s as int);
        }
        Rounded { m: (whole + 1) as u64, s }
    } else {
        proof {
            lemma_round_down(n as int, d as int, nn as int, dd as int, whole as int, s as int);
        }
        Rounded { m: whole as u64, s }
    }
}

proof fn lemma_is_nearest(n: int, d: int, a: Amount)
    requires
        d > 0,
        rounds_to(n, d, a),
    ensures
        nearest(n, d) == a,
{
    law_rounding_is_unique(n, d, a, nearest(n, d));
}

proof fn lemma_zero_is_nearest(d: int)
    requires
        d > 0,
    ensures
        rounds_to(0, d, Amount { bits: 0 }),
        nearest(0, d) == (Amount { bits: 0 }),
        scaled_magnitude(0) == 0,
        scaled_magnitude(1) == 1,
{
    assert(2 * 0 * unit() == 0) by (nonlinear_arith);
    assert(scaled_magnitude(0) == 0 && scaled_magnitude(1) == 1);
    assert((0int + 1int) * d == d) by (nonlinear_arith);
    lemma_is_nearest(0, d, Amount { bits: 0 });
}

/// The value of the double nearest to a whole number, which is whole.
fn whole_value(x: u64) -> (r: u128)
    ensures
        rounds_to(x as int, 1, nearest(x as int, 1)),
        nearest(x as int, 1).scaled_value() == r * unit(),
        r <= 0x1_0000_0000_0000_0000,
{
    if x == 0 {
        proof {
            lemma_zero_is_nearest(1);
        }
        return 0;
    }
    let near: Rounded = round_ratio(x as u128, 1);
    let a: Amount = near.to_amount();
    proof {
        lemma_is_nearest(x as int, 1, a);
    }
    if near.s <= 0 {
        return x as u128;
    }
    let ghost limit = double_of(MANTISSA_SPAN as int, 12);
    let ghost u = unit();
    proof {
        lemma_powers();
        lemma2_to64();
        lemma_pow2_pos(1074);
        lemma_double(MANTISSA_SPAN as int, 12);
        lemma_pow2_adds(12, 1074);
        lemma_pow2_adds(near.s as nat, 1074);
        assert(MANTISSA_SPAN * (4096 * u) == 0x1_0000_0000_0000_0000 * u) by (nonlinear_arith);
        assert(x * u <= 0x1_0000_0000_0000_0000 * u) by (nonlinear_arith)
            requires
                x <= 0x1_0000_0000_0000_0000,
                u > 0,
        ;
        lemma_rounding_keeps_side(x as int, 1, a, limit.bits as int);
        if a.bits < limit.bits {
            lemma_scaled_magnitude_increases(a.bits as int, limit.bits as int);
        }
        let p = pow2(near.s as nat) as int;
        assert(near.m * (p * u) == (near.m * p) * u) by (nonlinear_arith);
        lemma_scale(near.m * p, 0x1_0000_0000_0000_0000, u);
    }
    let mut value: u128 = near.m as u128;
    let mut i: i64 = 0;
    assert(near.m * pow2(0) == near.m) by {
        lemma2_to64();
    }
    while i < near.s
        invariant
            0 <= i <= near.s,
            value == near.m * pow2(i as nat),
            near.m * pow2(near.s as nat) <= 0x1_0000_0000_0000_0000,
        decreases near.s - i,
    {
        proof {
            lemma_pow2_unfold((i + 1) as nat);
            if i + 1 < near.s {
                lemma_pow2_strictly_increases((i + 1) as nat, near.s as nat);
            }
            assert(value * 2 == near.m * pow2((i + 1) as nat)) by (nonlinear_arith)
                requires
                    value == near.m * pow2(i as nat),
                    pow2((i + 1) as nat) == 2 * pow2(i as nat),
            ;
            assert(near.m * pow2((i + 1) as nat) <= near.m * pow2(near.s as nat)) by (nonlinear_arith)
                requires
                    pow2((i + 1) as nat) <= pow2(near.s as nat),
                    near.m >= 0,
            ;
        }
        value = value * 2;
        i = i + 1;
    }
    value
}

/// The hours to hold less the hours that have passed, in floating point: the seconds
/// and the hours to hold are rounded to doubles, the quotient of the seconds by 3600 is
/// rounded, and so is the difference. Where that is not above zero there is zero.
pub open spec fn hours_left_of(hold_time_hours: u64, elapsed_secs: u64) -> Amount {
    let passed = nearest(
        nearest(elapsed_secs as int, 1).scaled_value(),
        3600 * unit(),
    ).scaled_value();
    let hold = nearest(hold_time_hours as int, 1).scaled_value();
    if hold <= passed {
        Amount { bits: 0 }
    } else {
        nearest(hold - passed, unit())
    }
}

/// A fraction of a whole number of units is the fraction of the number.
proof fn lemma_nearest_in_units(n: int, d: int, a: Amount)
    requires
        d > 0,
        rounds_to(n, d, a),
    ensures
        nearest(n * unit(), d * unit()) == a,
{
    lemma_pow2_pos(1074);
    lemma_expand(n, d, unit(), a);
    assert(d * unit() > 0) by (nonlinear_arith)
        requires
            d > 0,
            unit() > 0,
    ;
    lemma_is_nearest(n * unit(), d * unit(), a);
}

/// The hours that have passed, as a numerator and the exponent of a denominator that
/// is a power of two.
fn hours_passed(elapsed_secs: u64) -> (r: (u64, u64))
    ensures
        r.1 <= 64,
        r.0 <= EXACT_LIMIT,
        r.0 == 0 ==> r.1 == 0,
        nearest(nearest(elapsed_secs as int, 1).scaled_value(), 3600 * unit()).scaled_value()
            * pow2(r.1 as nat) == r.0 * unit(),
{
    let secs: u128 = whole_value(elapsed_secs);
    if secs == 0 {
        proof {
            lemma_pow2_pos(1074);
            assert(3600 * unit() > 0);
            lemma_zero_is_nearest(3600 * unit());
            assert(0int * unit() == 0) by (nonlinear_arith);
            lemma2_to64();
        }
        return (0, 0);
    }
    let near: Rounded = round_ratio(secs, 3600);
    let a: Amount = near.to_amount();
    proof {
        lemma_nearest_in_units(secs as int, 3600, a);
        lemma2_to64();
        lemma_powers();
        if near.s < -64 {
            lemma_pow2_unfold(65);
            if near.s < -65 {
                lemma_pow2_strictly_increases(65, (-near.s) as nat);
            }
            assert(secs * pow2((-near.s) as nat) >= pow2(65)) by (nonlinear_arith)
                requires
                    secs >= 1,
                    pow2((-near.s) as nat) >= pow2(65),
            ;
        }
        lemma_pow2_adds((-near.s) as nat, (near.s + 1074) as nat);
        let p = last_place(near.s as int);
        let k = pow2((-near.s) as nat) as int;
        assert((near.m * p) * k == near.m * (k * p)) by (nonlinear_arith);
    }
    (near.m, (-near.s) as u64)
}

/// The hours to hold less the hours that have passed, rounded as floating point rounds
/// them, and zero once they are negative.
pub fn hours_left(hold_time_hours: u64, elapsed_secs: u64) -> (r: Amount)
    ensures
        r == hours_left_of(hold_time_hours, elapsed_secs),
{
    let (m, k): (u64, u64) = hours_passed(elapsed_secs);
    let hold: u128 = whole_value(hold_time_hours);
    let mut parts: u128 = 1;
    let mut i: u64 = 0;
    proof {
        lemma2_to64();
    }
    while i < k
        invariant
            i <= k <= 64,
            parts == pow2(i as nat),
            pow2(64) == 0x1_0000_0000_0000_0000,
        decreases k - i,
    {
        proof {
            lemma_pow2_unfold((i + 1) as nat);
            if i + 1 < 64 {
                lemma_pow2_strictly_increases((i + 1) as nat, 64);
            }
        }
        parts = parts * 2;
        i = i + 1;
    }
    let ghost u = unit();
    let ghost q = nearest(nearest(elapsed_secs as int, 1).scaled_value(), 3600 * u).scaled_value();
    let ghost h = hold * u;
    proof {
        lemma_pow2_pos(k as nat);
    }
    let whole: u128 = m as u128 / parts;
    let rest: u128 = m as u128 % parts;
    proof {
        lemma_pow2_pos(1074);
        if k < 64 {
            lemma_pow2_strictly_increases(k as nat, 64);
        }
        lemma_fundamental_div_mod(m as int, parts as int);
        assert(q * parts == m * u);
        assert(h * parts == (hold * parts) * u) by (nonlinear_arith)
            requires
                h == hold * u,
        ;
        lemma_scale(h, q, parts as int);
        lemma_scale(hold * parts, m as int, u);
    }
    if whole >= hold {
        assert(hold * parts <= m) by (nonlinear_arith)
            requires
                m >= parts * whole,
                whole >= hold,
                parts > 0,
        ;
        return Amount { bits: 0 };
    }
    let ghost n = hold * parts - m;
    proof {
        assert(m < hold * parts) by (nonlinear_arith)
            requires
                m == parts * whole + rest,
                rest < parts,
                whole + 1 <= hold,
        ;
        assert((hold - 1 - whole) * parts + (parts - rest) == n) by (nonlinear_arith)
            requires
                m == parts * whole + rest,
                n == hold * parts - m,
        ;
        assert((hold - 1 - whole) * parts >= 0) by (nonlinear_arith)
            requires
                hold - 1 - whole >= 0,
                parts > 0,
        ;
        assert(n <= 0xffff_ffff_ffff_ffff_ffff_ffff_ffff_ffff) by {
            if m == 0 {
                assert(k == 0);
                assert(hold * 1 == hold);
            } else {
                assert(hold * parts <= 0x1_0000_0000_0000_0000 * 0x1_0000_0000_0000_0000)
                    by (nonlinear_arith)
                    requires
                        hold <= 0x1_0000_0000_0000_0000,
                        parts <= 0x1_0000_0000_0000_0000,
                ;
            }
        }
    }
    let above: u128 = (hold - 1 - whole) * parts + (parts - rest);
    let near: Rounded = round_ratio(above, parts);
    let a: Amount = near.to_amount();
    proof {
        // The difference in units is `n / parts` of them.
        assert((h - q) * parts == n * u) by (nonlinear_arith)
            requires
                q * parts == m * u,
                h * parts == (hold * parts) * u,
                n == hold * parts - m,
        ;
        lemma_same_ratio(n, parts as int, h - q, u, a);
        lemma_is_nearest(h - q, u, a);
    }
    a
}

/// Equal fractions are rounded alike.
proof fn lemma_same_ratio(n: int, d: int, nn: int, dd: int, a: Amount)
    requires
        d > 0,
        dd > 0,
        nn * d == n * dd,
        rounds_to(n, d, a),
    ensures
        rounds_to(nn, dd, a),
{
    lemma_expand(n, d, dd, a);
    let x = a.bits as int;
    let u = unit();
    let above = scaled_magnitude(x) + scaled_magnitude(x + 1);
    let below = scaled_magnitude(x - 1) + scaled_magnitude(x);
    let twice = 2 * nn * u;
    assert(2 * (n * dd) * u == twice * d) by (nonlinear_arith)
        requires
            twice == 2 * nn * u,
            nn * d == n * dd,
    ;
    assert(above * (d * dd) == (above * dd) * d) by (nonlinear_arith);
    assert(below * (d * dd) == (below * dd) * d) by (nonlinear_arith);
    lemma_scale(twice, above * dd, d);
    lemma_scale(below * dd, twice, d);
}

/// A whole number up to two to the 53 is a double.
proof fn lemma_whole_is_double(i: int, j: nat) -> (y: int)
    requires
        0 < i <= EXACT_LIMIT,
        j <= 53,
        i * pow2(j) <= EXACT_LIMIT,
    ensures
        0 < y < INFINITY_BITS - 1,
        scaled_magnitude(y) == i * unit(),
        y >= MANTISSA_SPAN,
    decreases 53 - j,
{
    lemma_powers();
    let m = i * pow2(j);
    if m >= MANTISSA_SPAN {
        lemma_double(m, -j);
        lemma_pow2_adds(j, (1074 - j) as nat);
        let p = last_place(-j);
        let k = pow2(j) as int;
        assert((i * k) * p == i * (k * p)) by (nonlinear_arith);
        assert((1074 - j) * MANTISSA_SPAN >= MANTISSA_SPAN);
        (-j + 1074) * MANTISSA_SPAN + m
    } else {
        lemma_pow2_unfold(j + 1);
        if j == 53 {
            assert(m >= pow2(53)) by (nonlinear_arith)
                requires
                    m == i * pow2(53),
                    i >= 1,
            ;
        }
        assert(i * pow2(j + 1) == 2 * m) by (nonlinear_arith)
            requires
                m == i * pow2(j),
                pow2(j + 1) == 2 * pow2(j),
        ;
        lemma_whole_is_double(i, j + 1)
    }
}

/// A double is apart from the one below it by little: at most its value divided by two
/// to the 52.
proof fn lemma_gap(y: int)
    requires
        y >= MANTISSA_SPAN,
    ensures
        (scaled_magnitude(y) - scaled_magnitude(y - 1)) * MANTISSA_SPAN <= scaled_magnitude(y),
{
    let span = MANTISSA_SPAN as int;
    let e = y / span;
    let m = y % span;
    lemma_fundamental_div_mod(y, span);
    lemma_pow2_pos((e - 1) as nat);
    let p = pow2((e - 1) as nat) as int;
    assert(scaled_magnitude(y) == (span + m) * p);
    if m > 0 {
        lemma_fundamental_div_mod_converse(y - 1, span, e, m - 1);
        assert(scaled_magnitude(y - 1) == (span + m - 1) * p);
        assert(((span + m) * p - (span + m - 1) * p) * span <= (span + m) * p) by (nonlinear_arith)
            requires
                p > 0,
                m >= 0,
        ;
    } else {
        lemma_fundamental_div_mod_converse(y - 1, span, e - 1, span - 1);
        if e == 1 {
            assert(scaled_magnitude(y - 1) == span - 1);
            assert(pow2(0) == 1) by {
                lemma2_to64();
            }
        } else {
            let q = pow2((e - 2) as nat) as int;
            lemma_pow2_unfold((e - 1) as nat);
            assert(scaled_magnitude(y - 1) == (span + span - 1) * q);
            assert((span * p - (span + span - 1) * q) * span <= span * p) by (nonlinear_arith)
                requires
                    p == 2 * q,
                    q >= 0,
                    span > 0,
            ;
        }
    }
}

/// Whole numbers and their fractions by 3600 have nearest doubles.
proof fn lemma_nearest_of_whole(x: u64)
    ensures
        rounds_to(x as int, 1, nearest(x as int, 1)),
        x <= EXACT_LIMIT ==> nearest(x as int, 1).scaled_value() == x * unit(),
{
    lemma_pow2_pos(1074);
    let u = unit();
    if x == 0 {
        lemma_zero_is_nearest(1);
        assert(0int * u == 0) by (nonlinear_arith);
    } else {
        lemma2_to64();
        lemma_double(MANTISSA_SPAN as int, 13);
        lemma_pow2_adds(13, 1074);
        let limit = double_of(MANTISSA_SPAN as int, 13).bits as int;
        assert(MANTISSA_SPAN * (8192 * u) == 0x2_0000_0000_0000_0000 * u) by (nonlinear_arith);
        assert(x * u < 0x2_0000_0000_0000_0000 * u) by (nonlinear_arith)
            requires
                x < 0x2_0000_0000_0000_0000,
                u > 0,
        ;
        lemma_nearest_exists(x as int, 1, limit);
        if x <= EXACT_LIMIT {
            let y = lemma_whole_is_double(x as int, 0);
            lemma_rounding_keeps_side(x as int, 1, nearest(x as int, 1), y);
        }
    }
}

/// The quotient of a double by 3600 has a nearest double.
proof fn lemma_nearest_of_hours(secs: Amount)
    requires
        secs.bits < INFINITY_BITS - 1,
    ensures
        rounds_to(secs.scaled_value(), 3600 * unit(), nearest(secs.scaled_value(), 3600 * unit())),
{
    let u = unit();
    let v = secs.scaled_value();
    lemma_pow2_pos(1074);
    let limit = secs.bits + 1;
    lemma_scaled_magnitude_increases(secs.bits as int, limit as int);
    let top = scaled_magnitude(limit as int);
    assert(v * u < top * (3600 * u)) by (nonlinear_arith)
        requires
            0 <= v < top,
            u > 0,
    ;
    lemma_nearest_exists(v, 3600 * u, limit as int);
}

/// As long as the seconds to hold are fewer than two to the 53, the hours left lie
/// between 0 and the hours to hold, and they are 0 exactly where as many seconds have
/// passed as are to be held.
pub proof fn law_hours_left_are_zero_exactly_at_the_end(hold_time_hours: u64, elapsed_secs: u64)
    requires
        hold_time_hours * 3600 < EXACT_LIMIT,
    ensures
        ({
            let hours = hours_left_of(hold_time_hours, elapsed_secs);
            &&& hours.is_finite()
            &&& 0 <= hours.scaled_value() <= hold_time_hours * unit()
            &&& hours.scaled_value() == 0 <==> hold_time_hours * 3600 <= elapsed_secs
        }),
{
    let u = unit();
    let d = 3600 * u;
    let e = nearest(elapsed_secs as int, 1);
    let h = nearest(hold_time_hours as int, 1);
    let q = nearest(e.scaled_value(), d);
    let hv = h.scaled_value();
    let ev = e.scaled_value();
    let hold = hold_time_hours as int;
    lemma_pow2_pos(1074);
    lemma_zero_is_nearest(u);
    lemma_nearest_of_whole(elapsed_secs);
    lemma_nearest_of_whole(hold_time_hours);
    assert(hold * u >= 0) by (nonlinear_arith)
        requires
            hold >= 0,
            u > 0,
    ;
    assert(e.bits < INFINITY_BITS - 1) by {
        lemma2_to64();
        lemma_double(MANTISSA_SPAN as int, 13);
        lemma_pow2_adds(13, 1074);
        let limit = double_of(MANTISSA_SPAN as int, 13).bits as int;
        assert(MANTISSA_SPAN * (8192 * u) == 0x2_0000_0000_0000_0000 * u) by (nonlinear_arith);
        assert(elapsed_secs * u < 0x2_0000_0000_0000_0000 * u) by (nonlinear_arith)
            requires
                elapsed_secs < 0x2_0000_0000_0000_0000,
                u > 0,
        ;
        lemma_rounding_keeps_side(elapsed_secs as int, 1, e, limit);
    }
    lemma_nearest_of_hours(e);
    assert(hv == hold * u);
    if hold * 3600 <= elapsed_secs {
        if hold > 0 {
            lemma_due(hold_time_hours, elapsed_secs);
        } else {
            assert(hv == 0);
            if q.bits > 0 {
                lemma_scaled_magnitude_increases(0, q.bits as int);
            }
        }
    } else {
        lemma_not_due(hold_time_hours, elapsed_secs);
        let n = hv - q.scaled_value();
        if q.bits > 0 {
            lemma_scaled_magnitude_increases(0, q.bits as int);
        }
        let top = h.bits as int + 1;
        lemma_scaled_magnitude_increases(h.bits as int, top);
        assert(n * u < scaled_magnitude(top) * u) by (nonlinear_arith)
            requires
                n < scaled_magnitude(top),
                u > 0,
        ;
        lemma2_to64();
        let y = lemma_whole_is_double(hold, 0);
        lemma_rounding_keeps_side(hold, 1, h, y);
        lemma_nearest_exists(n, u, top);
        let r = nearest(n, u);
        assert(n * u <= hv * u) by (nonlinear_arith)
            requires
                n <= hv,
                u > 0,
        ;
        assert(n * u >= 1 * u) by (nonlinear_arith)
            requires
                n >= 1,
                u > 0,
        ;
        lemma_rounding_keeps_side(n, u, r, h.bits as int);
        lemma_rounding_keeps_side(n, u, r, 1);
        if r.bits < h.bits {
            lemma_scaled_magnitude_increases(r.bits as int, h.bits as int);
        }
        lemma_scaled_magnitude_increases(0, r.bits as int);
    }
}

/// Once the seconds to hold have passed, so have the hours.
proof fn lemma_due(hold_time_hours: u64, elapsed_secs: u64)
    requires
        0 < hold_time_hours,
        hold_time_hours * 3600 < EXACT_LIMIT,
        hold_time_hours * 3600 <= elapsed_secs,
        rounds_to(
            nearest(elapsed_secs as int, 1).scaled_value(),
            3600 * unit(),
            nearest(nearest(elapsed_secs as int, 1).scaled_value(), 3600 * unit()),
        ),
    ensures
        hold_time_hours * unit() <= nearest(
            nearest(elapsed_secs as int, 1).scaled_value(),
            3600 * unit(),
        ).scaled_value(),
{
    let u = unit();
    let hold = hold_time_hours as int;
    let e = nearest(elapsed_secs as int, 1);
    let ev = e.scaled_value();
    let q = nearest(ev, 3600 * u);
    lemma_pow2_pos(1074);
    lemma2_to64();
    lemma_nearest_of_whole(elapsed_secs);
    let z = lemma_whole_is_double(hold * 3600, 0);
    assert(elapsed_secs * u >= (hold * 3600) * u) by (nonlinear_arith)
        requires
            elapsed_secs >= hold * 3600,
            u > 0,
    ;
    lemma_rounding_keeps_side(elapsed_secs as int, 1, e, z);
    if z < e.bits {
        lemma_scaled_magnitude_increases(z, e.bits as int);
    }
    let y = lemma_whole_is_double(hold, 0);
    assert(ev * u >= (hold * u) * (3600 * u)) by (nonlinear_arith)
        requires
            ev >= (hold * 3600) * u,
            u > 0,
    ;
    lemma_rounding_keeps_side(ev, 3600 * u, q, y);
    if y < q.bits {
        lemma_scaled_magnitude_increases(y, q.bits as int);
    }
}

/// While there are seconds left to hold, the hours have not all passed: a second is
/// more than the rounding can take away.
proof fn lemma_not_due(hold_time_hours: u64, elapsed_secs: u64)
    requires
        hold_time_hours * 3600 < EXACT_LIMIT,
        hold_time_hours * 3600 > elapsed_secs,
        rounds_to(
            nearest(elapsed_secs as int, 1).scaled_value(),
            3600 * unit(),
            nearest(nearest(elapsed_secs as int, 1).scaled_value(), 3600 * unit()),
        ),
    ensures
        hold_time_hours * unit() > nearest(
            nearest(elapsed_secs as int, 1).scaled_value(),
            3600 * unit(),
        ).scaled_value(),
{
    let u = unit();
    let d = 3600 * u;
    let hold = hold_time_hours as int;
    let secs = elapsed_secs as int;
    let ev = nearest(secs, 1).scaled_value();
    let q = nearest(ev, d);
    lemma_pow2_pos(1074);
    lemma2_to64();
    lemma_nearest_of_whole(elapsed_secs);
    assert(ev == secs * u);
    let y = lemma_whole_is_double(hold, 0);
    assert(ev * u <= (hold * u) * d) by (nonlinear_arith)
        requires
            ev == secs * u,
            secs <= hold * 3600,
            u > 0,
            d == 3600 * u,
    ;
    lemma_rounding_keeps_side(ev, d, q, y);
    if q.bits == y {
        let under = scaled_magnitude(y - 1);
        let gap = hold * u - under;
        lemma_gap(y);
        assert((under + hold * u) * d <= 2 * ev * u);
        assert((under + hold * u) * 3600 <= 2 * ev) by (nonlinear_arith)
            requires
                (under + hold * u) * d <= 2 * ev * u,
                d == 3600 * u,
                u > 0,
        ;
        assert(secs * u <= (hold * 3600 - 1) * u) by (nonlinear_arith)
            requires
                secs <= hold * 3600 - 1,
                u > 0,
        ;
        assert((hold * 3600 - 1) * u == 3600 * (hold * u) - u) by (nonlinear_arith);
        assert(3600 * gap >= 2 * u);
        assert(3600 * (hold * u) < EXACT_LIMIT * u) by (nonlinear_arith)
            requires
                hold * 3600 < EXACT_LIMIT,
                u > 0,
        ;
    } else {
        lemma_scaled_magnitude_increases(q.bits as int, y);
    }
}

/// Rounding keeps the side of a whole number up to two to the 53.
proof fn lemma_rounding_keeps_side_of_whole(n: int, d: int, a: Amount, i: int)
    requires
        d > 0,
        rounds_to(n, d, a),
        0 <= i <= EXACT_LIMIT,
    ensures
        n * unit() >= (i * unit()) * d ==> a.scaled_value() >= i * unit(),
        n * unit() <= (i * unit()) * d ==> a.scaled_value() <= i * unit(),
        n * unit() <= (i * unit()) * d ==> a.bits < INFINITY_BITS - 1,
{
    let u = unit();
    lemma_pow2_pos(1074);
    lemma2_to64();
    lemma_zero_is_nearest(d);
    let y = if i == 0 {
        assert(0int * u == 0) by (nonlinear_arith);
        0
    } else {
        assert(i * pow2(0) == i) by (nonlinear_arith)
            requires
                pow2(0) == 1,
        ;
        lemma_whole_is_double(i, 0)
    };
    lemma_rounding_keeps_side(n, d, a, y);
    if y < a.bits {
        lemma_scaled_magnitude_increases(y, a.bits as int);
    }
    if a.bits < y {
        lemma_scaled_magnitude_increases(a.bits as int, y);
    }
}

/// Each hour that passes takes an hour from those that are left: after `k` hours, and before
/// another has passed, there are at most `k` fewer than are to be held and at least one less than
/// that, and at the full hour there are exactly `k` fewer.
pub proof fn law_an_hour_takes_an_hour(hold_time_hours: u64, elapsed_secs: u64, k: u64)
    requires
        hold_time_hours * 3600 < EXACT_LIMIT,
        k < hold_time_hours,
        k * 3600 <= elapsed_secs <= (k + 1) * 3600,
    ensures
        ({
            let hours = hours_left_of(hold_time_hours, elapsed_secs);
            &&& (hold_time_hours - k - 1) * unit() <= hours.scaled_value() <= (hold_time_hours - k)
                * unit()
            &&& elapsed_secs == k * 3600 ==> hours.scaled_value() == (hold_time_hours - k) * unit()
        }),
{
    let u = unit();
    let d = 3600 * u;
    let hold = hold_time_hours as int;
    let secs = elapsed_secs as int;
    let done = k as int;
    let e = nearest(secs, 1);
    let ev = e.scaled_value();
    let q = nearest(ev, d);
    let qv = q.scaled_value();
    lemma_pow2_pos(1074);
    lemma_zero_is_nearest(u);
    lemma_nearest_of_whole(elapsed_secs);
    lemma_nearest_of_whole(hold_time_hours);
    assert(ev == secs * u);
    assert(secs * u <= (secs * u) * 1);
    lemma_rounding_keeps_side_of_whole(secs, 1, e, secs);
    lemma_nearest_of_hours(e);
    assert(ev * u >= (done * u) * d) by (nonlinear_arith)
        requires
            ev == secs * u,
            secs >= done * 3600,
            u > 0,
            d == 3600 * u,
    ;
    assert(ev * u <= ((done + 1) * u) * d) by (nonlinear_arith)
        requires
            ev == secs * u,
            secs <= (done + 1) * 3600,
            u > 0,
            d == 3600 * u,
    ;
    lemma_rounding_keeps_side_of_whole(ev, d, q, done);
    lemma_rounding_keeps_side_of_whole(ev, d, q, done + 1);
    if secs == done * 3600 {
        assert(ev * u <= (done * u) * d) by (nonlinear_arith)
            requires
                ev == secs * u,
                secs == done * 3600,
                u > 0,
                d == 3600 * u,
        ;
    }
    assert((hold - done - 1) * u == hold * u - (done + 1) * u) by (nonlinear_arith);
    assert((hold - done) * u == hold * u - done * u) by (nonlinear_arith);
    assert((hold - done - 1) * u >= 0) by (nonlinear_arith)
        requires
            hold - done >= 1,
            u > 0,
    ;
    assert((hold - done) * u >= u) by (nonlinear_arith)
        requires
            hold - done >= 1,
            u > 0,
    ;
    if hold * u > qv {
        let n = hold * u - qv;
        let r = nearest(n, u);
        lemma2_to64();
        assert(hold * pow2(0) == hold) by (nonlinear_arith)
            requires
                pow2(0) == 1,
        ;
        let y = lemma_whole_is_double(hold, 0);
        lemma_scaled_magnitude_increases(y, y + 1);
        assert(qv >= 0) by {
            if q.bits > 0 {
                lemma_scaled_magnitude_increases(0, q.bits as int);
            }
        }
        let above = scaled_magnitude(y + 1);
        assert(n * u < above * u) by (nonlinear_arith)
            requires
                n < above,
                u > 0,
        ;
        lemma_nearest_exists(n, u, y + 1);
        assert(n * u >= ((hold - done - 1) * u) * u) by (nonlinear_arith)
            requires
                n >= (hold - done - 1) * u,
                u > 0,
        ;
        assert(n * u <= ((hold - done) * u) * u) by (nonlinear_arith)
            requires
                n <= (hold - done) * u,
                u > 0,
        ;
        lemma_rounding_keeps_side_of_whole(n, u, r, hold - done - 1);
        lemma_rounding_keeps_side_of_whole(n, u, r, hold - done);
        if secs == done * 3600 {
            assert(n * u >= ((hold - done) * u) * u) by (nonlinear_arith)
                requires
                    n >= (hold - done) * u,
                    u > 0,
            ;
        }
    }
}

/// No other double is nearer to a number than the one that it is rounded to, and where another is
/// as near, the bits of the one it is rounded to are even.
pub proof fn law_no_double_is_nearer(n: int, d: int, a: Amount, other: int)
    requires
        d > 0,
        rounds_to(n, d, a),
        other >= 0,
        other != a.bits,
    ensures
        ({
            let value = n * unit();
            let own = scaled_magnitude(a.bits as int) * d - value;
            let others = scaled_magnitude(other) * d - value;
            let own_distance = if own < 0 {
                -own
            } else {
                own
            };
            let other_distance = if others < 0 {
                -others
            } else {
                others
            };
            &&& own_distance <= other_distance
            &&& own_distance == other_distance ==> a.bits % 2 == 0
        }),
{
    let x = a.bits as int;
    let v = n * unit();
    assert(2 * n * unit() == 2 * v) by (nonlinear_arith)
        requires
            v == n * unit(),
    ;
    let own = scaled_magnitude(x);
    let there = scaled_magnitude(other);
    if other > x {
        let above = scaled_magnitude(x + 1);
        lemma_scaled_magnitude_increases(x, x + 1);
        if x + 1 < other {
            lemma_scaled_magnitude_increases(x + 1, other);
        }
        assert((own + above) * d == own * d + above * d) by (nonlinear_arith);
        assert(own * d < above * d <= there * d) by (nonlinear_arith)
            requires
                own < above <= there,
                d > 0,
        ;
    } else {
        let below = scaled_magnitude(x - 1);
        lemma_scaled_magnitude_increases(x - 1, x);
        if other < x - 1 {
            lemma_scaled_magnitude_increases(other, x - 1);
        }
        assert((below + own) * d == below * d + own * d) by (nonlinear_arith);
        assert(there * d <= below * d < own * d) by (nonlinear_arith)
            requires
                there <= below < own,
                d > 0,
        ;
    }
}

} // verus!
