//! Double precision arithmetic, in integers.
//!
//! The overlay's bar is drawn to the pixel that double precision arithmetic
//! yields. Each operation of that arithmetic gives the number with 53
//! significant bits that is nearest to the exact result, and of two that are
//! equally near the one whose last bit is zero.
use vstd::prelude::*;
use vstd::arithmetic::power2::{lemma_pow2_pos, lemma_pow2_unfold, pow2};

verus! {

/// The least number of 53 bits.
pub const TOP_BIT: u128 = 0x10_0000_0000_0000;

/// The least number that is too long for 53 bits.
pub const TOO_LONG: u128 = 0x20_0000_0000_0000;

/// A double that is not negative: `m / scale`, where `scale` is a power of two.
pub struct Double {
    pub m: int,
    pub scale: int,
}

/// The whole number nearest to `a / b`, a tie going to the even one.
pub open spec fn nearest(a: int, b: int) -> int {
    let whole = a / b;
    let rest = a % b;
    if 2 * rest < b || (2 * rest == b && whole % 2 == 0) {
        whole
    } else {
        whole + 1
    }
}

/// The double nearest to `a / (b * scale)`, which is less than one in `scale`:
/// the quotient is doubled until it has 53 bits before the point, and rounded.
pub open spec fn quotient(a: int, b: int, scale: int) -> Double
    decreases 2 * (TOP_BIT * b) - a,
{
    if a <= 0 || a >= TOP_BIT * b {
        Double { m: nearest(a, b), scale }
    } else {
        quotient(2 * a, b, 2 * scale)
    }
}

/// The double nearest to `n / (scale * unit)`: the unit in which `n` is counted
/// is doubled until the count has no more than 53 bits, and rounded.
pub open spec fn cut(n: int, scale: int, unit: int) -> Double
    decreases scale,
{
    if n < TOO_LONG * unit || scale <= 1 || scale % 2 != 0 {
        Double { m: nearest(n, unit), scale }
    } else {
        cut(n, scale / 2, 2 * unit)
    }
}

/// The double nearest to the sum of a whole number and a double.
pub open spec fn plus(whole: int, d: Double) -> Double {
    cut(whole * d.scale + d.m, d.scale, 1)
}

/// The double nearest to a whole number times a double.
pub open spec fn times(whole: int, d: Double) -> Double {
    cut(whole * d.m, d.scale, 1)
}

/// The double nearest to a double divided by a whole number.
pub open spec fn divided(d: Double, whole: int) -> Double {
    quotient(d.m, whole, d.scale)
}

/// The double nearest to one less a double.
pub open spec fn one_minus(d: Double) -> Double {
    cut(d.scale - d.m, d.scale, 1)
}

/// A double cut to a whole number.
pub open spec fn truncated(d: Double) -> int {
    d.m / d.scale
}

/// A double in memory.
#[derive(Clone, Copy, Debug, PartialEq, Eq, Structural)]
pub struct Number {
    pub m: u128,
    pub scale: u128,
}

impl View for Number {
    type V = Double;

    open spec fn view(&self) -> Double {
        Double { m: self.m as int, scale: self.scale as int }
    }
}

/// Room for a scale to grow in.
pub const ROOM: u128 = 0x8000_0000_0000_0000_0000_0000_0000_0000;

fn round(a: u128, b: u128) -> (n: u128)
    requires
        0 < b < 0x1_0000_0000_0000_0000,
        a < ROOM,
    ensures
        n == nearest(a as int, b as int),
{
    let whole: u128 = a / b;
    let rest: u128 = a % b;
    if 2 * rest < b || (2 * rest == b && whole % 2 == 0) {
        whole
    } else {
        assert(whole <= a) by (nonlinear_arith)
            requires
                whole == a / b,
                0 < b,
        ;
        whole + 1
    }
}

/// Divides `a` by `b * scale`.
pub fn divide(a: u128, b: u128, scale: u128) -> (d: Number)
    requires
        a <= TOO_LONG,
        0 < b <= 0x4000_0000,
        0 < scale < ROOM,
        0 < a ==> scale * (TOO_LONG * b) <= a * ROOM,
    ensures
        d@ == quotient(a as int, b as int, scale as int),
        0 < a ==> TOP_BIT <= d.m,
        d.m <= TOO_LONG,
        d.scale < ROOM,
        d.scale == scale || a * d.scale < (TOO_LONG * b) * scale,
{
    let mut count: u128 = a;
    let mut grown: u128 = scale;
    if a == 0 {
        return Number { m: round(a, b), scale };
    }
    while count < TOP_BIT * b
        invariant
            0 < a <= count,
            0 < b <= 0x4000_0000,
            0 < scale <= grown < ROOM,
            count < TOO_LONG * b || count == a,
            grown == scale || count < TOO_LONG * b,
            grown * (TOO_LONG * b) <= count * ROOM,
            a * grown == count * scale,
            quotient(count as int, b as int, grown as int) == quotient(
                a as int,
                b as int,
                scale as int,
            ),
        decreases TOO_LONG * b - count,
    {
        assert(2 * grown < ROOM) by (nonlinear_arith)
            requires
                grown * (TOO_LONG * b) <= count * ROOM,
                count < TOP_BIT * b,
                TOO_LONG == 2 * TOP_BIT,
                0 < b,
                0 < TOP_BIT,
                0 < ROOM,
        ;
        proof {
            assert((2 * grown) * (TOO_LONG * b) == 2 * (grown * (TOO_LONG * b)))
                by (nonlinear_arith);
            assert(a * (2 * grown) == 2 * (a * grown)) by (nonlinear_arith);
            assert((2 * count) * scale == 2 * (count * scale)) by (nonlinear_arith);
        }
        count = 2 * count;
        grown = 2 * grown;
    }
    let m: u128 = round(count, b);
    proof {
        lemma_nearest(count as int, b as int);
        assert(TOP_BIT <= count / b) by (nonlinear_arith)
            requires
                count >= TOP_BIT * b,
                0 < b,
        ;
        assert(count <= TOO_LONG * b) by (nonlinear_arith)
            requires
                count < TOO_LONG * b || count <= TOO_LONG,
                1 <= b,
        ;
        assert(m <= TOO_LONG) by (nonlinear_arith)
            requires
                2 * (m * b - count) <= b,
                count <= TOO_LONG * b,
                0 < b,
        ;
        assert(grown == scale || a * grown < (TOO_LONG * b) * scale) by (nonlinear_arith)
            requires
                grown == scale || count < TOO_LONG * b,
                a * grown == count * scale,
                0 < scale,
        ;
    }
    Number { m, scale: grown }
}

/// Cuts `n / scale` to 53 bits.
pub fn shorten(n: u128, scale: u128) -> (d: Number)
    requires
        n < 0x10_0000_0000_0000_0000_0000_0000,
        0 < scale,
    ensures
        d@ == cut(n as int, scale as int, 1),
        0 < d.scale <= scale,
{
    let mut unit: u128 = 1;
    let mut shrunk: u128 = scale;
    while !(n < TOO_LONG * unit || shrunk <= 1 || shrunk % 2 != 0)
        invariant
            n < 0x10_0000_0000_0000_0000_0000_0000,
            0 < shrunk <= scale,
            0 < unit <= 0x1_0000_0000_0000,
            cut(n as int, shrunk as int, unit as int) == cut(n as int, scale as int, 1),
        decreases shrunk,
    {
        unit = 2 * unit;
        shrunk = shrunk / 2;
    }
    Number { m: round(n, unit), scale: shrunk }
}

/// The number that a double stands for.
pub open spec fn value(d: Double) -> real {
    d.m as real / d.scale as real
}

/// How far off, as a share of the exact result, one operation can be.
pub open spec fn precision() -> real {
    1real / TOO_LONG as real
}

/// Whether `y` is off `x` by no more than `steps` operations can be.
pub open spec fn near(y: real, x: real, steps: real) -> bool {
    &&& y - x <= steps * precision() * x
    &&& x - y <= steps * precision() * x
}

pub proof fn lemma_nearest(a: int, b: int)
    requires
        0 <= a,
        0 < b,
    ensures
        0 <= nearest(a, b),
        -b <= 2 * (nearest(a, b) * b - a) <= b,
        a % b == 0 ==> nearest(a, b) * b == a,
{
    let whole = a / b;
    let rest = a % b;
    assert(a == whole * b + rest && 0 <= rest < b && 0 <= whole) by (nonlinear_arith)
        requires
            whole == a / b,
            rest == a % b,
            0 <= a,
            0 < b,
    ;
    assert((whole + 1) * b == whole * b + b) by (nonlinear_arith);
}

pub proof fn lemma_quotient_error(a: int, b: int, scale: int)
    requires
        0 < a,
        0 < b,
        0 < scale,
    ensures
        ({
            let d = quotient(a, b, scale);
            let off = d.m * (b * scale) - a * d.scale;
            &&& 0 <= d.m
            &&& scale <= d.scale
            &&& -(a * d.scale) <= TOO_LONG * off <= a * d.scale
        }),
    decreases 2 * (TOP_BIT * b) - a,
{
    let d = quotient(a, b, scale);
    let off = d.m * (b * scale) - a * d.scale;
    if a >= TOP_BIT * b {
        lemma_nearest(a, b);
        let m = nearest(a, b);
        assert(off == (m * b - a) * scale) by (nonlinear_arith)
            requires
                off == m * (b * scale) - a * scale,
        ;
        let part = m * b - a;
        assert(-(a * scale) <= TOO_LONG * (part * scale) <= a * scale) by (nonlinear_arith)
            requires
                -b <= 2 * part <= b,
                a >= TOP_BIT * b,
                0 < scale,
                TOO_LONG == 2 * TOP_BIT,
                TOP_BIT > 0,
        ;
    } else {
        lemma_quotient_error(2 * a, b, 2 * scale);
        assert(d.m * (b * (2 * scale)) == 2 * (d.m * (b * scale))) by (nonlinear_arith);
        assert((2 * a) * d.scale == 2 * (a * d.scale)) by (nonlinear_arith);
    }
}

pub proof fn lemma_cut_error(n: int, scale: int, unit: int)
    requires
        0 <= n,
        0 < scale,
        0 < unit,
        unit == 1 || n >= TOP_BIT * unit,
    ensures
        ({
            let d = cut(n, scale, unit);
            let off = d.m * (scale * unit) - n * d.scale;
            &&& 0 <= d.m
            &&& 0 < d.scale <= scale
            &&& -(n * d.scale) <= TOO_LONG * off <= n * d.scale
        }),
    decreases scale,
{
    let d = cut(n, scale, unit);
    let off = d.m * (scale * unit) - n * d.scale;
    if n < TOO_LONG * unit || scale <= 1 || scale % 2 != 0 {
        lemma_nearest(n, unit);
        let m = nearest(n, unit);
        let part = m * unit - n;
        assert(off == part * scale) by (nonlinear_arith)
            requires
                off == m * (scale * unit) - n * scale,
                part == m * unit - n,
        ;
        if unit == 1 {
            assert(part == 0);
            assert(n * scale >= 0) by (nonlinear_arith)
                requires
                    0 <= n,
                    0 < scale,
            ;
        } else {
            assert(-(n * scale) <= TOO_LONG * (part * scale) <= n * scale) by (nonlinear_arith)
                requires
                    -unit <= 2 * part <= unit,
                    n >= TOP_BIT * unit,
                    0 < scale,
                    TOO_LONG == 2 * TOP_BIT,
                    TOP_BIT > 0,
            ;
        }
    } else {
        assert(n >= TOP_BIT * (2 * unit)) by (nonlinear_arith)
            requires
                n >= TOO_LONG * unit,
                TOO_LONG == 2 * TOP_BIT,
        ;
        lemma_cut_error(n, scale / 2, 2 * unit);
        assert((scale / 2) * (2 * unit) == scale * unit) by (nonlinear_arith)
            requires
                scale == 2 * (scale / 2),
        ;
    }
}

pub proof fn lemma_real_product(x: int, y: int)
    by (nonlinear_arith)
    ensures
        (x * y) as real == (x as real) * (y as real),
{
}

/// Whether a number is a power of two.
pub open spec fn is_power(n: int) -> bool
    decreases n,
{
    n == 1 || (n > 1 && n % 2 == 0 && is_power(n / 2))
}

/// A quotient keeps its scale a power of two.
pub proof fn lemma_quotient_scale(a: int, b: int, scale: int)
    requires
        0 <= a,
        0 < b,
        is_power(scale),
    ensures
        is_power(quotient(a, b, scale).scale),
    decreases 2 * (TOP_BIT * b) - a,
{
    if !(a <= 0 || a >= TOP_BIT * b) {
        assert((2 * scale) / 2 == scale);
        lemma_quotient_scale(2 * a, b, 2 * scale);
    }
}

/// What is cut has no more than 53 bits, and a power of two as its scale.
pub proof fn lemma_cut_is_short(n: int, scale: int, unit: int)
    requires
        0 <= n < TOO_LONG * (scale * unit),
        0 < unit,
        is_power(scale),
    ensures
        cut(n, scale, unit).m <= TOO_LONG,
        is_power(cut(n, scale, unit).scale),
    decreases scale,
{
    if n < TOO_LONG * unit || scale <= 1 || scale % 2 != 0 {
        if scale == 1 {
            assert(scale * unit == unit) by (nonlinear_arith)
                requires
                    scale == 1,
            ;
        }
        assert(n < TOO_LONG * unit);
        lemma_nearest(n, unit);
        let m = nearest(n, unit);
        assert(m <= TOO_LONG) by (nonlinear_arith)
            requires
                2 * (m * unit - n) <= unit,
                n < TOO_LONG * unit,
                0 < unit,
        ;
    } else {
        assert((scale / 2) * (2 * unit) == scale * unit) by (nonlinear_arith)
            requires
                scale == 2 * (scale / 2),
        ;
        lemma_cut_is_short(n, scale / 2, 2 * unit);
    }
}

/// An integer bound on what an operation is off, as one on its share.
proof fn lemma_share(d: Double, a: int, c: int)
    requires
        0 <= a,
        0 < c,
        0 < d.scale,
        -(a * d.scale) <= TOO_LONG * (d.m * c - a * d.scale) <= a * d.scale,
    ensures
        near(value(d), a as real / c as real, 1real),
{
    let (m, s, ra, rc) = (d.m as real, d.scale as real, a as real, c as real);
    let l = TOO_LONG as real;
    let y = m / s;
    let x = ra / rc;
    let off = d.m * c - a * d.scale;
    lemma_real_product(d.m, c);
    lemma_real_product(a, d.scale);
    lemma_real_product(TOO_LONG as int, off);
    assert(y * s == m && x * rc == ra) by (nonlinear_arith)
        requires
            y == m / s,
            x == ra / rc,
            s > 0real,
            rc > 0real,
    ;
    assert(l * (y - x) <= x && l * (x - y) <= x) by (nonlinear_arith)
        requires
            y * s == m,
            x * rc == ra,
            s > 0real,
            rc > 0real,
            l * (m * rc - ra * s) <= ra * s,
            -(ra * s) <= l * (m * rc - ra * s),
    ;
    let e = 1real / l;
    assert(y - x <= 1real * e * x && x - y <= 1real * e * x) by (nonlinear_arith)
        requires
            l * (y - x) <= x,
            l * (x - y) <= x,
            l > 0real,
            e == 1real / l,
    ;
}

/// A double as it comes out of an operation.
pub open spec fn is_double(d: Double) -> bool {
    0 <= d.m && 0 < d.scale
}

/// Dividing two whole numbers is off by one operation.
pub proof fn lemma_quotient_near(a: int, b: int, scale: int)
    requires
        0 <= a,
        0 < b,
        0 < scale,
    ensures
        is_double(quotient(a, b, scale)),
        near(value(quotient(a, b, scale)), a as real / (b * scale) as real, 1real),
{
    let d = quotient(a, b, scale);
    assert(0 < b * scale) by (nonlinear_arith)
        requires
            0 < b,
            0 < scale,
    ;
    if a == 0 {
        lemma_nearest(0, b);
        assert(d.m == 0) by (nonlinear_arith)
            requires
                0 <= d.m,
                2 * (d.m * b - 0) <= b,
                0 < b,
        ;
        assert(d.m * (b * scale) == 0 && a * d.scale == 0);
    } else {
        lemma_quotient_error(a, b, scale);
    }
    lemma_share(d, a, b * scale);
}

/// Adding a whole number is off by one operation.
pub proof fn lemma_plus_near(whole: int, d: Double)
    requires
        0 <= whole,
        is_double(d),
    ensures
        is_double(plus(whole, d)),
        near(value(plus(whole, d)), whole as real + value(d), 1real),
{
    let n = whole * d.scale + d.m;
    assert(0 <= whole * d.scale) by (nonlinear_arith)
        requires
            0 <= whole,
            0 < d.scale,
    ;
    lemma_cut_error(n, d.scale, 1);
    lemma_share(plus(whole, d), n, d.scale);
    lemma_real_product(whole, d.scale);
    let (rn, rs, rm, rw) = (n as real, d.scale as real, d.m as real, whole as real);
    assert(rn / rs == rw + rm / rs) by (nonlinear_arith)
        requires
            rn == rw * rs + rm,
            rs > 0real,
    ;
}

/// Subtracting from one is off by one operation.
pub proof fn lemma_one_minus_near(d: Double)
    requires
        is_double(d),
        d.m <= d.scale,
    ensures
        is_double(one_minus(d)),
        near(value(one_minus(d)), 1real - value(d), 1real),
{
    let n = d.scale - d.m;
    lemma_cut_error(n, d.scale, 1);
    lemma_share(one_minus(d), n, d.scale);
    let (rn, rs, rm) = (n as real, d.scale as real, d.m as real);
    assert(rn / rs == 1real - rm / rs) by (nonlinear_arith)
        requires
            rn == rs - rm,
            rs > 0real,
    ;
}

/// Multiplying with a whole number is off by one operation.
pub proof fn lemma_times_near(whole: int, d: Double)
    requires
        0 <= whole,
        is_double(d),
    ensures
        is_double(times(whole, d)),
        near(value(times(whole, d)), whole as real * value(d), 1real),
{
    let n = whole * d.m;
    assert(0 <= n) by (nonlinear_arith)
        requires
            0 <= whole,
            0 <= d.m,
            n == whole * d.m,
    ;
    lemma_cut_error(n, d.scale, 1);
    lemma_share(times(whole, d), n, d.scale);
    lemma_real_product(whole, d.m);
    let (rn, rs, rm, rw) = (n as real, d.scale as real, d.m as real, whole as real);
    assert(rn / rs == rw * (rm / rs)) by (nonlinear_arith)
        requires
            rn == rw * rm,
            rs > 0real,
    ;
}

/// Dividing by a whole number is off by one operation.
pub proof fn lemma_divided_near(d: Double, whole: int)
    requires
        0 < whole,
        is_double(d),
    ensures
        is_double(divided(d, whole)),
        near(value(divided(d, whole)), value(d) / whole as real, 1real),
{
    lemma_quotient_near(d.m, whole, d.scale);
    lemma_real_product(whole, d.scale);
    let (rs, rm, rw) = (d.scale as real, d.m as real, whole as real);
    assert(rm / (rw * rs) == (rm / rs) / rw) by (nonlinear_arith)
        requires
            rs > 0real,
            rw > 0real,
    ;
}

/// Fifteen decimal places are right.
pub proof fn lemma_precision()
    ensures
        0real < precision(),
        1_000_000_000_000_000real * precision() <= 1real,
{
    let l = TOO_LONG as real;
    let e = precision();
    assert(0real < e && 1_000_000_000_000_000real * e <= 1real) by (nonlinear_arith)
        requires
            e == 1real / l,
            l >= 1_000_000_000_000_000real,
    ;
}

/// Errors add up: what is near a number that is near `x` is near `x`.
pub proof fn lemma_near_chain(x: real, y: real, z: real, first: real, second: real)
    requires
        0real <= x,
        0real <= first <= 10real,
        0real <= second <= 10real,
        near(y, x, first),
        near(z, y, second),
    ensures
        near(z, x, first + second + 1real),
{
    let e = precision();
    lemma_precision();
    let ex = e * x;
    assert(0real <= ex) by (nonlinear_arith)
        requires
            0real <= x,
            0real < e,
            ex == e * x,
    ;
    assert(first * e * x == first * ex) by (nonlinear_arith)
        requires
            ex == e * x,
    ;
    assert(y <= x + first * ex);
    assert(second * e * y <= second * ex + ex) by (nonlinear_arith)
        requires
            0real <= second <= 10real,
            0real <= first <= 10real,
            0real < e && 1_000_000_000_000_000real * e <= 1real,
            0real <= ex,
            ex == e * x,
            y <= x + first * ex,
    ;
    assert((first + second + 1real) * e * x == first * ex + second * ex + ex) by (nonlinear_arith)
        requires
            ex == e * x,
    ;
}

/// Being near is kept when both numbers are multiplied.
pub proof fn lemma_near_scaled(x: real, y: real, factor: real, steps: real)
    requires
        0real <= factor,
        near(y, x, steps),
    ensures
        near(factor * y, factor * x, steps),
{
    let e = precision();
    assert(factor * y - factor * x <= steps * e * (factor * x) && factor * x - factor * y <= steps
        * e * (factor * x)) by (nonlinear_arith)
        requires
            0real <= factor,
            y - x <= steps * e * x,
            x - y <= steps * e * x,
    ;
}

/// Cutting to a whole number goes down by less than one.
pub proof fn lemma_truncated(d: Double)
    requires
        is_double(d),
    ensures
        0 <= truncated(d),
        truncated(d) as real <= value(d) < truncated(d) as real + 1real,
{
    let t = truncated(d);
    assert(t * d.scale <= d.m < (t + 1) * d.scale && 0 <= t) by (nonlinear_arith)
        requires
            t == d.m / d.scale,
            0 <= d.m,
            0 < d.scale,
    ;
    lemma_real_product(t, d.scale);
    lemma_real_product(t + 1, d.scale);
    let (rs, rm, rt) = (d.scale as real, d.m as real, t as real);
    let v = rm / rs;
    assert(rt <= v < rt + 1real) by (nonlinear_arith)
        requires
            rt * rs <= rm,
            rm < (rt + 1real) * rs,
            rs > 0real,
            v == rm / rs,
    ;
}

/// The whole number nearest to a double is no more than half off.
pub proof fn lemma_nearest_double(d: Double)
    requires
        is_double(d),
    ensures
        -1real <= 2real * (nearest(d.m, d.scale) as real - value(d)) <= 1real,
{
    let n = nearest(d.m, d.scale);
    lemma_nearest(d.m, d.scale);
    lemma_real_product(n, d.scale);
    let (rs, rm, rn) = (d.scale as real, d.m as real, n as real);
    let v = rm / rs;
    assert(-1real <= 2real * (rn - v) <= 1real) by (nonlinear_arith)
        requires
            -rs <= 2real * (rn * rs - rm) <= rs,
            rs > 0real,
            v == rm / rs,
    ;
}

/// What a quotient comes to, given how often it is doubled.
pub proof fn lemma_quotient_is(a: int, b: int, scale: int, doublings: nat)
    requires
        0 < a,
        0 < b,
        TOP_BIT * b <= a * pow2(doublings),
        doublings > 0 ==> a * pow2((doublings - 1) as nat) < TOP_BIT * b,
    ensures
        quotient(a, b, scale) == (Double {
            m: nearest(a * pow2(doublings), b),
            scale: scale * pow2(doublings),
        }),
    decreases doublings,
{
    if doublings == 0 {
        vstd::arithmetic::power2::lemma2_to64();
        assert(a * 1 == a && scale * 1 == scale);
    } else {
        let less = (doublings - 1) as nat;
        let (p, q) = (pow2(doublings) as int, pow2(less) as int);
        lemma_pow2_unfold(doublings);
        lemma_pow2_pos(less);
        assert(a <= a * q) by (nonlinear_arith)
            requires
                0 < a,
                1 <= q,
        ;
        assert((2 * a) * q == a * p && (2 * scale) * q == scale * p) by (nonlinear_arith)
            requires
                p == 2 * q,
        ;
        if less > 0 {
            let r = pow2((less - 1) as nat) as int;
            lemma_pow2_unfold(less);
            assert((2 * a) * r == a * q) by (nonlinear_arith)
                requires
                    q == 2 * r,
            ;
        }
        lemma_quotient_is(2 * a, b, 2 * scale, less);
    }
}

/// What is left of a double when it is cut, given how often its unit is doubled.
pub proof fn lemma_cut_is(n: int, scale: int, unit: int, doublings: nat)
    requires
        0 < scale,
        0 < unit,
        n < TOO_LONG * (unit * pow2(doublings)),
        doublings > 0 ==> TOO_LONG * (unit * pow2((doublings - 1) as nat)) <= n,
    ensures
        cut(n, scale * pow2(doublings), unit) == (Double {
            m: nearest(n, unit * pow2(doublings)),
            scale,
        }),
    decreases doublings,
{
    if doublings == 0 {
        vstd::arithmetic::power2::lemma2_to64();
        assert(unit * 1 == unit && scale * 1 == scale);
    } else {
        let less = (doublings - 1) as nat;
        let (p, q) = (pow2(doublings) as int, pow2(less) as int);
        lemma_pow2_unfold(doublings);
        lemma_pow2_pos(less);
        assert(TOO_LONG * unit <= TOO_LONG * (unit * q)) by (nonlinear_arith)
            requires
                0 < unit,
                1 <= q,
        ;
        assert((2 * unit) * q == unit * p && scale * p == 2 * (scale * q) && scale * q > 0)
            by (nonlinear_arith)
            requires
                p == 2 * q,
                1 <= q,
                0 < scale,
        ;
        if less > 0 {
            let r = pow2((less - 1) as nat) as int;
            lemma_pow2_unfold(less);
            assert((2 * unit) * r == unit * q) by (nonlinear_arith)
                requires
                    q == 2 * r,
            ;
        }
        lemma_cut_is(n, scale, 2 * unit, less);
    }
}

/// Each operation rounds the exact result: the sum, the product and the
/// difference are taken over the scale of the double, the quotient over that
/// and the divisor.
pub proof fn law_operations_round_exact_results(whole: int, d: Double)
    ensures
        plus(whole, d) == cut(d.m + whole * d.scale, d.scale, 1),
        times(whole, d) == cut(d.m * whole, d.scale, 1),
        one_minus(d) == cut(d.scale - d.m, d.scale, 1),
        divided(d, whole) == quotient(d.m, whole, d.scale),
{
    assert(whole * d.m == d.m * whole) by (nonlinear_arith);
}

/// Rounding goes to the nearest whole number, a tie to an even one.
pub proof fn law_rounding_is_to_nearest(a: int, b: int)
    requires
        0 <= a,
        0 < b,
    ensures
        -b <= 2 * (nearest(a, b) * b - a) <= b,
        2 * (nearest(a, b) * b - a) == b || 2 * (nearest(a, b) * b - a) == -b ==> nearest(a, b) % 2
            == 0,
{
    lemma_nearest(a, b);
    let whole = a / b;
    assert(a == whole * b + a % b) by (nonlinear_arith)
        requires
            whole == a / b,
            0 < b,
    ;
    assert((whole + 1) * b == whole * b + b) by (nonlinear_arith);
}

/// A quotient has 53 bits: it is scaled by the power of two that brings it
/// there, and rounded.
pub proof fn law_quotient_has_53_bits(a: int, b: int, scale: int)
    requires
        0 < a < TOO_LONG * b,
        0 < b,
        0 < scale,
    ensures
        exists|k: nat|
            {
                let d = quotient(a, b, scale);
                &&& d.scale == scale * #[trigger] pow2(k)
                &&& TOP_BIT * b <= a * pow2(k) < TOO_LONG * b
                &&& d.m == nearest(a * pow2(k), b)
            },
    decreases 2 * (TOP_BIT * b) - a,
{
    vstd::arithmetic::power2::lemma2_to64();
    if a >= TOP_BIT * b {
        let k: nat = 0;
        assert(a * pow2(k) == a && scale * pow2(k) == scale);
    } else {
        law_quotient_has_53_bits(2 * a, b, 2 * scale);
        let d = quotient(a, b, scale);
        let k = choose|k: nat|
            {
                &&& d.scale == (2 * scale) * #[trigger] pow2(k)
                &&& TOP_BIT * b <= (2 * a) * pow2(k) < TOO_LONG * b
                &&& d.m == nearest((2 * a) * pow2(k), b)
            };
        let (p, q) = (pow2((k + 1) as nat) as int, pow2(k) as int);
        lemma_pow2_unfold((k + 1) as nat);
        assert((2 * a) * q == a * p && (2 * scale) * q == scale * p) by (nonlinear_arith)
            requires
                p == 2 * q,
        ;
        assert(d.scale == scale * pow2((k + 1) as nat));
    }
}

/// What is cut keeps its value but for rounding to 53 bits: if it has more, the
/// power of two by which it has more is taken out of both its parts, as far as
/// the scale goes.
pub proof fn law_cut_leaves_53_bits(n: int, scale: int)
    requires
        0 <= n < TOO_LONG * scale,
        is_power(scale),
    ensures
        exists|k: nat|
            {
                let d = cut(n, scale, 1);
                &&& scale == d.scale * #[trigger] pow2(k)
                &&& n < TOO_LONG * pow2(k)
                &&& k > 0 ==> TOP_BIT * pow2(k) <= n
                &&& d.m == nearest(n, pow2(k) as int)
            },
{
    vstd::arithmetic::power2::lemma2_to64();
    assert(scale * 1 == scale);
    lemma_cut_leaves(n, scale, 1, 0);
}

proof fn lemma_cut_leaves(n: int, scale: int, unit: int, taken: nat)
    requires
        0 <= n < TOO_LONG * (scale * unit),
        is_power(scale),
        unit == pow2(taken),
        taken > 0 ==> TOP_BIT * unit <= n,
    ensures
        exists|k: nat|
            {
                let d = cut(n, scale, unit);
                &&& scale * unit == d.scale * #[trigger] pow2(k)
                &&& n < TOO_LONG * pow2(k)
                &&& k > 0 ==> TOP_BIT * pow2(k) <= n
                &&& d.m == nearest(n, pow2(k) as int)
            },
    decreases scale,
{
    lemma_pow2_pos(taken);
    if n < TOO_LONG * unit || scale <= 1 || scale % 2 != 0 {
        if scale == 1 {
            assert(scale * unit == unit) by (nonlinear_arith)
                requires
                    scale == 1,
            ;
        }
        assert(scale * unit == cut(n, scale, unit).scale * pow2(taken));
    } else {
        let next = (taken + 1) as nat;
        lemma_pow2_unfold(next);
        assert((scale / 2) * (2 * unit) == scale * unit) by (nonlinear_arith)
            requires
                scale == 2 * (scale / 2),
        ;
        lemma_cut_leaves(n, scale / 2, 2 * unit, next);
    }
}

} // verus!
