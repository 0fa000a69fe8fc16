//! Proportional mapping of a position from one screen to another.
//!
//! A position along an edge is a ratio of two integers. Mapping it onto another screen gives the
//! pixel that double-precision arithmetic gives: the ratio rounded to 53 significant bits, times
//! the size rounded to 53 significant bits, cut down to a whole pixel. The whole computation is
//! done on integers.
use vstd::prelude::*;

verus! {

/// The least significand of 53 bits.
pub const SIGNIFICAND_MIN: u128 = 0x10_0000_0000_0000;

/// One more than the greatest significand of 53 bits.
pub const SIGNIFICAND_END: u128 = 0x20_0000_0000_0000;

/// A position between the two ends of a screen side: `num` of `den` parts from the start.
#[derive(Debug, Clone, Copy, PartialEq, Eq, Structural)]
pub struct Ratio {
    pub num: u32,
    pub den: u32,
}

impl Ratio {
    /// The ratio lies between zero and one.
    pub open spec fn valid(self) -> bool {
        0 < self.den && self.num <= self.den
    }

    /// The ratio of `offset` to `extent`, held between zero and one.
    pub open spec fn spec_clamped(offset: int, extent: int) -> Ratio {
        Ratio {
            num: clamp(offset * sign(extent), 0, abs(extent)) as u32,
            den: abs(extent) as u32,
        }
    }

    /// The ratio of `offset` to `extent`, held between zero and one.
    pub fn clamped(offset: i64, extent: i32) -> (r: Ratio)
        requires
            extent != 0,
            -0x1_0000_0000 <= offset <= 0x1_0000_0000,
        ensures
            r.valid(),
            r == Ratio::spec_clamped(offset as int, extent as int),
    {
        let (o, e): (i64, i64) = if extent < 0 {
            (-offset, -(extent as i64))
        } else {
            (offset, extent as i64)
        };
        let n: i64 = if o < 0 {
            0
        } else if o > e {
            e
        } else {
            o
        };
        Ratio { num: n as u32, den: e as u32 }
    }
}

pub open spec fn abs(v: int) -> int {
    if v < 0 {
        -v
    } else {
        v
    }
}

pub open spec fn sign(v: int) -> int {
    if v < 0 {
        -1
    } else if v == 0 {
        0
    } else {
        1
    }
}

/// `v` held between `lo` and `hi`.
pub open spec fn clamp(v: int, lo: int, hi: int) -> int {
    if v < lo {
        lo
    } else if v > hi {
        hi
    } else {
        v
    }
}

/// The integer nearest to `p / q`; of two equally near, the even one.
pub open spec fn nearest_even(p: nat, q: nat) -> nat
    recommends
        q > 0,
{
    let f = p / q;
    let r = p % q;
    if 2 * r < q || (2 * r == q && f % 2 == 0) {
        f
    } else {
        f + 1
    }
}

/// The least power of two by which `v` must be multiplied to reach `floor`.
pub open spec fn power_reaching(v: nat, floor: nat) -> nat
    decreases
        if v >= floor {
            0
        } else {
            floor - v
        },
{
    if v == 0 || v >= floor {
        1
    } else {
        2 * power_reaching(2 * v, floor)
    }
}

/// `num / den` times `size` in double-precision arithmetic, cut down to an integer.
pub open spec fn scaled(num: nat, den: nat, size: nat) -> nat {
    if num == 0 || size == 0 {
        0
    } else {
        let unit = power_reaching(num, SIGNIFICAND_MIN as nat * den);
        let product = nearest_even(num * unit, den) * size;
        let step = power_reaching(SIGNIFICAND_END as nat, product + 1);
        (nearest_even(product, step) * step) / unit
    }
}

/// The integer nearest to `p / q`; of two equally near, the even one.
fn round_quotient(p: u128, q: u128) -> (r: u128)
    requires
        0 < q <= 0x1_0000_0000_0000_0000,
        p <= 0x1000_0000_0000_0000_0000_0000_0000,
    ensures
        r == nearest_even(p as nat, q as nat),
{
    let f: u128 = p / q;
    let rest: u128 = p % q;
    proof {
        vstd::arithmetic::div_mod::lemma_mod_bound(p as int, q as int);
        vstd::arithmetic::div_mod::lemma_div_is_ordered_by_denominator(p as int, 1, q as int);
        vstd::arithmetic::div_mod::lemma_div_basics(p as int);
    }
    if 2 * rest < q || (2 * rest == q && f % 2 == 0) {
        f
    } else {
        f + 1
    }
}

/// The least power of two by which `v` must be multiplied to reach `floor`.
fn least_power(v: u128, floor: u128) -> (w: u128)
    requires
        0 < v,
        floor <= 0x1000_0000_0000_0000_0000_0000_0000,
    ensures
        w == power_reaching(v as nat, floor as nat),
        w >= 1,
        w == 1 || v * w < 2 * floor,
        v * w >= floor,
{
    let mut w: u128 = 1;
    let mut c: u128 = v;
    while c < floor
        invariant
            0 < v <= c,
            1 <= w <= c,
            c == v * w,
            w == 1 || c < 2 * floor,
            floor <= 0x1000_0000_0000_0000_0000_0000_0000,
            w * power_reaching(c as nat, floor as nat) == power_reaching(v as nat, floor as nat),
        decreases
            if c >= floor {
                0
            } else {
                floor - c
            },
    {
        proof {
            let pr = power_reaching(2 * (c as nat), floor as nat);
            assert(power_reaching(c as nat, floor as nat) == 2 * pr);
            assert(w * (2 * pr) == (2 * w) * pr) by (nonlinear_arith);
            assert(2 * (v * w) == v * (2 * w)) by (nonlinear_arith);
        }
        c = 2 * c;
        w = 2 * w;
    }
    assert(w * 1 == w) by (nonlinear_arith);
    w
}

impl Ratio {
    /// This part of `size`.
    pub fn scale(self, size: u32) -> (r: u32)
        requires
            self.valid(),
        ensures
            r == scaled(self.num as nat, self.den as nat, size as nat),
            r <= size,
    {
        if self.num == 0 || size == 0 {
            return 0;
        }
        let num: u128 = self.num as u128;
        let den: u128 = self.den as u128;
        proof {
            lemma_intermediate(self.num as nat, self.den as nat, size as nat);
            lemma_proportional(self.num as nat, self.den as nat, size as nat);
        }
        let unit: u128 = least_power(num, SIGNIFICAND_MIN * den);
        let significand: u128 = round_quotient(num * unit, den);
        let product: u128 = significand * (size as u128);
        let step: u128 = least_power(SIGNIFICAND_END, product + 1);
        proof {
            lemma_nearest(product as nat, step as nat);
        }
        let value: u128 = round_quotient(product, step) * step;
        let r: u128 = value / unit;
        r as u32
    }
}

/// The integer nearest to a quotient is at most half away from it.
proof fn lemma_nearest(p: nat, q: nat)
    requires
        q > 0,
    ensures
        2 * (nearest_even(p, q) * q) <= 2 * p + q,
        2 * p <= 2 * (nearest_even(p, q) * q) + q,
{
    let f = p / q;
    let r = p % q;
    vstd::arithmetic::div_mod::lemma_fundamental_div_mod(p as int, q as int);
    assert((f + 1) * q == f * q + q) by (nonlinear_arith);
    assert(q * f == f * q) by (nonlinear_arith);
}

/// `power_reaching` reaches its floor, and half of it does not.
proof fn lemma_power(v: nat, floor: nat)
    requires
        v > 0,
    ensures
        power_reaching(v, floor) >= 1,
        v * power_reaching(v, floor) >= floor,
        power_reaching(v, floor) == 1 || v * power_reaching(v, floor) < 2 * floor,
    decreases
        if v >= floor {
            0
        } else {
            floor - v
        },
{
    if v < floor {
        lemma_power(2 * v, floor);
        let w = power_reaching(2 * v, floor);
        assert((2 * v) * w == v * (2 * w)) by (nonlinear_arith);
        if w == 1 {
            assert(v * (2 * w) == 2 * v) by (nonlinear_arith)
                requires
                    w == 1,
            ;
        }
    } else {
        assert(v * 1 == v) by (nonlinear_arith);
    }
}

/// The sizes of the intermediate values of `scaled`.
proof fn lemma_intermediate(num: nat, den: nat, size: nat)
    requires
        0 < num <= den < 0x1_0000_0000,
        0 < size < 0x1_0000_0000,
    ensures
        ({
            let s = SIGNIFICAND_MIN as nat;
            let unit = power_reaching(num, s * den);
            let significand = nearest_even(num * unit, den);
            let product = significand * size;
            let step = power_reaching(SIGNIFICAND_END as nat, product + 1);
            &&& s <= unit
            &&& s * den <= num * unit < 2 * s * den
            &&& significand <= 2 * s
            &&& product <= 0x20_0000_0000_0000_0000_0000
            &&& 1 <= step <= 0x2_0000_0000
        }),
{
    let s = SIGNIFICAND_MIN as nat;
    let unit = power_reaching(num, s * den);
    let significand = nearest_even(num * unit, den);
    let product = significand * size;
    let step = power_reaching(SIGNIFICAND_END as nat, product + 1);
    lemma_power(num, s * den);
    lemma_nearest(num * unit, den);
    if unit == 1 {
        assert(num * unit == num) by (nonlinear_arith)
            requires
                unit == 1,
        ;
    }
    assert(s <= unit) by (nonlinear_arith)
        requires
            num * unit >= s * den,
            0 < num <= den,
    ;
    assert(significand <= 2 * s) by (nonlinear_arith)
        requires
            2 * (significand * den) <= 2 * (num * unit) + den,
            num * unit < 2 * (s * den),
            den > 0,
    ;
    assert(product <= 2 * s * 0x1_0000_0000) by (nonlinear_arith)
        requires
            product == significand * size,
            significand <= 2 * s,
            size < 0x1_0000_0000,
    ;
    lemma_power(SIGNIFICAND_END as nat, product + 1);
}

/// A position is mapped in proportion: the pixel found is the exact proportion of the size cut
/// down to a whole pixel, up to an error below two millionths of a pixel. It lies within the size.
pub proof fn lemma_proportional(num: nat, den: nat, size: nat)
    requires
        0 < den < 0x1_0000_0000,
        num <= den,
        size < 0x1_0000_0000,
    ensures
        scaled(num, den, size) * den * 0x8_0000 <= num * size * 0x8_0000 + den,
        num * size * 0x8_0000 < (scaled(num, den, size) + 1) * den * 0x8_0000 + den,
        scaled(num, den, size) <= size,
{
    let r = scaled(num, den, size);
    if num == 0 || size == 0 {
        assert(num * size == 0) by (nonlinear_arith)
            requires
                num == 0 || size == 0,
        ;
        assert(r * den * 0x8_0000 == 0) by (nonlinear_arith)
            requires
                r == 0,
        ;
        assert((r + 1) * den * 0x8_0000 > 0) by (nonlinear_arith)
            requires
                r == 0,
                den > 0,
        ;
        return ;
    }
    lemma_intermediate(num, den, size);
    let unit = power_reaching(num, SIGNIFICAND_MIN as nat * den);
    let significand = nearest_even(num * unit, den);
    let product = significand * size;
    let step = power_reaching(SIGNIFICAND_END as nat, product + 1);
    let value = nearest_even(product, step) * step;
    lemma_nearest(num * unit, den);
    lemma_nearest(product, step);
    vstd::arithmetic::div_mod::lemma_fundamental_div_mod(value as int, unit as int);
    vstd::arithmetic::div_mod::lemma_mod_bound(value as int, unit as int);
    assert(r * unit <= value < (r + 1) * unit) by (nonlinear_arith)
        requires
            value == unit * r + value % unit,
            0 <= value % unit < unit,
    ;
    let slack = den * (size + step);
    let exact = num * size * unit;
    assert(2 * (value * den) <= 2 * exact + slack) by (nonlinear_arith)
        requires
            2 * value <= 2 * product + step,
            product == significand * size,
            2 * (significand * den) <= 2 * (num * unit) + den,
            slack == den * (size + step),
            exact == num * size * unit,
    ;
    assert(2 * exact <= 2 * (value * den) + slack) by (nonlinear_arith)
        requires
            2 * product <= 2 * value + step,
            product == significand * size,
            2 * (num * unit) <= 2 * (significand * den) + den,
            slack == den * (size + step),
            exact == num * size * unit,
    ;
    assert(slack * 0x8_0000 <= 2 * (den * unit)) by (nonlinear_arith)
        requires
            slack == den * (size + step),
            size + step <= 0x3_0000_0000,
            unit >= 0x10_0000_0000_0000,
    ;
    assert(r * unit * den <= value * den) by (nonlinear_arith)
        requires
            r * unit <= value,
    ;
    assert((r * den * 0x8_0000) * unit <= (num * size * 0x8_0000 + den) * unit)
        by (nonlinear_arith)
        requires
            r * unit * den <= value * den,
            2 * (value * den) <= 2 * exact + slack,
            exact == num * size * unit,
            slack * 0x8_0000 <= 2 * (den * unit),
    ;
    assert(r * den * 0x8_0000 <= num * size * 0x8_0000 + den) by (nonlinear_arith)
        requires
            (r * den * 0x8_0000) * unit <= (num * size * 0x8_0000 + den) * unit,
            unit > 0,
    ;
    assert(value * den < (r + 1) * unit * den) by (nonlinear_arith)
        requires
            value < (r + 1) * unit,
            den > 0,
    ;
    assert((num * size * 0x8_0000) * unit < ((r + 1) * den * 0x8_0000 + den) * unit)
        by (nonlinear_arith)
        requires
            value * den < (r + 1) * unit * den,
            2 * exact <= 2 * (value * den) + slack,
            exact == num * size * unit,
            slack * 0x8_0000 <= 2 * (den * unit),
    ;
    assert(num * size * 0x8_0000 < (r + 1) * den * 0x8_0000 + den) by (nonlinear_arith)
        requires
            (num * size * 0x8_0000) * unit < ((r + 1) * den * 0x8_0000 + den) * unit,
            unit > 0,
    ;
    assert(r <= size) by (nonlinear_arith)
        requires
            r * den * 0x8_0000 <= num * size * 0x8_0000 + den,
            num <= den,
            den > 0,
    ;
}

/// `n` is the integer nearest to `p / q`, and of two equally near ones the even one.
pub open spec fn is_nearest(n: nat, p: nat, q: nat) -> bool {
    &&& -(q as int) <= 2 * (n * q - p) <= q
    &&& 2 * (n * q - p) == q || 2 * (n * q - p) == -(q as int) ==> n % 2 == 0
}

proof fn lemma_is_nearest(p: nat, q: nat)
    requires
        q > 0,
    ensures
        is_nearest(nearest_even(p, q), p, q),
{
    let f = p / q;
    let r = p % q;
    vstd::arithmetic::div_mod::lemma_fundamental_div_mod(p as int, q as int);
    assert((f + 1) * q == f * q + q) by (nonlinear_arith);
    assert(q * f == f * q) by (nonlinear_arith);
}

proof fn lemma_power_of_two(v: nat, floor: nat) -> (e: nat)
    requires
        v > 0,
    ensures
        power_reaching(v, floor) == vstd::arithmetic::power2::pow2(e),
    decreases
        if v >= floor {
            0
        } else {
            floor - v
        },
{
    if v >= floor {
        vstd::arithmetic::power2::lemma2_to64();
        0
    } else {
        let e = lemma_power_of_two(2 * v, floor);
        vstd::arithmetic::power2::lemma_pow2_unfold(e + 1);
        e + 1
    }
}

/// A part of a size is what double-precision arithmetic gives. The ratio is rounded to a significand
/// of 53 bits over a power of two, the nearest there is. The product with the size is rounded to a
/// multiple of the least power of two that leaves it 53 bits, the nearest there is. Of that the whole
/// part is taken.
pub proof fn lemma_double_precision(num: nat, den: nat, size: nat) -> (w: (nat, nat, nat, nat))
    requires
        0 < num <= den < 0x1_0000_0000,
        0 < size < 0x1_0000_0000,
    ensures
        ({
            let (e, m, d, k) = w;
            let unit = vstd::arithmetic::power2::pow2(e);
            let step = vstd::arithmetic::power2::pow2(d);
            &&& 0x10_0000_0000_0000 * den <= num * unit < 0x20_0000_0000_0000 * den
            &&& is_nearest(m, num * unit, den)
            &&& 0x20_0000_0000_0000 * step > m * size
            &&& step == 1 || 0x20_0000_0000_0000 * step <= 2 * (m * size) + 1
            &&& is_nearest(k, m * size, step)
            &&& scaled(num, den, size) * unit <= k * step < (scaled(num, den, size) + 1) * unit
        }),
{
    lemma_intermediate(num, den, size);
    let floor = SIGNIFICAND_MIN as nat * den;
    let unit = power_reaching(num, floor);
    let e = lemma_power_of_two(num, floor);
    let m = nearest_even(num * unit, den);
    let product = m * size;
    let step = power_reaching(SIGNIFICAND_END as nat, product + 1);
    let d = lemma_power_of_two(SIGNIFICAND_END as nat, product + 1);
    let k = nearest_even(product, step);
    lemma_is_nearest(num * unit, den);
    lemma_is_nearest(product, step);
    lemma_power(SIGNIFICAND_END as nat, product + 1);
    let value = k * step;
    let r = scaled(num, den, size);
    vstd::arithmetic::div_mod::lemma_fundamental_div_mod(value as int, unit as int);
    vstd::arithmetic::div_mod::lemma_mod_bound(value as int, unit as int);
    assert(r * unit <= value < (r + 1) * unit) by (nonlinear_arith)
        requires
            value == unit * r + value % unit,
            0 <= value % unit < unit,
    ;
    (e, m, d, k)
}

/// None of a side is the start of any other, and a size of none has no pixels.
pub proof fn lemma_ends(num: nat, den: nat, size: nat)
    ensures
        scaled(0, den, size) == 0,
        scaled(num, den, 0) == 0,
{
}

/// A ratio lies between zero and one.
pub proof fn lemma_valid(r: Ratio)
    ensures
        r.valid() <==> r.den != 0 && 0 <= r.den - r.num,
{
}

/// A ratio is that of the offset to the extent, zero before the start and one beyond the end, and
/// counts backward along an extent that does.
pub proof fn lemma_clamped(offset: int, extent: int)
    requires
        0 < extent <= 0x8000_0000,
    ensures
        Ratio::spec_clamped(offset, extent).den == extent,
        0 <= offset <= extent ==> Ratio::spec_clamped(offset, extent).num == offset,
        offset < 0 ==> Ratio::spec_clamped(offset, extent).num == 0,
        offset > extent ==> Ratio::spec_clamped(offset, extent).num == extent,
        Ratio::spec_clamped(-offset, -extent) == Ratio::spec_clamped(offset, extent),
{
    assert(offset * 1 == offset && (-offset) * (-1) == offset) by (nonlinear_arith);
}

} // verus!
