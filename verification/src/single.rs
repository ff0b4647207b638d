//! Single precision: nonnegative binary numbers of 24 significant bits, as the stat and damage
//! formulas use them. Every operation gives the number nearest to the exact result, and of two
//! equally near ones that with the even last bit.

use vstd::prelude::*;
use vstd::arithmetic::power2::*;

verus! {

/// The number `mantissa * 2^exponent`.
#[derive(Clone, Copy)]
pub struct Single {
    pub mantissa: u64,
    pub exponent: i32,
}

/// `2^k`, or one where `k` is negative.
pub open spec fn scale(k: int) -> nat {
    if k >= 0 {
        pow2(k as nat)
    } else {
        1
    }
}

/// Whether `n / d / 2^k` lies from `2^23` up to, but not at, `2^24`.
pub open spec fn in_binade(n: nat, d: nat, k: int) -> bool {
    0x80_0000 * (d * scale(k)) <= n * scale(-k) < 0x100_0000 * (d * scale(k))
}

/// The exponent by which `n / d` is brought to 24 bits before the point.
pub open spec fn binade(n: nat, d: nat) -> int {
    choose|k: int| in_binade(n, d, k)
}

/// `n / d` to the nearest integer, a half to the even one.
pub open spec fn half_even(n: nat, d: nat) -> nat {
    let q = n / d;
    let r = n % d;
    if 2 * r < d || (2 * r == d && q % 2 == 0) {
        q
    } else {
        q + 1
    }
}

/// The single-precision number nearest to `n / d * 2^s`.
pub open spec fn nearest(n: nat, d: nat, s: int) -> Single {
    if n == 0 {
        Single { mantissa: 0, exponent: 0 }
    } else {
        let k = binade(n, d);
        let q = half_even(n * scale(-k), d * scale(k));
        if q == 0x100_0000 {
            Single { mantissa: 0x80_0000, exponent: (s + k + 1) as i32 }
        } else {
            Single { mantissa: q as u64, exponent: (s + k) as i32 }
        }
    }
}

proof fn lemma_binade(n: nat, d: nat, k: int)
    requires
        d > 0,
        in_binade(n, d, k),
    ensures
        binade(n, d) == k,
{
    let j = binade(n, d);
    assert(in_binade(n, d, j));
    lemma_binade_order(n, d, j, k);
    lemma_binade_order(n, d, k, j);
}

/// Where `n / d` is less than `2^(24 + j)` and at least `2^(23 + k)`, `k` is at most `j`.
proof fn lemma_binade_order(n: nat, d: nat, j: int, k: int)
    requires
        d > 0,
        n * scale(-j) < 0x100_0000 * (d * scale(j)),
        0x80_0000 * (d * scale(k)) <= n * scale(-k),
    ensures
        k <= j,
{
    if j < k {
        let a = scale(j);
        let b = scale(-j);
        let u = scale(k);
        let v = scale(-k);
        // 2^k * 2^-j is at least twice 2^j * 2^-k
        assert(u * b >= 2 * (a * v) && v > 0) by {
            lemma_scales(j, k);
        }
        assert(0x80_0000 * (d * u) * b <= n * v * b) by (nonlinear_arith)
            requires
                0x80_0000 * (d * u) <= n * v,
        ;
        assert(n * b * v < 0x100_0000 * (d * a) * v) by (nonlinear_arith)
            requires
                n * b < 0x100_0000 * (d * a),
                v > 0,
        ;
        assert(n * v * b == n * b * v) by (nonlinear_arith);
        assert(0x80_0000 * (d * u) * b == 0x80_0000 * (d * (u * b))) by (nonlinear_arith);
        assert(0x100_0000 * (d * a) * v == 0x80_0000 * (d * (2 * (a * v)))) by (nonlinear_arith);
        assert(d * (u * b) >= d * (2 * (a * v))) by (nonlinear_arith)
            requires
                u * b >= 2 * (a * v),
        ;
    }
}

proof fn lemma_scales(j: int, k: int)
    requires
        j < k,
    ensures
        scale(k) * scale(-j) >= 2 * (scale(j) * scale(-k)),
        scale(-k) > 0,
{
    lemma2_to64();
    if k > 0 {
        lemma_pow2_pos(k as nat);
        if j >= 0 {
            // 2^k >= 2 * 2^j
            lemma_pow2_adds(1, (k - 1) as nat);
            if j < k - 1 {
                lemma_pow2_strictly_increases(j as nat, (k - 1) as nat);
            }
        } else {
            lemma_pow2_pos((-j) as nat);
            lemma_pow2_strictly_increases(0, k as nat);
            let p = pow2(k as nat);
            let q = pow2((-j) as nat);
            assert(p * q >= 2) by (nonlinear_arith)
                requires
                    p >= 2,
                    q >= 1,
            ;
        }
    } else {
        lemma_pow2_pos((-k) as nat);
        lemma_pow2_adds(1, (-j - 1) as nat);
        if -k < -j - 1 {
            lemma_pow2_strictly_increases((-k) as nat, (-j - 1) as nat);
        }
    }
}

impl Single {
    /// Zero, or 24 significant bits and an exponent in the range of the normal numbers.
    pub open spec fn wf(self) -> bool {
        ||| self.mantissa == 0 && self.exponent == 0
        ||| 0x80_0000 <= self.mantissa < 0x100_0000 && -149 <= self.exponent <= 104
    }

    /// A number above zero whose exponent lies from `lo` to `hi`.
    pub open spec fn within(self, lo: int, hi: int) -> bool {
        0x80_0000 <= self.mantissa < 0x100_0000 && lo <= self.exponent <= hi
    }

    /// The integer part.
    pub open spec fn floor(self) -> nat {
        (self.mantissa * scale(self.exponent as int)) as nat / scale(-self.exponent)
    }

    /// The nearest integer, a half to the greater one.
    pub open spec fn round(self) -> nat {
        (2 * (self.mantissa * scale(self.exponent as int)) + scale(-self.exponent)) as nat / (2
            * scale(-self.exponent))
    }
}

/// `n` in single precision.
pub open spec fn of_int(n: int) -> Single {
    nearest(n as nat, 1, 0)
}

/// The decimal `n / d` in single precision.
pub open spec fn ratio(n: int, d: int) -> Single {
    nearest(n as nat, d as nat, 0)
}

pub open spec fn times(x: Single, y: Single) -> Single {
    nearest((x.mantissa * y.mantissa) as nat, 1, x.exponent + y.exponent)
}

pub open spec fn over(x: Single, y: Single) -> Single {
    nearest(x.mantissa as nat, y.mantissa as nat, x.exponent - y.exponent)
}

pub open spec fn plus(x: Single, y: Single) -> Single {
    let least = if x.exponent <= y.exponent {
        x.exponent as int
    } else {
        y.exponent as int
    };
    nearest(
        (x.mantissa * scale(x.exponent - least) + y.mantissa * scale(
            y.exponent - least,
        )) as nat,
        1,
        least,
    )
}

/// `x`, or one where `x` is less.
pub open spec fn at_least_one(x: Single) -> Single {
    if x.floor() >= 1 {
        x
    } else {
        of_int(1)
    }
}

/// `x`, or one where `x` is greater.
pub open spec fn at_most_one(x: Single) -> Single {
    if x.floor() >= 1 {
        of_int(1)
    } else {
        x
    }
}

/// `n` as a 32-bit signed integer, the greatest one where `n` is beyond it.
pub open spec fn capped(n: nat) -> int {
    if n > i32::MAX {
        i32::MAX as int
    } else {
        n as int
    }
}

proof fn lemma_times_scale(n: nat, k: int, p: nat)
    requires
        scale(k) == p,
    ensures
        n * scale(k) == n * p,
{
}

/// The number nearest to `n / d * 2^s`, found by halving or doubling `n / d` until it has 24 bits
/// before the point.
fn round_ratio(n: u64, d: u64, s: i32) -> (r: Single)
    requires
        d > 0,
        -1000 <= s <= 1000,
    ensures
        r == nearest(n as nat, d as nat, s as int),
        n > 0 ==> in_binade(n as nat, d as nat, binade(n as nat, d as nat)) && r.within(
            s + binade(n as nat, d as nat),
            s + binade(n as nat, d as nat) + 1,
        ),
{
    if n == 0 {
        return Single { mantissa: 0, exponent: 0 };
    }
    let mut x: u128 = n as u128;
    let mut y: u128 = d as u128;
    let mut k: i32 = 0;
    proof {
        lemma2_to64();
        lemma2_to64_rest();
        assert(d * 1 == d && n * 1 == n);
    }
    while x >= 0x100_0000 * y
        invariant
            x == n,
            n > 0,
            d > 0,
            0 <= k <= 64,
            1 <= y,
            y == d * pow2(k as nat),
            y <= 0x1_0000_0000_0000_0000,
            k > 0 ==> x >= 0x80_0000 * y,
            k == 0 ==> y == d,
        decreases x - y,
    {
        proof {
            lemma2_to64();
            lemma2_to64_rest();
            lemma_pow2_adds(k as nat, 1);
            let p = pow2(k as nat);
            lemma_pow2_pos(k as nat);
            assert(d * (p * 2) == 2 * (d * p)) by (nonlinear_arith);
            if k == 64 {
                assert(d * p >= p) by (nonlinear_arith)
                    requires
                        d >= 1,
                ;
            }
        }
        y = y * 2;
        k = k + 1;
    }
    if k == 0 {
        while x < 0x80_0000 * y
            invariant
                y == d,
                n > 0,
                d > 0,
                -88 <= k <= 0,
                1 <= x,
                x == n * pow2((-k) as nat),
                x < 0x100_0000 * y,
            decreases 0x100_0000 * y - x,
        {
            proof {
                lemma2_to64();
                lemma2_to64_rest();
                lemma_pow2_adds((-k) as nat, 1);
                let p = pow2((-k) as nat);
                lemma_pow2_pos((-k) as nat);
                assert(n * (p * 2) == 2 * (n * p)) by (nonlinear_arith);
                assert(x >= p) by (nonlinear_arith)
                    requires
                        n >= 1,
                        x == n * p,
                ;
                if k == -88 {
                    lemma_pow2_adds(64, 24);
                }
            }
            x = x * 2;
            k = k - 1;
        }
    }
    assert(in_binade(n as nat, d as nat, k as int));
    proof {
        lemma_binade(n as nat, d as nat, k as int);
    }
    let q: u128 = x / y;
    let r: u128 = x % y;
    assert(0x80_0000 <= q < 0x100_0000) by (nonlinear_arith)
        requires
            q == x / y,
            y > 0,
            0x80_0000 * y <= x < 0x100_0000 * y,
    ;
    let m: u128 = if 2 * r < y || (2 * r == y && q % 2 == 0) {
        q
    } else {
        q + 1
    };
    if m == 0x100_0000 {
        Single { mantissa: 0x80_0000, exponent: s + k + 1 }
    } else {
        Single { mantissa: m as u64, exponent: s + k }
    }
}

/// `n` in single precision.
pub fn whole(n: i32) -> (r: Single)
    requires
        n >= 0,
    ensures
        r == of_int(n as int),
        n > 0 ==> r.within(-23, 8),
        n == 0 ==> r.mantissa == 0,
        r.wf(),
{
    let r: Single = round_ratio(n as u64, 1, 0);
    proof {
        if n > 0 {
            let m = n as nat;
            lemma2_to64();
            lemma2_to64_rest();
            lemma_times_scale(m, 23, 0x80_0000);
            lemma_times_scale(m, -7, 1);
            lemma_binade_order(m, 1, 7, binade(m, 1));
            lemma_binade_order(m, 1, binade(m, 1), -23);
        }
    }
    r
}

/// The decimal `n / d` in single precision.
pub fn decimal(n: u64, d: u64) -> (r: Single)
    requires
        0 < n < 128 * d,
        d <= 64 * n,
        d <= 1000,
    ensures
        r == ratio(n as int, d as int),
        r.within(-29, -16),
        n < 8 * d ==> r.within(-29, -20),
        d <= n < 2 * d ==> r.within(-23, -22),
        8 * d <= n ==> r.within(-20, -16),
        r.wf(),
{
    let r: Single = round_ratio(n, d, 0);
    proof {
        let k = binade(n as nat, d as nat);
        lemma2_to64();
        lemma2_to64_rest();
        lemma_decimal_range(n as nat, d as nat, k, -17, 0x2_0000);
        lemma_decimal_range(n as nat, d as nat, k, -29, 0x2000_0000);
        lemma_decimal_range(n as nat, d as nat, k, -21, 0x20_0000);
        lemma_decimal_range(n as nat, d as nat, k, -23, 0x80_0000);
        lemma_decimal_range(n as nat, d as nat, k, -20, 0x10_0000);
    }
    r
}

proof fn lemma_decimal_range(n: nat, d: nat, k: int, b: int, p: nat)
    requires
        d > 0,
        b < 0,
        in_binade(n, d, k),
        p == pow2((-b) as nat),
    ensures
        n * p < 0x100_0000 * d ==> k <= b,
        0x80_0000 * d <= n * p ==> b <= k,
{
    lemma_times_scale(n, -b, p);
    lemma_times_scale(d, b, 1);
    if n * p < 0x100_0000 * d {
        lemma_binade_order(n, d, b, k);
    }
    if 0x80_0000 * d <= n * p {
        lemma_binade_order(n, d, k, b);
    }
}

/// The product.
pub fn product(x: Single, y: Single) -> (r: Single)
    requires
        x.wf(),
        y.wf(),
        x.mantissa > 0 && y.mantissa > 0 ==> -149 <= x.exponent + y.exponent + 23 && x.exponent
            + y.exponent + 25 <= 104,
    ensures
        r == times(x, y),
        x.mantissa > 0 && y.mantissa > 0 ==> r.within(
            x.exponent + y.exponent + 23,
            x.exponent + y.exponent + 25,
        ),
        x.mantissa == 0 || y.mantissa == 0 ==> r.mantissa == 0,
        r.wf(),
{
    let a: u64 = x.mantissa;
    let b: u64 = y.mantissa;
    assert(a * b <= 0x100_0000 * 0x100_0000) by (nonlinear_arith)
        requires
            a <= 0x100_0000,
            b <= 0x100_0000,
    ;
    let n: u64 = a * b;
    let r: Single = round_ratio(n, 1, x.exponent + y.exponent);
    proof {
        if a > 0 && b > 0 {
            assert(0x80_0000 * 0x80_0000 <= n < 0x100_0000 * 0x100_0000) by (nonlinear_arith)
                requires
                    n == a * b,
                    0x80_0000 <= a < 0x100_0000,
                    0x80_0000 <= b < 0x100_0000,
            ;
            let k = binade(n as nat, 1);
            lemma2_to64();
            lemma2_to64_rest();
            lemma_times_scale(n as nat, -24, 1);
            lemma_times_scale(n as nat, -23, 1);
            lemma_binade_order(n as nat, 1, 24, k);
            lemma_binade_order(n as nat, 1, k, 23);
        } else {
            assert(n == 0) by (nonlinear_arith)
                requires
                    n == a * b,
                    a == 0 || b == 0,
            ;
        }
    }
    r
}

/// The quotient.
pub fn quotient(x: Single, y: Single) -> (r: Single)
    requires
        x.wf(),
        y.wf(),
        y.mantissa > 0,
        x.mantissa > 0 ==> -149 <= x.exponent - y.exponent - 24 && x.exponent - y.exponent - 22
            <= 104,
    ensures
        r == over(x, y),
        x.mantissa > 0 ==> r.within(x.exponent - y.exponent - 24, x.exponent - y.exponent - 22),
        x.mantissa == 0 ==> r.mantissa == 0,
        r.wf(),
{
    let a: u64 = x.mantissa;
    let b: u64 = y.mantissa;
    let r: Single = round_ratio(a, b, x.exponent - y.exponent);
    proof {
        if a > 0 {
            let k = binade(a as nat, b as nat);
            lemma2_to64();
            lemma2_to64_rest();
            lemma_times_scale(a as nat, 23, 0x80_0000);
            lemma_times_scale(b as nat, -23, 1);
            lemma_times_scale(a as nat, 24, 0x100_0000);
            lemma_times_scale(b as nat, -24, 1);
            lemma_binade_order(a as nat, b as nat, -23, k);
            lemma_binade_order(a as nat, b as nat, k, -24);
        }
    }
    r
}

fn power_of_two(k: u32) -> (r: u64)
    requires
        k <= 40,
    ensures
        r == pow2(k as nat),
        1 <= r <= 0x100_0000_0000,
{
    let mut i: u32 = 0;
    let mut r: u64 = 1;
    proof {
        lemma2_to64();
        lemma2_to64_rest();
    }
    while i < k
        invariant
            i <= k <= 40,
            r == pow2(i as nat),
            1 <= r <= 0x100_0000_0000,
        decreases k - i,
    {
        proof {
            lemma2_to64();
            lemma2_to64_rest();
            lemma_pow2_adds(i as nat, 1);
            if i < 39 {
                lemma_pow2_strictly_increases(i as nat, 39);
            }
        }
        r = r * 2;
        i = i + 1;
    }
    r
}

/// The sum of two numbers whose exponents are near each other.
pub fn sum(x: Single, y: Single) -> (r: Single)
    requires
        x.within(-60, 60),
        y.within(-60, 60),
        -39 <= x.exponent - y.exponent <= 39,
    ensures
        r == plus(x, y),
        r.wf(),
        r.mantissa > 0,
{
    let least: i32 = if x.exponent <= y.exponent {
        x.exponent
    } else {
        y.exponent
    };
    let a: u64 = power_of_two((x.exponent - least) as u32);
    let b: u64 = power_of_two((y.exponent - least) as u32);
    let p: u64 = x.mantissa;
    let q: u64 = y.mantissa;
    proof {
        lemma2_to64();
        lemma2_to64_rest();
        assert(0x80_0000 <= p * a <= 0x100_0000 * 0x100_0000_0000) by (nonlinear_arith)
            requires
                0x80_0000 <= p <= 0x100_0000,
                1 <= a <= 0x100_0000_0000,
        ;
        assert(0x80_0000 <= q * b <= 0x100_0000 * 0x100_0000_0000) by (nonlinear_arith)
            requires
                0x80_0000 <= q <= 0x100_0000,
                1 <= b <= 0x100_0000_0000,
        ;
        assert(p * a <= 0xff_ffff * 0x80_0000_0000) by (nonlinear_arith)
            requires
                p <= 0xff_ffff,
                1 <= a <= 0x80_0000_0000,
        ;
        assert(q * b <= 0xff_ffff * 0x80_0000_0000) by (nonlinear_arith)
            requires
                q <= 0xff_ffff,
                1 <= b <= 0x80_0000_0000,
        ;
    }
    let n: u64 = p * a + q * b;
    let r: Single = round_ratio(n, 1, least);
    proof {
        let k = binade(n as nat, 1);
        lemma_times_scale(n as nat, -41, 1);
        lemma_times_scale(n as nat, 0, 1);
        lemma_binade_order(n as nat, 1, 41, k);
        lemma_binade_order(n as nat, 1, k, 0);
    }
    r
}

proof fn lemma_pow2_at_least(k: nat, j: nat)
    requires
        j <= k,
    ensures
        pow2(j) <= pow2(k),
{
    if j < k {
        lemma_pow2_strictly_increases(j, k);
    }
}

/// The integer part and the nearest integer, without the factor that is one.
proof fn lemma_parts(x: Single)
    ensures
        x.exponent >= 0 ==> x.floor() == x.mantissa * pow2(x.exponent as nat) && x.round()
            == x.mantissa * pow2(x.exponent as nat),
        x.exponent < 0 ==> x.floor() == x.mantissa as nat / pow2((-x.exponent) as nat)
            && x.round() == (2 * x.mantissa + pow2((-x.exponent) as nat)) as nat / (2 * pow2(
            (-x.exponent) as nat,
        )),
{
    lemma2_to64();
    let m = x.mantissa as nat;
    let e = x.exponent as int;
    if e >= 0 {
        let v = m * pow2(e as nat);
        assert(scale(-e) == 1);
        assert(v / 1 == v);
        assert((2 * v + 1) / 2 == v);
    } else {
        lemma_times_scale(m, e, 1);
    }
}

/// The integer part, or the greatest 32-bit signed integer where it is beyond it.
pub fn floor(x: Single) -> (r: i32)
    requires
        x.wf(),
    ensures
        r == capped(x.floor()),
{
    let m: u64 = x.mantissa;
    let e: i32 = x.exponent;
    proof {
        lemma2_to64();
        lemma2_to64_rest();
        lemma_parts(x);
    }
    if e >= 8 {
        proof {
            lemma_pow2_at_least(e as nat, 8);
            let p = pow2(e as nat);
            assert(m * p >= 0x80_0000 * 256) by (nonlinear_arith)
                requires
                    m >= 0x80_0000,
                    p >= 256,
            ;
        }
        i32::MAX
    } else if e >= 0 {
        let p: u64 = power_of_two(e as u32);
        assert(p <= 128);
        assert(m * p <= 0x100_0000 * 128) by (nonlinear_arith)
            requires
                m <= 0x100_0000,
                p <= 128,
        ;
        let v: u64 = m * p;
        if v > 0x7fff_ffff {
            i32::MAX
        } else {
            v as i32
        }
    } else if e <= -24 {
        proof {
            lemma_pow2_at_least((-e) as nat, 24);
            let p = pow2((-e) as nat);
            assert(m as nat / p == 0) by (nonlinear_arith)
                requires
                    m < p,
            ;
        }
        0
    } else {
        let p: u64 = power_of_two((-e) as u32);
        let v: u64 = m / p;
        assert(v <= m) by (nonlinear_arith)
            requires
                v == m / p,
                p >= 1,
        ;
        v as i32
    }
}

/// The nearest integer, a half to the greater one, or the greatest 32-bit signed integer where it
/// is beyond it.
pub fn round(x: Single) -> (r: i32)
    requires
        x.wf(),
    ensures
        r == capped(x.round()),
{
    let m: u64 = x.mantissa;
    let e: i32 = x.exponent;
    proof {
        lemma2_to64();
        lemma2_to64_rest();
        lemma_parts(x);
    }
    if e >= 0 {
        assert(x.round() == x.floor());
        floor(x)
    } else if e <= -25 {
        proof {
            lemma_pow2_at_least((-e) as nat, 25);
            let p = pow2((-e) as nat);
            assert((2 * m + p) as nat / (2 * p) == 0) by (nonlinear_arith)
                requires
                    2 * m < p,
            ;
        }
        0
    } else {
        let p: u64 = power_of_two((-e) as u32);
        let v: u64 = (2 * m + p) / (2 * p);
        assert(v <= m + 1) by (nonlinear_arith)
            requires
                v == (2 * m + p) / (2 * p),
                p >= 1,
        ;
        v as i32
    }
}

proof fn lemma_floor_positive(x: Single)
    requires
        x.wf(),
    ensures
        x.floor() >= 1 <==> x.mantissa > 0 && x.exponent >= -23,
{
    let m = x.mantissa as nat;
    let e = x.exponent as int;
    lemma2_to64();
    lemma2_to64_rest();
    lemma_parts(x);
    if x.mantissa == 0 {
    } else if e >= 0 {
        lemma_pow2_pos(e as nat);
        let p = pow2(e as nat);
        assert(m * p >= 1) by (nonlinear_arith)
            requires
                m >= 1,
                p >= 1,
        ;
    } else if e >= -23 {
        lemma_pow2_at_least(23, (-e) as nat);
        lemma_pow2_pos((-e) as nat);
        let p = pow2((-e) as nat);
        assert(m / p >= 1) by (nonlinear_arith)
            requires
                m >= p,
                p >= 1,
        ;
    } else {
        lemma_pow2_at_least((-e) as nat, 24);
        let p = pow2((-e) as nat);
        assert(m / p == 0) by (nonlinear_arith)
            requires
                m < p,
        ;
    }
}

/// The number, or one where it is less.
pub fn raise_to_one(x: Single) -> (r: Single)
    requires
        x.wf(),
    ensures
        r == at_least_one(x),
        r.wf(),
        forall|hi: int| hi >= 8 && x.within(-149, hi) ==> #[trigger] r.within(-23, hi),
{
    proof {
        lemma_floor_positive(x);
    }
    if x.mantissa > 0 && x.exponent >= -23 {
        x
    } else {
        whole(1)
    }
}

/// The number, or one where it is greater.
pub fn lower_to_one(x: Single) -> (r: Single)
    requires
        x.wf(),
    ensures
        r == at_most_one(x),
        r.wf(),
        forall|lo: int| lo <= -23 && x.within(lo, 104) ==> #[trigger] r.within(lo, 8),
{
    proof {
        lemma_floor_positive(x);
    }
    if x.mantissa > 0 && x.exponent >= -23 {
        whole(1)
    } else {
        x
    }
}

} // verus!
