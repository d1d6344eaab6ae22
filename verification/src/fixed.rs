//! Fixed-point numbers and the integer square root.

use vstd::math::abs;
use vstd::prelude::*;

verus! {

/// The integer that stands for the number one.
pub const SCALE: i64 = 1_000_000;

/// `r` is the square root of `n`, rounded down.
pub open spec fn is_sqrt_floor(n: int, r: int) -> bool {
    0 <= r && r * r <= n < (r + 1) * (r + 1)
}

/// The square root of `n`, rounded down (0 for a negative `n`): the one
/// number `r` with `is_sqrt_floor(n, r)`, counted up from zero.
pub open spec fn sqrt_floor(n: int) -> int
    decreases n,
{
    if n <= 0 {
        0
    } else {
        let r = sqrt_floor(n - 1);
        if (r + 1) * (r + 1) <= n {
            r + 1
        } else {
            r
        }
    }
}

/// `sqrt_floor` returns the rounded-down square root.
pub proof fn lemma_sqrt_floor_is_root(n: int)
    requires
        n >= 0,
    ensures
        is_sqrt_floor(n, sqrt_floor(n)),
    decreases n,
{
    if n > 0 {
        lemma_sqrt_floor_is_root(n - 1);
        let r = sqrt_floor(n - 1);
        if (r + 1) * (r + 1) <= n {
            assert((r + 1) * (r + 1) < (r + 1 + 1) * (r + 1 + 1)) by (nonlinear_arith)
                requires
                    0 <= r,
            ;
        }
    } else {
        assert(0 * 0 == 0 && (0 + 1) * (0 + 1) == 1) by (nonlinear_arith);
    }
}

/// There is only one rounded-down square root.
pub proof fn lemma_sqrt_floor_unique(n: int, r: int)
    requires
        is_sqrt_floor(n, r),
    ensures
        sqrt_floor(n) == r,
{
    lemma_sqrt_floor_is_root(n);
    let s = sqrt_floor(n);
    if s < r {
        assert((s + 1) * (s + 1) <= r * r) by (nonlinear_arith)
            requires
                0 <= s,
                s + 1 <= r,
        ;
    } else if r < s {
        assert((r + 1) * (r + 1) <= s * s) by (nonlinear_arith)
            requires
                0 <= r,
                r + 1 <= s,
        ;
    }
}

/// The square root grows with its argument.
pub proof fn lemma_sqrt_floor_monotone(a: int, b: int)
    requires
        0 <= a <= b,
    ensures
        sqrt_floor(a) <= sqrt_floor(b),
{
    lemma_sqrt_floor_is_root(a);
    lemma_sqrt_floor_is_root(b);
    let r = sqrt_floor(a);
    let s = sqrt_floor(b);
    if s < r {
        assert((s + 1) * (s + 1) <= r * r) by (nonlinear_arith)
            requires
                0 <= s,
                s + 1 <= r,
        ;
    }
}

/// The square root of a perfect square.
pub proof fn lemma_sqrt_floor_of_square(r: int)
    requires
        0 <= r,
    ensures
        sqrt_floor(r * r) == r,
{
    assert(r * r < (r + 1) * (r + 1)) by (nonlinear_arith)
        requires
            0 <= r,
    ;
    lemma_sqrt_floor_unique(r * r, r);
}

/// The square root of `n`, rounded down.
pub fn isqrt(n: u128) -> (r: u64)
    ensures
        r == sqrt_floor(n as int),
        r * r <= n < (r + 1) * (r + 1),
{
    let mut lo: u128 = 0;
    let mut hi: u128 = 0x1_0000_0000_0000_0000;
    while hi - lo > 1
        invariant
            lo < hi <= 0x1_0000_0000_0000_0000,
            lo * lo <= n < hi * hi,
        decreases hi - lo,
    {
        let mid: u128 = lo + (hi - lo) / 2;
        assert(mid * mid <= 0xffff_ffff_ffff_ffff * 0xffff_ffff_ffff_ffff) by (nonlinear_arith)
            requires
                0 <= mid <= 0xffff_ffff_ffff_ffff,
        ;
        if mid * mid <= n {
            lo = mid;
        } else {
            hi = mid;
        }
    }
    proof {
        lemma_sqrt_floor_unique(n as int, lo as int);
    }
    lo as u64
}

/// `a / b` rounded toward zero, for a positive `b`.
pub open spec fn div_toward_zero(a: int, b: int) -> int {
    if a >= 0 {
        a / b
    } else {
        -((-a) / b)
    }
}

/// The product of two fixed-point numbers, rounded toward zero.
pub open spec fn fixed_mul(a: int, k: int) -> int {
    div_toward_zero(a * k, SCALE as int)
}

/// The quotient of two fixed-point numbers, rounded toward zero, for a
/// positive `d`.
pub open spec fn fixed_div(a: int, d: int) -> int {
    div_toward_zero(a * SCALE, d)
}

/// The first coordinate of the vector `(x, y)` after the vector is stretched
/// or shrunk to the length `|m|` (and turned round for a negative `m`),
/// rounded toward zero: `x * m / sqrt(x * x + y * y)`.
pub open spec fn rescaled(x: int, y: int, m: int) -> int {
    let q = sqrt_floor((x * x * (m * m)) / (x * x + y * y));
    if (x >= 0) == (m >= 0) {
        q
    } else {
        -q
    }
}

/// The absolute value of a product is the product of the absolute values.
pub proof fn lemma_abs_mul(a: int, b: int)
    ensures
        abs(a * b) == abs(a) * abs(b),
        a * a == abs(a) * abs(a),
        (a * b >= 0) <==> (a == 0 || b == 0 || ((a > 0) == (b > 0))),
{
    assert(abs(a * b) == abs(a) * abs(b)) by (nonlinear_arith);
    assert(a * a == abs(a) * abs(a)) by (nonlinear_arith);
    assert((a * b >= 0) <==> (a == 0 || b == 0 || ((a > 0) == (b > 0)))) by (nonlinear_arith);
}

/// A product of bounded factors is bounded.
pub proof fn lemma_mul_bound(a: int, b: int, bound_a: int, bound_b: int)
    requires
        0 <= a <= bound_a,
        0 <= b <= bound_b,
    ensures
        0 <= a * b <= bound_a * bound_b,
{
    assert(0 <= a * b <= bound_a * bound_b) by (nonlinear_arith)
        requires
            0 <= a <= bound_a,
            0 <= b <= bound_b,
    ;
}

/// A product of factors that lie within bounds of zero lies within the
/// product of the bounds.
pub proof fn lemma_signed_mul_bound(a: int, b: int, bound_a: int, bound_b: int)
    requires
        abs(a) <= bound_a,
        abs(b) <= bound_b,
    ensures
        -(bound_a * bound_b) <= a * b <= bound_a * bound_b,
{
    lemma_abs_mul(a, b);
    lemma_mul_bound(abs(a) as int, abs(b) as int, bound_a, bound_b);
}

/// The absolute value of `x`.
pub fn magnitude(x: i64) -> (r: u64)
    ensures
        r == abs(x as int),
{
    if x >= 0 {
        x as u64
    } else if x == i64::MIN {
        0x8000_0000_0000_0000
    } else {
        (-x) as u64
    }
}

/// The number `q`, with a minus sign where `negative` says so.
pub fn with_sign(q: u64, negative: bool) -> (r: i64)
    requires
        q <= i64::MAX,
    ensures
        r == if negative { -(q as int) } else { q as int },
{
    if negative {
        -(q as i64)
    } else {
        q as i64
    }
}

/// The product of two fixed-point numbers, rounded toward zero.
pub fn mul_fixed(a: i64, k: i64) -> (r: i64)
    requires
        abs(fixed_mul(a as int, k as int)) <= i64::MAX,
    ensures
        r == fixed_mul(a as int, k as int),
{
    let ua: u128 = magnitude(a) as u128;
    let uk: u128 = magnitude(k) as u128;
    proof {
        lemma_abs_mul(a as int, k as int);
        lemma_mul_bound(ua as int, uk as int, 0x8000_0000_0000_0000, 0x8000_0000_0000_0000);
    }
    let q: u128 = ua * uk / 1_000_000;
    let negative: bool = (a < 0) != (k < 0);
    proof {
        assert(ua * uk == abs(a * k));
        if a == 0 || k == 0 {
            assert(ua * uk == 0) by (nonlinear_arith)
                requires
                    ua == 0 || uk == 0,
            ;
        }
    }
    with_sign(q as u64, negative)
}

/// The quotient of two fixed-point numbers, rounded toward zero.
pub fn div_fixed(a: i64, d: i64) -> (r: i64)
    requires
        d > 0,
        abs(fixed_div(a as int, d as int)) <= i64::MAX,
    ensures
        r == fixed_div(a as int, d as int),
{
    let ua: u128 = magnitude(a) as u128;
    let q: u128 = ua * 1_000_000 / (d as u128);
    with_sign(q as u64, a < 0)
}

/// The first coordinate of `(x, y)` after the vector is rescaled to the
/// length `|m|`, rounded toward zero.
pub fn rescale(x: i64, y: i64, m: i64) -> (r: i64)
    requires
        x != 0 || y != 0,
        -u64::MAX <= x * m <= u64::MAX,
        m > i64::MIN,
    ensures
        r == rescaled(x as int, y as int, m as int),
{
    let ux: u128 = magnitude(x) as u128;
    let uy: u128 = magnitude(y) as u128;
    let um: u128 = magnitude(m) as u128;
    proof {
        lemma_abs_mul(x as int, m as int);
        lemma_abs_mul(x as int, x as int);
        lemma_abs_mul(y as int, y as int);
        lemma_abs_mul(m as int, m as int);
        lemma_mul_bound(ux as int, ux as int, 0x8000_0000_0000_0000, 0x8000_0000_0000_0000);
        lemma_mul_bound(uy as int, uy as int, 0x8000_0000_0000_0000, 0x8000_0000_0000_0000);
        assert(ux * ux + uy * uy > 0) by (nonlinear_arith)
            requires
                ux > 0 || uy > 0,
                ux >= 0,
                uy >= 0,
        ;
    }
    let n: u128 = ux * ux + uy * uy;
    let p: u128 = ux * um;
    proof {
        lemma_mul_bound(p as int, p as int, u64::MAX as int, u64::MAX as int);
        assert((x * x) * (m * m) == (ux * um) * (ux * um)) by (nonlinear_arith)
            requires
                x * x == ux * ux,
                m * m == um * um,
        ;
    }
    let q: u64 = isqrt(p * p / n);
    proof {
        lemma_rescaled_quotient(ux as int, uy as int, um as int);
        lemma_sqrt_floor_monotone((p * p) as int / (n as int), um as int * um as int);
        lemma_sqrt_floor_of_square(um as int);
    }
    with_sign(q, (x < 0) != (m < 0))
}

/// Under the square root of `rescaled` stands at most `m * m`.
pub proof fn lemma_rescaled_quotient(x: int, y: int, m: int)
    requires
        x != 0 || y != 0,
    ensures
        0 <= (x * x * (m * m)) / (x * x + y * y) <= m * m,
{
    let n = x * x + y * y;
    let xx = x * x;
    let mm = m * m;
    assert(n > 0 && 0 <= xx <= n && mm >= 0) by (nonlinear_arith)
        requires
            n == x * x + y * y,
            xx == x * x,
            mm == m * m,
            x != 0 || y != 0,
    ;
    assert(0 <= xx * mm <= n * mm) by (nonlinear_arith)
        requires
            0 <= xx <= n,
            mm >= 0,
    ;
    assert(0 <= (xx * mm) / n <= mm) by (nonlinear_arith)
        requires
            n > 0,
            0 <= xx * mm <= n * mm,
    ;
}

/// What `rescaled` says of one coordinate `c` of the result: `c` is at most
/// `|m|`, it has the sign of `x * m`, and the exact value `x * m / sqrt(n)`
/// lies between `|c|` and `|c| + 1`, all stated without the square root.
pub proof fn lemma_rescaled_coordinate(x: int, y: int, m: int)
    requires
        x != 0 || y != 0,
    ensures
        ({
            let c = rescaled(x, y, m);
            let n = x * x + y * y;
            &&& abs(c) <= abs(m)
            &&& (c > 0 ==> (x > 0) == (m > 0))
            &&& (c < 0 ==> (x > 0) != (m > 0))
            &&& (x == 0 || m == 0 ==> c == 0)
            &&& c * c * n <= x * x * (m * m)
            &&& x * x * (m * m) < (abs(c) + 1) * (abs(c) + 1) * n
        }),
{
    let n = x * x + y * y;
    let big = x * x * (m * m);
    let q = big / n;
    let r = sqrt_floor(q);
    let c = rescaled(x, y, m);
    lemma_rescaled_quotient(x, y, m);
    lemma_sqrt_floor_is_root(q);
    lemma_sqrt_floor_monotone(q, m * m);
    lemma_abs_mul(m, m);
    lemma_sqrt_floor_of_square(abs(m) as int);
    assert(n > 0) by (nonlinear_arith)
        requires
            n == x * x + y * y,
            x != 0 || y != 0,
    ;
    assert(q * n <= big < (q + 1) * n) by (nonlinear_arith)
        requires
            q == big / n,
            n > 0,
    ;
    assert(r * r * n <= big) by (nonlinear_arith)
        requires
            r * r <= q,
            q * n <= big,
            n > 0,
    ;
    assert(big < (r + 1) * (r + 1) * n) by (nonlinear_arith)
        requires
            q + 1 <= (r + 1) * (r + 1),
            big < (q + 1) * n,
            n > 0,
    ;
    assert(c * c == r * r) by (nonlinear_arith)
        requires
            c == r || c == -r,
    ;
    assert(abs(c) == r);
    if x == 0 || m == 0 {
        assert(big == 0) by (nonlinear_arith)
            requires
                big == x * x * (m * m),
                x == 0 || m == 0,
        ;
        assert(q == 0) by (nonlinear_arith)
            requires
                q == big / n,
                big == 0,
                n > 0,
        ;
    }
}

/// A quotient is no larger than its numerator allows: for `|a| <= count * bound`
/// the quotient `a / count` lies within `bound`.
pub proof fn lemma_div_toward_zero_bound(a: int, count: int, bound: int)
    requires
        count > 0,
        bound >= 0,
        abs(a) <= count * bound,
    ensures
        abs(div_toward_zero(a, count)) <= bound,
{
    let m = abs(a) as int;
    assert(0 <= m / count <= bound) by (nonlinear_arith)
        requires
            count > 0,
            0 <= m <= count * bound,
    ;
}

/// A product of fixed-point numbers is bounded by the product of their bounds.
pub proof fn lemma_fixed_mul_bound(a: int, k: int, bound_a: int, bound_k: int)
    requires
        abs(a) <= bound_a,
        abs(k) <= bound_k,
    ensures
        abs(fixed_mul(a, k)) <= (bound_a * bound_k) / (SCALE as int),
        a == 0 ==> fixed_mul(a, k) == 0,
{
    lemma_abs_mul(a, k);
    lemma_mul_bound(abs(a) as int, abs(k) as int, bound_a, bound_k);
    let p = abs(a * k) as int;
    let b = bound_a * bound_k;
    assert(0 <= p / 1_000_000 <= b / 1_000_000) by (nonlinear_arith)
        requires
            0 <= p <= b,
    ;
    if a == 0 {
        assert(a * k == 0) by (nonlinear_arith)
            requires
                a == 0,
        ;
    }
}

/// A quotient of fixed-point numbers by a divisor of one step of the grid or
/// more is at most the numerator times `SCALE`.
pub proof fn lemma_fixed_div_bound(a: int, d: int, bound_a: int)
    requires
        d > 0,
        abs(a) <= bound_a,
    ensures
        abs(fixed_div(a, d)) <= bound_a * SCALE,
        a == 0 ==> fixed_div(a, d) == 0,
{
    let p = abs(a * SCALE) as int;
    assert(p == abs(a) * 1_000_000) by (nonlinear_arith)
        requires
            p == abs(a * 1_000_000),
    ;
    assert(0 <= p / d <= p) by (nonlinear_arith)
        requires
            d > 0,
            p >= 0,
    ;
}

/// `a / count` rounded toward zero, for a positive `count`.
pub fn divide_toward_zero(a: i128, count: usize) -> (r: i64)
    requires
        count > 0,
        abs(div_toward_zero(a as int, count as int)) <= i64::MAX,
    ensures
        r == div_toward_zero(a as int, count as int),
{
    if a >= 0 {
        (a / (count as i128)) as i64
    } else if a == i128::MIN {
        let q: u128 = 0x8000_0000_0000_0000_0000_0000_0000_0000u128 / (count as u128);
        with_sign(q as u64, true)
    } else {
        let q: i128 = (-a) / (count as i128);
        with_sign(q as u64, true)
    }
}

} // verus!
