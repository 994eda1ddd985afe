//! Fixed-point arithmetic on Q24 values: `ONE` stands for 1.0.
use vstd::prelude::*;

verus! {

/// The fixed-point unit: a value `v` stands for `v / ONE`.
pub const ONE: i64 = 16777216;

/// The fractional part of `a / ONE`, scaled by `ONE` (a true modulo: never negative).
pub open spec fn fract_spec(a: int) -> int {
    a % (ONE as int)
}

/// Floor division by a positive divisor.
pub fn div_floor(a: i64, d: i64) -> (r: i64)
    requires
        d > 0,
    ensures
        r as int == (a as int) / (d as int),
{
    if a >= 0 {
        a / d
    } else {
        let m: i64 = -(a + 1);
        let q: i64 = m / d;
        proof {
            let ai = a as int;
            let di = d as int;
            let qi = q as int;
            assert(m as int == -ai - 1);
            assert(qi * di <= -ai - 1 < qi * di + di) by (nonlinear_arith)
                requires qi == (-ai - 1) / di, di > 0, -ai - 1 >= 0;
            assert((-qi - 1) * di <= ai < (-qi - 1) * di + di) by (nonlinear_arith)
                requires qi * di <= -ai - 1 < qi * di + di;
            vstd::arithmetic::div_mod::lemma_fundamental_div_mod_converse(ai, di, -qi - 1, ai - (-qi - 1) * di);
        }
        -q - 1
    }
}

/// The fractional part of an angle: `a` reduced into `[0, ONE)`.
pub fn fract(a: i64) -> (r: i64)
    ensures
        r as int == fract_spec(a as int),
        0 <= r < ONE,
{
    let q = div_floor(a, ONE);
    proof {
        vstd::arithmetic::div_mod::lemma_fundamental_div_mod(a as int, ONE as int);
    }
    a - q * ONE
}


/// The fixed-point product of two values.
pub open spec fn qmul_spec(a: int, b: int) -> int {
    a * b / (ONE as int)
}

/// `r` is the integer square root of `n`.
pub open spec fn is_floor_sqrt(n: int, r: int) -> bool {
    0 <= r && r * r <= n < (r + 1) * (r + 1)
}

/// The largest `r' <= r` with `r' * r' <= n`.
pub open spec fn sqrt_below(n: int, r: int) -> int
    decreases r,
{
    if r <= 0 || r * r <= n {
        r
    } else {
        sqrt_below(n, r - 1)
    }
}

/// The fixed-point square root of `x`: the integer square root of `x * ONE`.
pub open spec fn qsqrt_spec(x: int) -> int {
    sqrt_below(x * ONE, x * ONE)
}

/// `w` is a power of two.
pub open spec fn is_pow2(w: int) -> bool
    decreases w,
{
    if w <= 0 {
        false
    } else if w == 1 {
        true
    } else {
        w % 2 == 0 && is_pow2(w / 2)
    }
}

/// `x` raised to the whole power `n`, one truncating product at a time.
pub open spec fn qpow_int(x: int, n: nat) -> int
    decreases n,
{
    if n == 0 {
        ONE as int
    } else {
        qmul_spec(qpow_int(x, (n - 1) as nat), x)
    }
}

/// Applies the binary digits of a fractional exponent `rem` (weights `w`, `w / 2`, ..., 1
/// in units of `ONE`) to `acc`: each digit multiplies by the matching repeated square root.
pub open spec fn qpow_frac(acc: int, root: int, rem: int, w: int) -> int
    decreases w,
{
    if w <= 0 {
        acc
    } else {
        let r2 = qsqrt_spec(root);
        if rem >= w {
            qpow_frac(qmul_spec(acc, r2), r2, rem - w, w / 2)
        } else {
            qpow_frac(acc, r2, rem, w / 2)
        }
    }
}

/// `x` raised to the fixed-point exponent `p`.
pub open spec fn qpow_spec(x: int, p: int) -> int {
    qpow_frac(qpow_int(x, (p / (ONE as int)) as nat), x, p % (ONE as int), (ONE as int) / 2)
}

/// `sqrt_below` started high enough finds the integer square root.
pub proof fn lemma_sqrt_below(n: int, r: int)
    requires
        0 <= n,
        0 <= r,
        n < (r + 1) * (r + 1),
    ensures
        is_floor_sqrt(n, sqrt_below(n, r)),
    decreases r,
{
    if r > 0 && r * r > n {
        lemma_sqrt_below(n, r - 1);
    }
}

pub proof fn lemma_floor_sqrt_unique(n: int, r1: int, r2: int)
    requires
        is_floor_sqrt(n, r1),
        is_floor_sqrt(n, r2),
    ensures
        r1 == r2,
{
    if r1 < r2 {
        assert((r1 + 1) * (r1 + 1) <= r2 * r2) by (nonlinear_arith)
            requires 0 <= r1, r1 + 1 <= r2;
    } else if r2 < r1 {
        assert((r2 + 1) * (r2 + 1) <= r1 * r1) by (nonlinear_arith)
            requires 0 <= r2, r2 + 1 <= r1;
    }
}

/// The product of two values in `[0, ONE]` stays in `[0, ONE]`, is at most each
/// factor, and falls below `ONE` when a factor does.
pub proof fn lemma_qmul_unit(a: int, b: int)
    requires
        0 <= a <= ONE,
        0 <= b <= ONE,
    ensures
        0 <= qmul_spec(a, b) <= a,
        qmul_spec(a, b) <= b,
        a < ONE ==> qmul_spec(a, b) < ONE,
        b < ONE ==> qmul_spec(a, b) < ONE,
        b == ONE ==> qmul_spec(a, b) == a,
        a == ONE ==> qmul_spec(a, b) == b,
{
    let o = ONE as int;
    assert(0 <= a * b <= a * o) by (nonlinear_arith)
        requires 0 <= a, 0 <= b <= o;
    assert(a * b <= o * b) by (nonlinear_arith)
        requires 0 <= a <= o, 0 <= b;
    vstd::arithmetic::div_mod::lemma_div_is_ordered(a * b, a * o, o);
    vstd::arithmetic::div_mod::lemma_div_is_ordered(a * b, o * b, o);
    vstd::arithmetic::div_mod::lemma_div_by_multiple(a, o);
    vstd::arithmetic::div_mod::lemma_div_by_multiple(b, o);
    vstd::arithmetic::div_mod::lemma_div_pos_is_pos(a * b, o);
    assert(o * b == b * o) by (nonlinear_arith);
}

/// The fixed-point square root of a value in `[0, ONE]` stays there, and stays
/// below `ONE` for a value below `ONE`.
pub proof fn lemma_qsqrt_unit(x: int)
    requires
        0 <= x <= ONE,
    ensures
        0 <= qsqrt_spec(x) <= ONE,
        x < ONE ==> qsqrt_spec(x) < ONE,
{
    let o = ONE as int;
    let r = qsqrt_spec(x);
    assert(0 <= x * o) by (nonlinear_arith)
        requires 0 <= x, o > 0;
    assert(x * o < (x * o + 1) * (x * o + 1)) by (nonlinear_arith)
        requires 0 <= x * o;
    lemma_sqrt_below(x * o, x * o);
    assert(x * o <= o * o) by (nonlinear_arith)
        requires 0 <= x <= o;
    if r > o {
        assert((o + 1) * (o + 1) <= r * r) by (nonlinear_arith)
            requires r >= o + 1, o > 0;
    }
    if x < o && r >= o {
        assert(x * o < o * o) by (nonlinear_arith)
            requires 0 <= x < o, o > 0;
        assert(o * o <= r * r) by (nonlinear_arith)
            requires r >= o, o > 0;
    }
}


pub proof fn lemma_qpow_int_unit(x: int, n: nat)
    requires
        0 <= x <= ONE,
    ensures
        0 <= qpow_int(x, n) <= ONE,
        n >= 1 && x < ONE ==> qpow_int(x, n) < ONE,
        n == 1 ==> qpow_int(x, n) == x,
    decreases n,
{
    if n > 0 {
        lemma_qpow_int_unit(x, (n - 1) as nat);
        lemma_qmul_unit(qpow_int(x, (n - 1) as nat), x);
    }
}

pub proof fn lemma_qpow_frac_unit(acc: int, root: int, rem: int, w: int)
    requires
        0 <= acc <= ONE,
        0 <= root <= ONE,
    ensures
        0 <= qpow_frac(acc, root, rem, w) <= acc,
        rem == 0 ==> qpow_frac(acc, root, rem, w) == acc,
        root < ONE && is_pow2(w) && 0 < rem < 2 * w ==> qpow_frac(acc, root, rem, w) < ONE,
    decreases w,
{
    if w > 0 {
        let r2 = qsqrt_spec(root);
        lemma_qsqrt_unit(root);
        lemma_qmul_unit(acc, r2);
        if rem >= w {
            lemma_qpow_frac_unit(qmul_spec(acc, r2), r2, rem - w, w / 2);
        } else {
            lemma_qpow_frac_unit(acc, r2, rem, w / 2);
        }
    }
}

/// A value in `[0, ONE]` raised to any positive exponent stays in `[0, ONE]`, and one
/// below `ONE` stays below it; the exponent `ONE` leaves the value unchanged.
pub proof fn lemma_qpow_unit(x: int, p: int)
    requires
        0 <= x <= ONE,
        p > 0,
    ensures
        0 <= qpow_spec(x, p) <= ONE,
        x < ONE ==> qpow_spec(x, p) < ONE,
        p == ONE ==> qpow_spec(x, p) == x,
{
    let o = ONE as int;
    let n = (p / o) as nat;
    let f = p % o;
    lemma_qpow_int_unit(x, n);
    lemma_qpow_frac_unit(qpow_int(x, n), x, f, o / 2);
    if x < o && n == 0 {
        reveal_with_fuel(is_pow2, 25);
        assert(is_pow2(8388608));
        assert(f == p);
    }
}

/// The integer square root of `n`.
pub fn isqrt(n: u64) -> (r: u64)
    requires
        n <= ONE * ONE,
    ensures
        is_floor_sqrt(n as int, r as int),
{
    let mut lo: u64 = 0;
    let mut hi: u64 = (ONE + 1) as u64;
    assert(n < (hi as int) * (hi as int)) by (nonlinear_arith)
        requires n <= ONE * ONE, hi == ONE + 1;
    while hi - lo > 1
        invariant
            lo < hi <= ONE + 1,
            (lo as int) * (lo as int) <= n,
            n < (hi as int) * (hi as int),
        decreases hi - lo,
    {
        let mid: u64 = lo + (hi - lo) / 2;
        assert(mid < hi);
        assert((mid as int) * (mid as int) <= 16777217 * 16777217) by (nonlinear_arith)
            requires 0 <= mid <= 16777217;
        if mid * mid <= n {
            lo = mid;
        } else {
            hi = mid;
        }
    }
    lo
}

/// The fixed-point product of two values in `[0, ONE]`.
pub fn qmul(a: i64, b: i64) -> (r: i64)
    requires
        0 <= a <= ONE,
        0 <= b <= ONE,
    ensures
        r as int == qmul_spec(a as int, b as int),
        0 <= r <= ONE,
{
    proof {
        lemma_qmul_unit(a as int, b as int);
        assert(0 <= a * b <= ONE * ONE) by (nonlinear_arith)
            requires 0 <= a <= ONE, 0 <= b <= ONE;
    }
    a * b / ONE
}

/// The fixed-point square root of a value in `[0, ONE]`.
pub fn qsqrt(x: i64) -> (r: i64)
    requires
        0 <= x <= ONE,
    ensures
        r as int == qsqrt_spec(x as int),
        0 <= r <= ONE,
{
    proof {
        assert(0 <= x * ONE <= ONE * ONE) by (nonlinear_arith)
            requires 0 <= x <= ONE;
    }
    let r = isqrt((x * ONE) as u64);
    proof {
        let n = x * ONE;
        assert(n < (n + 1) * (n + 1)) by (nonlinear_arith)
            requires 0 <= n;
        lemma_sqrt_below(n, n);
        lemma_floor_sqrt_unique(n, r as int, qsqrt_spec(x as int));
        lemma_qsqrt_unit(x as int);
    }
    r as i64
}

/// `x` raised to the fixed-point exponent `p`: the whole part of `p` by repeated
/// products, each binary digit of its fraction by the matching repeated square root.
pub fn qpow(x: i64, p: i64) -> (r: i64)
    requires
        0 <= x <= ONE,
        p > 0,
    ensures
        r as int == qpow_spec(x as int, p as int),
        0 <= r <= ONE,
        x < ONE ==> r < ONE,
        p == ONE ==> r == x,
{
    let n: i64 = p / ONE;
    let f: i64 = p % ONE;
    let mut acc: i64 = ONE;
    let mut k: i64 = 0;
    while k < n
        invariant
            0 <= k <= n,
            n == p / ONE,
            0 <= x <= ONE,
            acc as int == qpow_int(x as int, k as nat),
        decreases n - k,
    {
        proof {
            lemma_qpow_int_unit(x as int, k as nat);
        }
        acc = qmul(acc, x);
        k = k + 1;
    }
    proof {
        lemma_qpow_int_unit(x as int, n as nat);
    }
    let mut root: i64 = x;
    let mut rem: i64 = f;
    let mut w: i64 = ONE / 2;
    while w > 0
        invariant
            0 <= acc <= ONE,
            0 <= root <= ONE,
            0 <= w,
            qpow_frac(acc as int, root as int, rem as int, w as int)
                == qpow_frac(qpow_int(x as int, n as nat), x as int, f as int, (ONE as int) / 2),
        decreases w,
    {
        let r2 = qsqrt(root);
        if rem >= w {
            acc = qmul(acc, r2);
            rem = rem - w;
        }
        root = r2;
        w = w / 2;
    }
    proof {
        lemma_qpow_unit(x as int, p as int);
    }
    acc
}

} // verus!
