//! Exact integer arithmetic used by the simulation: scaling by a rational
//! factor with rounding toward zero, linear interpolation, and an integer
//! square root.  Every operation is deterministic, so a replayed simulation
//! step reproduces the original bit for bit.

use vstd::prelude::*;
use vstd::arithmetic::div_mod::{
    lemma_div_is_ordered,
    lemma_div_multiples_vanish,
    lemma_div_pos_is_pos,
};
use vstd::arithmetic::mul::lemma_mul_inequality;

verus! {

/// `v * m / d` rounded toward zero (the sign of the result is the sign of
/// `v`); `m` must be nonnegative and `d` positive.
pub open spec fn spec_mul_div_tz(v: int, m: int, d: int) -> int {
    if v >= 0 {
        (v * m) / d
    } else {
        -(((-v) * m) / d)
    }
}

/// Rounding toward zero never grows the magnitude beyond `vb * mb / d` when
/// `|v| <= vb` and `m <= mb`.
pub proof fn lemma_mul_div_tz_le(v: int, m: int, d: int, vb: int, mb: int)
    requires
        0 < d,
        0 <= m <= mb,
        -vb <= v <= vb,
    ensures
        -((vb * mb) / d) <= spec_mul_div_tz(v, m, d) <= (vb * mb) / d,
{
    if v >= 0 {
        lemma_mul_inequality(v, vb, m);
        lemma_mul_inequality(m, mb, vb);
        assert(v * m <= vb * m);
        assert(vb * m == m * vb) by (nonlinear_arith);
        assert(mb * vb == vb * mb) by (nonlinear_arith);
        lemma_div_is_ordered(v * m, vb * mb, d);
        assert(0 <= v * m) by (nonlinear_arith)
            requires 0 <= v && 0 <= m;
        lemma_div_pos_is_pos(v * m, d);
    } else {
        lemma_mul_inequality(-v, vb, m);
        lemma_mul_inequality(m, mb, vb);
        assert((-v) * m <= vb * m);
        assert(vb * m == m * vb) by (nonlinear_arith);
        assert(mb * vb == vb * mb) by (nonlinear_arith);
        lemma_div_is_ordered((-v) * m, vb * mb, d);
        assert(0 <= (-v) * m) by (nonlinear_arith)
            requires 0 <= -v && 0 <= m;
        lemma_div_pos_is_pos((-v) * m, d);
    }
}

/// `v * m / d` rounded toward zero.
pub fn mul_div_tz(v: i64, m: i64, d: i64) -> (r: i64)
    requires
        0 <= m,
        0 < d,
        spec_mul_div_tz(v as int, m as int, d as int) <= i64::MAX,
        -(i64::MAX as int) <= spec_mul_div_tz(v as int, m as int, d as int),
    ensures
        r == spec_mul_div_tz(v as int, m as int, d as int),
{
    let vi: i128 = v as i128;
    let mi: i128 = m as i128;
    let di: i128 = d as i128;
    proof {
        assert(vi * mi <= i128::MAX && i128::MIN <= vi * mi
            && (-vi) * mi <= i128::MAX && i128::MIN <= (-vi) * mi) by (nonlinear_arith)
            requires
                -0x8000_0000_0000_0000 <= vi <= 0x7fff_ffff_ffff_ffff,
                0 <= mi <= 0x7fff_ffff_ffff_ffff;
        if v >= 0 {
            assert(0 <= vi as int * mi as int) by (nonlinear_arith)
                requires 0 <= vi && 0 <= mi;
            lemma_div_pos_is_pos(vi as int * mi as int, di as int);
        } else {
            assert(0 <= (-vi) as int * mi as int) by (nonlinear_arith)
                requires vi < 0 && 0 <= mi;
            lemma_div_pos_is_pos((-vi) as int * mi as int, di as int);
        }
    }
    if v >= 0 {
        let q: i128 = (vi * mi) / di;
        q as i64
    } else {
        let q: i128 = ((-vi) * mi) / di;
        (-q) as i64
    }
}

/// The point a fraction `num / den` of the way from `a` to `b`, rounded
/// toward `a`.
pub open spec fn spec_lerp(a: int, b: int, num: int, den: int) -> int {
    if b >= a {
        a + ((b - a) * num) / den
    } else {
        a - ((a - b) * num) / den
    }
}

/// For a fraction in [0, 1], the interpolated point lies between the two
/// endpoints.
pub proof fn lemma_lerp_bounds(a: int, b: int, num: int, den: int)
    requires
        0 < den,
        0 <= num <= den,
    ensures
        a <= b ==> a <= spec_lerp(a, b, num, den) <= b,
        a > b ==> b <= spec_lerp(a, b, num, den) <= a,
{
    if b >= a {
        let diff: int = b - a;
        assert(0 <= diff * num) by (nonlinear_arith)
            requires 0 <= diff && 0 <= num;
        lemma_div_pos_is_pos(diff * num, den);
        lemma_mul_inequality(num, den, diff);
        assert(num * diff == diff * num) by (nonlinear_arith);
        assert(den * diff == diff * den) by (nonlinear_arith);
        lemma_div_is_ordered(diff * num, diff * den, den);
        lemma_div_multiples_vanish(diff, den);
    } else {
        let diff: int = a - b;
        assert(0 <= diff * num) by (nonlinear_arith)
            requires 0 <= diff && 0 <= num;
        lemma_div_pos_is_pos(diff * num, den);
        lemma_mul_inequality(num, den, diff);
        assert(num * diff == diff * num) by (nonlinear_arith);
        assert(den * diff == diff * den) by (nonlinear_arith);
        lemma_div_is_ordered(diff * num, diff * den, den);
        lemma_div_multiples_vanish(diff, den);
    }
}

/// Linear interpolation between `a` and `b` by `num / den`, rounded toward
/// `a`; the result always lies between the endpoints.
pub fn lerp_i64(a: i64, b: i64, num: i64, den: i64) -> (r: i64)
    requires
        0 < den,
        0 <= num <= den,
    ensures
        r == spec_lerp(a as int, b as int, num as int, den as int),
        a <= b ==> a <= r <= b,
        a > b ==> b <= r <= a,
{
    proof {
        lemma_lerp_bounds(a as int, b as int, num as int, den as int);
    }
    let ai: i128 = a as i128;
    let bi: i128 = b as i128;
    let ni: i128 = num as i128;
    let di: i128 = den as i128;
    proof {
        assert((bi - ai) * ni <= i128::MAX && i128::MIN <= (bi - ai) * ni
            && (ai - bi) * ni <= i128::MAX && i128::MIN <= (ai - bi) * ni) by (nonlinear_arith)
            requires
                -0x1_0000_0000_0000_0000 <= bi - ai <= 0x1_0000_0000_0000_0000,
                0 <= ni <= 0x7fff_ffff_ffff_ffff;
        if b >= a {
            assert(0 <= (bi - ai) as int * ni as int) by (nonlinear_arith)
                requires ai <= bi && 0 <= ni;
            lemma_div_pos_is_pos((bi - ai) as int * ni as int, di as int);
        } else {
            assert(0 <= (ai - bi) as int * ni as int) by (nonlinear_arith)
                requires bi < ai && 0 <= ni;
            lemma_div_pos_is_pos((ai - bi) as int * ni as int, di as int);
        }
    }
    if b >= a {
        let q: i128 = ((bi - ai) * ni) / di;
        (ai + q) as i64
    } else {
        let q: i128 = ((ai - bi) * ni) / di;
        (ai - q) as i64
    }
}

/// The integer square root: the largest `r` with `r * r <= n`.
pub open spec fn spec_isqrt(n: nat) -> nat
    decreases n,
{
    if n == 0 {
        0
    } else {
        let p: nat = spec_isqrt((n - 1) as nat);
        if (p + 1) * (p + 1) <= n {
            p + 1
        } else {
            p
        }
    }
}

/// `r` is the integer square root of `n`.
pub open spec fn is_isqrt(r: int, n: int) -> bool {
    r * r <= n < (r + 1) * (r + 1)
}

/// The defining property of the integer square root.
pub proof fn lemma_isqrt_bounds(n: nat)
    ensures
        is_isqrt(spec_isqrt(n) as int, n as int),
    decreases n,
{
    if n > 0 {
        let p: int = spec_isqrt((n - 1) as nat) as int;
        lemma_isqrt_bounds((n - 1) as nat);
        if (p + 1) * (p + 1) <= n {
            assert(spec_isqrt(n) == p + 1);
            assert((p + 1) * (p + 1) < (p + 2) * (p + 2)) by (nonlinear_arith)
                requires p >= 0;
        } else {
            assert(spec_isqrt(n) == p);
        }
    }
}

/// Any `r` with `r * r <= n < (r + 1) * (r + 1)` is the integer square root.
pub proof fn lemma_isqrt_unique(n: nat, r: int)
    requires
        0 <= r,
        is_isqrt(r, n as int),
    ensures
        r == spec_isqrt(n),
{
    let s: int = spec_isqrt(n) as int;
    lemma_isqrt_bounds(n);
    if r < s {
        assert((r + 1) * (r + 1) <= s * s) by (nonlinear_arith)
            requires 0 <= r && r + 1 <= s;
    }
    if s < r {
        assert((s + 1) * (s + 1) <= r * r) by (nonlinear_arith)
            requires 0 <= s && s + 1 <= r;
    }
}

/// Integer square root of a 64-bit value, by binary search.
pub fn isqrt_u64(n: u64) -> (r: u64)
    ensures
        r == spec_isqrt(n as nat),
        is_isqrt(r as int, n as int),
        r < 0x1_0000_0000,
{
    let mut lo: u64 = 0;
    let mut hi: u64 = 0x1_0000_0000;
    assert((0x1_0000_0000int) * (0x1_0000_0000int) > u64::MAX);
    while lo + 1 < hi
        invariant
            lo < hi <= 0x1_0000_0000,
            (lo as int) * (lo as int) <= n,
            (n as int) < (hi as int) * (hi as int),
        decreases hi - lo,
    {
        let mid: u64 = lo + (hi - lo) / 2;
        proof {
            assert((mid as int) * (mid as int) <= u128::MAX) by (nonlinear_arith)
                requires 0 <= mid <= 0x1_0000_0000;
        }
        let sq: u128 = (mid as u128) * (mid as u128);
        if sq <= n as u128 {
            lo = mid;
        } else {
            hi = mid;
        }
    }
    proof {
        lemma_isqrt_unique(n as nat, lo as int);
    }
    lo
}

/// `x` clamped to the interval `[-lim, lim]`.
pub open spec fn spec_clamp(x: int, lim: int) -> int {
    if x > lim {
        lim
    } else if x < -lim {
        -lim
    } else {
        x
    }
}

/// Clamp `x` to `[-lim, lim]`.
pub fn clamp_i64(x: i64, lim: i64) -> (r: i64)
    requires
        0 <= lim,
    ensures
        r == spec_clamp(x as int, lim as int),
{
    if x > lim {
        lim
    } else if x < -lim {
        -lim
    } else {
        x
    }
}

} // verus!
