//! Headings in milliradians and a fixed-point sine, so that thrust along the
//! current heading is an exact, replayable integer computation.
//!
//! A full turn is `TAU_MRAD` milliradians.  `sin_milli` scales the sine of an
//! angle by 1000 using a rational approximation on each half turn; the exact
//! value of the approximation does not matter to the simulation, only that it
//! is a deterministic function of the angle with magnitude at most 1000.

use vstd::prelude::*;
use vstd::arithmetic::div_mod::{
    lemma_div_is_ordered,
    lemma_div_multiples_vanish,
    lemma_div_pos_is_pos,
    lemma_mod_multiples_vanish,
    lemma_mod_bound,
};

verus! {

/// Milliradians in a full turn.
pub const TAU_MRAD: i64 = 6283;

/// Milliradians in a half turn.
pub const PI_MRAD: i64 = 3141;

/// Milliradians in a quarter turn.
pub const HALF_PI_MRAD: i64 = 1571;

/// The sine scale: `sin_milli` of a quarter turn is close to this.
pub const SIN_SCALE: i64 = 1000;

/// Largest magnitude `wrap_angle` accepts; covers any heading delta one
/// rotation step can produce.
pub const WRAP_LIMIT: i64 = 1_200_000_000;

/// `TAU_MRAD * 200_000`, a multiple of the full turn larger than
/// `WRAP_LIMIT`.
pub const WRAP_SHIFT: i64 = 1_256_600_000;

/// An angle normalized into `[0, TAU_MRAD)`.
pub open spec fn spec_wrap_angle(a: int) -> int {
    a % (TAU_MRAD as int)
}

/// Normalize an angle into `[0, TAU_MRAD)` milliradians.
pub fn wrap_angle(a: i64) -> (r: i64)
    requires
        -WRAP_LIMIT <= a <= WRAP_LIMIT,
    ensures
        r == spec_wrap_angle(a as int),
        0 <= r < TAU_MRAD,
{
    let shifted: i64 = a + WRAP_SHIFT;
    proof {
        lemma_mod_multiples_vanish(200_000, a as int, TAU_MRAD as int);
        lemma_mod_bound(shifted as int, TAU_MRAD as int);
    }
    (shifted as u64 % (TAU_MRAD as u64)) as i64
}

/// The rational sine approximation on a half turn, scaled by 1000:
/// `16000 t / (49348022 - 4 t)` with `t = x (PI_MRAD - x)`.
pub open spec fn spec_sin_half(x: int) -> int {
    (16000 * (x * (PI_MRAD - x))) / (49_348_022 - 4 * (x * (PI_MRAD - x)))
}

/// Sine of an angle in `[0, TAU_MRAD)`, scaled by 1000.
pub open spec fn spec_sin_milli(a: int) -> int {
    if a <= PI_MRAD {
        spec_sin_half(a)
    } else {
        -spec_sin_half(a - PI_MRAD)
    }
}

/// Cosine of an angle in `[0, TAU_MRAD)`, scaled by 1000: the sine a quarter
/// turn ahead.
pub open spec fn spec_cos_milli(a: int) -> int {
    if a + HALF_PI_MRAD < TAU_MRAD {
        spec_sin_milli(a + HALF_PI_MRAD)
    } else {
        spec_sin_milli(a + HALF_PI_MRAD - TAU_MRAD)
    }
}

/// The half-turn approximation stays within `[0, SIN_SCALE]`.
proof fn lemma_sin_half_bounds(x: int)
    requires
        0 <= x <= PI_MRAD,
    ensures
        0 <= spec_sin_half(x) <= SIN_SCALE,
{
    let t: int = x * (PI_MRAD - x);
    assert(0 <= x * (3141 - x) <= 2_466_470) by (nonlinear_arith)
        requires 0 <= x <= 3141;
    let num: int = 16000 * t;
    let den: int = 49_348_022 - 4 * t;
    lemma_div_pos_is_pos(num, den);
    lemma_div_is_ordered(num, 1000 * den, den);
    assert(1000 * den == den * 1000);
    lemma_div_multiples_vanish(1000, den);
}

/// The scaled sine of any normalized angle has magnitude at most
/// `SIN_SCALE`.
pub proof fn lemma_sin_milli_bounds(a: int)
    requires
        0 <= a < TAU_MRAD,
    ensures
        -SIN_SCALE <= spec_sin_milli(a) <= SIN_SCALE,
{
    if a <= PI_MRAD {
        lemma_sin_half_bounds(a);
    } else {
        lemma_sin_half_bounds(a - PI_MRAD);
    }
}

/// The scaled cosine of any normalized angle has magnitude at most
/// `SIN_SCALE`.
pub proof fn lemma_cos_milli_bounds(a: int)
    requires
        0 <= a < TAU_MRAD,
    ensures
        -SIN_SCALE <= spec_cos_milli(a) <= SIN_SCALE,
{
    if a + HALF_PI_MRAD < TAU_MRAD {
        lemma_sin_milli_bounds(a + HALF_PI_MRAD);
    } else {
        lemma_sin_milli_bounds(a + HALF_PI_MRAD - TAU_MRAD);
    }
}

/// Sine of a normalized angle, scaled by 1000.
pub fn sin_milli(a: i64) -> (r: i64)
    requires
        0 <= a < TAU_MRAD,
    ensures
        r == spec_sin_milli(a as int),
        -SIN_SCALE <= r <= SIN_SCALE,
{
    proof {
        lemma_sin_milli_bounds(a as int);
    }
    if a <= PI_MRAD {
        proof {
            lemma_sin_half_bounds(a as int);
        }
        proof {
            assert(0 <= (a as int) * (3141 - a as int) <= 2_466_470) by (nonlinear_arith)
                requires 0 <= a <= 3141;
        }
        let t: i64 = a * (PI_MRAD - a);
        (16000 * t) / (49_348_022 - 4 * t)
    } else {
        let x: i64 = a - PI_MRAD;
        proof {
            lemma_sin_half_bounds(x as int);
        }
        proof {
            assert(0 <= (x as int) * (3141 - x as int) <= 2_466_470) by (nonlinear_arith)
                requires 0 <= x <= 3141;
        }
        let t: i64 = x * (PI_MRAD - x);
        -((16000 * t) / (49_348_022 - 4 * t))
    }
}

/// Cosine of a normalized angle, scaled by 1000.
pub fn cos_milli(a: i64) -> (r: i64)
    requires
        0 <= a < TAU_MRAD,
    ensures
        r == spec_cos_milli(a as int),
        -SIN_SCALE <= r <= SIN_SCALE,
{
    let b: i64 = a + HALF_PI_MRAD;
    if b < TAU_MRAD {
        sin_milli(b)
    } else {
        sin_milli(b - TAU_MRAD)
    }
}

} // verus!
