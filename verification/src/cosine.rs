//! Fixed-point cosine of a spectrometer angle given in micro-degrees.
//!
//! The angle is reduced to the first quadrant by the symmetries of the
//! cosine, converted to micro-radians, and evaluated with the degree-ten
//! Taylor polynomial of the cosine, all in exact integer arithmetic.  The
//! result is the cosine scaled by [`SCALE`], accurate to a few micro-units
//! over the whole circle.

use vstd::arithmetic::div_mod::lemma_div_is_ordered;
use vstd::arithmetic::mul::lemma_mul_upper_bound;
use vstd::prelude::*;

use crate::math::SCALE;

verus! {

/// One full turn, in micro-degrees.
pub const FULL_TURN: u64 = 360_000_000;

/// Half a turn, in micro-degrees.
pub const HALF_TURN: u64 = 180_000_000;

/// A quarter turn, in micro-degrees.
pub const QUARTER_TURN: u64 = 90_000_000;

/// pi / 180 as the ratio RAD_PER_DEG_NUM / RAD_PER_DEG_DEN, so that an angle
/// in micro-degrees times this ratio is the same angle in micro-radians.
pub const RAD_PER_DEG_NUM: u64 = 17_453_292_519_943_295;

/// Denominator of the degree-to-radian ratio.
pub const RAD_PER_DEG_DEN: u64 = 1_000_000_000_000_000_000;

/// Every scaled cosine lies strictly within this coarse envelope (the exact
/// value stays near `SCALE`; the envelope only serves overflow reasoning).
pub const COS_ENVELOPE: i64 = 2_000_000;

/// A first-quadrant angle in micro-degrees, as micro-radians (rounded down).
pub open spec fn micro_radians(ang: int) -> int {
    (ang * (RAD_PER_DEG_NUM as int)) / (RAD_PER_DEG_DEN as int)
}

/// Degree-ten Taylor polynomial of the cosine at `x` micro-radians, scaled
/// by `SCALE`, with every intermediate power rounded down to micro-units.
pub open spec fn cos_poly(x: int) -> int {
    let x2 = (x * x) / (SCALE as int);
    let x4 = (x2 * x2) / (SCALE as int);
    let x6 = (x4 * x2) / (SCALE as int);
    let x8 = (x4 * x4) / (SCALE as int);
    let x10 = (x8 * x2) / (SCALE as int);
    (SCALE as int) - x2 / 2 + x4 / 24 - x6 / 720 + x8 / 40_320 - x10 / 3_628_800
}

/// The equivalent first-quadrant angle of `theta`, in micro-degrees.
pub open spec fn folded_angle(theta: int) -> int {
    let th = theta % (FULL_TURN as int);
    if th <= QUARTER_TURN as int {
        th
    } else if th <= HALF_TURN as int {
        (HALF_TURN as int) - th
    } else if th <= 270_000_000 {
        th - (HALF_TURN as int)
    } else {
        (FULL_TURN as int) - th
    }
}

/// Whether `theta` lies in the half of the circle where the cosine is
/// negative (second and third quadrants).
pub open spec fn cos_is_negated(theta: int) -> bool {
    let th = theta % (FULL_TURN as int);
    (QUARTER_TURN as int) < th <= 270_000_000
}

/// The scaled cosine of `theta` micro-degrees.
pub open spec fn cos_scaled_spec(theta: int) -> int {
    let poly = cos_poly(micro_radians(folded_angle(theta)));
    if cos_is_negated(theta) {
        -poly
    } else {
        poly
    }
}

/// The polynomial stays within the coarse envelope on the first quadrant.
pub proof fn lemma_cos_poly_envelope(x: int)
    requires
        0 <= x <= 1_570_796,
    ensures
        -254_588 <= cos_poly(x) <= 1_254_588,
{
    let s = SCALE as int;
    lemma_mul_upper_bound(x, 1_570_796, x, 1_570_796);
    lemma_div_is_ordered(x * x, 2_467_400_073_616, s);
    let x2 = (x * x) / s;
    assert(x * x >= 0) by (nonlinear_arith)
        requires
            x >= 0,
    ;
    assert(x2 <= 2_467_400);
    assert(x2 >= 0);
    let x4 = (x2 * x2) / s;
    lemma_mul_upper_bound(x2, 2_467_400, x2, 2_467_400);
    lemma_div_is_ordered(x2 * x2, 6_088_062_760_000, s);
    assert(x2 * x2 >= 0) by (nonlinear_arith)
        requires
            x2 >= 0,
    ;
    assert(0 <= x4 <= 6_088_062);
    let x6 = (x4 * x2) / s;
    lemma_mul_upper_bound(x4, 6_088_062, x2, 2_467_400);
    lemma_div_is_ordered(x4 * x2, 15_021_684_178_800, s);
    assert(x4 * x2 >= 0) by (nonlinear_arith)
        requires
            x4 >= 0 && x2 >= 0,
    ;
    assert(0 <= x6 <= 15_021_684);
    let x8 = (x4 * x4) / s;
    lemma_mul_upper_bound(x4, 6_088_062, x4, 6_088_062);
    lemma_div_is_ordered(x4 * x4, 37_064_498_915_844, s);
    assert(x4 * x4 >= 0) by (nonlinear_arith)
        requires
            x4 >= 0,
    ;
    assert(0 <= x8 <= 37_064_498);
    let x10 = (x8 * x2) / s;
    lemma_mul_upper_bound(x8, 37_064_498, x2, 2_467_400);
    lemma_div_is_ordered(x8 * x2, 91_452_942_365_200, s);
    assert(x8 * x2 >= 0) by (nonlinear_arith)
        requires
            x8 >= 0 && x2 >= 0,
    ;
    assert(0 <= x10 <= 91_452_942);
}

/// The scaled cosine of an angle in micro-degrees.
pub fn cos_scaled(theta: u64) -> (c: i64)
    ensures
        c == cos_scaled_spec(theta as int),
        -COS_ENVELOPE < c < COS_ENVELOPE,
{
    let th: u64 = theta % FULL_TURN;
    let neg: bool;
    let ang: u64;
    if th <= QUARTER_TURN {
        neg = false;
        ang = th;
    } else if th <= HALF_TURN {
        neg = true;
        ang = HALF_TURN - th;
    } else if th <= 270_000_000 {
        neg = true;
        ang = th - HALF_TURN;
    } else {
        neg = false;
        ang = FULL_TURN - th;
    }
    assert(ang as int == folded_angle(theta as int));
    assert(neg == cos_is_negated(theta as int));
    assert(ang <= QUARTER_TURN);

    proof {
        lemma_mul_upper_bound(ang as int, QUARTER_TURN as int, RAD_PER_DEG_NUM as int,
            RAD_PER_DEG_NUM as int);
        lemma_div_is_ordered((ang as int) * (RAD_PER_DEG_NUM as int),
            1_570_796_326_794_896_550_000_000, RAD_PER_DEG_DEN as int);
        assert((ang as int) * (RAD_PER_DEG_NUM as int) >= 0) by (nonlinear_arith)
            requires
                ang >= 0,
        ;
    }
    let xw: u128 = (ang as u128) * (RAD_PER_DEG_NUM as u128);
    let x: u64 = (xw / (RAD_PER_DEG_DEN as u128)) as u64;
    assert(x as int == micro_radians(ang as int));
    assert(x <= 1_570_796);

    proof {
        lemma_mul_upper_bound(x as int, 1_570_796, x as int, 1_570_796);
        assert((x as int) * (x as int) >= 0) by (nonlinear_arith)
            requires
                x >= 0,
        ;
    }
    let x2: u64 = (x * x) / SCALE;
    proof {
        lemma_div_is_ordered((x as int) * (x as int), 2_467_400_073_616, SCALE as int);
        lemma_mul_upper_bound(x2 as int, 2_467_400, x2 as int, 2_467_400);
        assert((x2 as int) * (x2 as int) >= 0) by (nonlinear_arith)
            requires
                x2 >= 0,
        ;
    }
    let x4: u64 = (x2 * x2) / SCALE;
    proof {
        lemma_div_is_ordered((x2 as int) * (x2 as int), 6_088_062_760_000, SCALE as int);
        lemma_mul_upper_bound(x4 as int, 6_088_062, x2 as int, 2_467_400);
        assert((x4 as int) * (x2 as int) >= 0) by (nonlinear_arith)
            requires
                x4 >= 0 && x2 >= 0,
        ;
    }
    let x6: u64 = (x4 * x2) / SCALE;
    proof {
        lemma_div_is_ordered((x4 as int) * (x2 as int), 15_021_684_178_800, SCALE as int);
        lemma_mul_upper_bound(x4 as int, 6_088_062, x4 as int, 6_088_062,);
        assert((x4 as int) * (x4 as int) >= 0) by (nonlinear_arith)
            requires
                x4 >= 0,
        ;
    }
    let x8: u64 = (x4 * x4) / SCALE;
    proof {
        lemma_div_is_ordered((x4 as int) * (x4 as int), 37_064_498_915_844, SCALE as int);
        lemma_mul_upper_bound(x8 as int, 37_064_498, x2 as int, 2_467_400);
        assert((x8 as int) * (x2 as int) >= 0) by (nonlinear_arith)
            requires
                x8 >= 0 && x2 >= 0,
        ;
    }
    let x10: u64 = (x8 * x2) / SCALE;
    proof {
        lemma_div_is_ordered((x8 as int) * (x2 as int), 91_452_942_365_200, SCALE as int);
    }

    let poly: i64 = 1_000_000 - (x2 / 2) as i64 + (x4 / 24) as i64 - (x6 / 720) as i64 + (x8
        / 40_320) as i64 - (x10 / 3_628_800) as i64;
    proof {
        lemma_cos_poly_envelope(x as int);
        assert(poly == cos_poly(x as int));
    }
    if neg {
        -poly
    } else {
        poly
    }
}

} // verus!
