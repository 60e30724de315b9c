//! Shared fixed-point arithmetic: the global scale, the mathematical floor
//! square root with an executable implementation, and truncating signed
//! division as used by the kinematics solver.

use vstd::prelude::*;

verus! {

/// Number of integer steps per physical unit: quantities are carried in
/// micro-units (1 MeV = 1_000_000 steps, 1 degree = 1_000_000 steps, ...).
pub const SCALE: u64 = 1_000_000;

/// `r` is the floor of the real square root of `x`.
pub open spec fn is_sqrt_floor(x: int, r: int) -> bool {
    0 <= r && r * r <= x && x < (r + 1) * (r + 1)
}

/// The floor of the real square root of `x` (meaningful for `x >= 0`).
pub closed spec fn sqrt_floor(x: int) -> int {
    choose|r: int| is_sqrt_floor(x, r)
}

/// Every non-negative integer has a floor square root.
pub proof fn lemma_sqrt_floor_exists(x: int)
    requires
        0 <= x,
    ensures
        exists|r: int| #[trigger] is_sqrt_floor(x, r),
    decreases x,
{
    if x == 0 {
        assert(is_sqrt_floor(0, 0));
    } else {
        lemma_sqrt_floor_exists(x - 1);
        let r = choose|r: int| #[trigger] is_sqrt_floor(x - 1, r);
        if x < (r + 1) * (r + 1) {
            assert(is_sqrt_floor(x, r));
        } else {
            assert((r + 1) * (r + 1) == x);
            assert((r + 2) * (r + 2) > x) by (nonlinear_arith)
                requires
                    (r + 1) * (r + 1) == x && r >= 0,
            ;
            assert(is_sqrt_floor(x, r + 1));
        }
    }
}

/// The floor square root is unique.
pub proof fn lemma_sqrt_floor_unique(x: int, r1: int, r2: int)
    requires
        is_sqrt_floor(x, r1),
        is_sqrt_floor(x, r2),
    ensures
        r1 == r2,
{
    if r1 < r2 {
        assert((r1 + 1) * (r1 + 1) <= r2 * r2) by (nonlinear_arith)
            requires
                0 <= r1 && r1 < r2,
        ;
    }
    if r2 < r1 {
        assert((r2 + 1) * (r2 + 1) <= r1 * r1) by (nonlinear_arith)
            requires
                0 <= r2 && r2 < r1,
        ;
    }
}

/// `sqrt_floor(x)` satisfies the defining property when `x >= 0`.
pub proof fn lemma_sqrt_floor_def(x: int)
    requires
        0 <= x,
    ensures
        is_sqrt_floor(x, sqrt_floor(x)),
{
    lemma_sqrt_floor_exists(x);
}

/// A square-root result is bounded once its argument is: `x < (b+1)^2`
/// forces `sqrt_floor(x) <= b`.
pub proof fn lemma_sqrt_floor_bound(x: int, b: int)
    requires
        0 <= x,
        0 <= b,
        x < (b + 1) * (b + 1),
    ensures
        sqrt_floor(x) <= b,
{
    lemma_sqrt_floor_def(x);
    let r = sqrt_floor(x);
    if r > b {
        assert((b + 1) * (b + 1) <= r * r) by (nonlinear_arith)
            requires
                0 <= b && b < r,
        ;
    }
}

/// Floor square root of a 128-bit unsigned integer, by binary descent over
/// the bits of the result.
pub fn isqrt(x: u128) -> (r: u64)
    ensures
        r == sqrt_floor(x as int),
        is_sqrt_floor(x as int, r as int),
{
    let mut root: u128 = 0;
    let mut bit: u128 = 0x8000_0000_0000_0000;
    let ghost mut e: nat = 63;
    proof {
        vstd::arithmetic::power2::lemma2_to64();
        vstd::arithmetic::power2::lemma2_to64_rest();
        assert((root + 2 * bit) * (root + 2 * bit) > x) by (nonlinear_arith)
            requires
                root == 0 && bit == 0x8000_0000_0000_0000u128
                    && x <= 0xffff_ffff_ffff_ffff_ffff_ffff_ffff_ffffu128,
        ;
    }
    while bit > 0
        invariant
            root * root <= x,
            bit > 0 ==> bit == vstd::arithmetic::power2::pow2(e),
            bit > 0 ==> (root + 2 * bit) * (root + 2 * bit) > x,
            bit == 0 ==> (root + 1) * (root + 1) > x,
            root + 2 * bit <= 0x1_0000_0000_0000_0000u128,
        decreases bit,
    {
        let cand: u128 = root + bit;
        assert(cand * cand < 0x1_0000_0000_0000_0000_0000_0000_0000_0000) by (nonlinear_arith)
            requires
                0 <= cand && cand < 0x1_0000_0000_0000_0000u128,
        ;
        let next_bit: u128 = bit / 2;
        proof {
            vstd::arithmetic::power2::lemma2_to64();
            if e == 0 {
                assert(bit == 1);
                assert(next_bit == 0);
            } else {
                vstd::arithmetic::power2::lemma_pow2_unfold(e);
                assert(bit == 2 * vstd::arithmetic::power2::pow2((e - 1) as nat));
                assert(next_bit == vstd::arithmetic::power2::pow2((e - 1) as nat));
                vstd::arithmetic::power2::lemma_pow2_pos((e - 1) as nat);
                assert(2 * next_bit == bit);
            }
            if cand * cand <= x {
                if next_bit == 0 {
                    assert((cand + 1) * (cand + 1) == (root + 2 * bit) * (root + 2 * bit));
                } else {
                    assert(cand + 2 * next_bit == root + 2 * bit);
                }
            } else {
                if next_bit > 0 {
                    assert(root + 2 * next_bit == cand);
                }
            }
            e = if e == 0 { 0 } else { (e - 1) as nat };
        }
        if cand * cand <= x {
            root = cand;
        }
        bit = next_bit;
    }
    proof {
        lemma_sqrt_floor_unique(x as int, root as int, sqrt_floor(x as int));
        assert(root < 0x1_0000_0000_0000_0000u128) by (nonlinear_arith)
            requires
                root * root <= x && x < (root + 1) * (root + 1)
                    && x <= 0xffff_ffff_ffff_ffff_ffff_ffff_ffff_ffffu128 && root >= 0,
        ;
    }
    root as u64
}

/// Division that truncates toward zero, as the hardware division of signed
/// integers does (meaningful for `b > 0`).
pub open spec fn div_trunc(a: int, b: int) -> int {
    if a >= 0 {
        a / b
    } else {
        -((-a) / b)
    }
}

/// Truncating signed division on 128-bit integers.
pub fn div_i128(a: i128, b: i128) -> (q: i128)
    requires
        b >= 1,
        a > i128::MIN,
    ensures
        q == div_trunc(a as int, b as int),
{
    if a >= 0 {
        let q: u128 = (a as u128) / (b as u128);
        proof {
            assert((a as u128) as int == a as int);
            assert(q <= a as u128) by (nonlinear_arith)
                requires
                    b >= 1 && q == (a as u128) / (b as u128),
            ;
        }
        q as i128
    } else {
        let neg: u128 = (-a) as u128;
        let q: u128 = neg / (b as u128);
        proof {
            assert(neg as int == -(a as int));
            assert(q <= neg) by (nonlinear_arith)
                requires
                    b >= 1 && q == neg / (b as u128),
            ;
        }
        -(q as i128)
    }
}

} // verus!
