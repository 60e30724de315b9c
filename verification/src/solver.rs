//! The kinematics solver: from the four masses of a two-body reaction, the
//! beam energy, the spectrometer angle and field, and one excitation energy
//! of the residual nucleus, to the magnetic rigidity of the ejectile.
//!
//! The computation follows non-relativistic two-body reaction kinematics:
//! the excited-state Q-value feeds a quadratic in the square root of the
//! ejectile energy; the forward-going root is selected, squared, converted
//! to a momentum, and divided by the field and charge to give the rigidity.
//! Everything is exact integer arithmetic on micro-units, so the contract
//! pins the result completely.

use vstd::arithmetic::div_mod::{
    lemma_div_is_ordered, lemma_div_is_ordered_by_denominator, lemma_div_nonincreasing,
    lemma_div_pos_is_pos,
};
use vstd::arithmetic::mul::lemma_mul_upper_bound;
use vstd::prelude::*;

use crate::cosine::{cos_scaled, cos_scaled_spec, COS_ENVELOPE};
use crate::math::{div_i128, div_trunc, is_sqrt_floor, isqrt, lemma_sqrt_floor_bound, sqrt_floor,
    SCALE};

verus! {

/// Speed of light in metres per second, exactly.
pub const SPEED_OF_LIGHT: u64 = 299_792_458;

/// Smallest accepted rest mass, in micro-MeV (a tenth of an MeV): a reaction
/// partner lighter than this is not a nucleus.
pub const MASS_MIN: u64 = 100_000;

/// Largest accepted rest mass, in micro-MeV (a million MeV).
pub const MASS_MAX: u64 = 1_000_000_000_000;

/// Largest accepted beam or excitation energy, in micro-MeV.
pub const ENERGY_MAX: u64 = 1_000_000_000_000;

/// Largest accepted magnetic field, in micro-kilogauss (a thousand kG).
pub const FIELD_MAX: u64 = 1_000_000_000;

/// Largest accepted ejectile charge number.
pub const CHARGE_MAX: i32 = 10_000;

/// Largest scaled ejectile energy the solver converts to a momentum; beyond
/// it the configuration is refused as non-physical.
pub const KE_SCALED_MAX: u128 = 1_000_000_000_000_000_000;

/// Largest rigidity the solver reports, in micro-centimetres; beyond it the
/// configuration is refused as non-physical.
pub const RHO_MAX: u128 = 10_000_000_000_000_000_000;

/// The resolved physical inputs of one solver run, shared by every
/// excitation level of a reaction.  Masses and the beam energy are in
/// micro-MeV, the angle in micro-degrees, the field in micro-kilogauss.
#[derive(Clone, Copy, Debug, PartialEq, Eq, Structural)]
pub struct SolveInputs {
    /// Target rest mass.
    pub mt: u64,
    /// Projectile rest mass.
    pub mp: u64,
    /// Ejectile rest mass.
    pub me: u64,
    /// Residual rest mass.
    pub mr: u64,
    /// Ejectile charge number.
    pub ze: i32,
    /// Beam kinetic energy.
    pub eb: u64,
    /// Spectrometer angle.
    pub theta: u64,
    /// Magnetic field.
    pub b: u64,
}

/// Why a single excitation level produced no rigidity.
#[derive(Clone, Copy, Debug, PartialEq, Eq, Structural)]
pub enum SolveError {
    /// The discriminant of the energy quadratic is negative: the reaction
    /// cannot reach this level at this angle and beam energy.
    KinematicallyForbidden,
    /// A mass, charge, field or energy lies outside the physical envelope
    /// the solver accepts.
    InvalidParameter,
}

/// The level-independent inputs lie within the envelope the solver accepts.
pub open spec fn valid_global(inp: SolveInputs) -> bool {
    &&& MASS_MIN <= inp.mt <= MASS_MAX
    &&& MASS_MIN <= inp.mp <= MASS_MAX
    &&& MASS_MIN <= inp.me <= MASS_MAX
    &&& MASS_MIN <= inp.mr <= MASS_MAX
    &&& 1 <= inp.ze <= CHARGE_MAX
    &&& inp.eb <= ENERGY_MAX
    &&& 1 <= inp.b <= FIELD_MAX
}

/// The excitation energy lies within the envelope the solver accepts.
pub open spec fn valid_level(ex: u64) -> bool {
    ex <= ENERGY_MAX
}

/// Ground-state Q-value of the reaction: mass-energy of the reactants minus
/// that of the products.
pub open spec fn q_value_spec(inp: SolveInputs) -> int {
    inp.mt + inp.mp - inp.me - inp.mr
}

/// The common denominator of the kinematic terms: ejectile plus residual
/// mass.
pub open spec fn denom_spec(inp: SolveInputs) -> int {
    inp.me + inp.mr
}

/// First kinematic term, scaled by `SCALE`:
/// `sqrt(Mp * Me * Eb) / (Me + Mr) * cos(theta)`.
pub open spec fn term1_spec(inp: SolveInputs) -> int {
    let root = sqrt_floor((inp.mp * inp.me * inp.eb) / (SCALE as int));
    div_trunc(root * cos_scaled_spec(inp.theta as int), denom_spec(inp))
}

/// Second kinematic term, scaled by `SCALE`:
/// `(Eb * (Mr - Mp) + Mr * (Q - Ex)) / (Me + Mr)`.
pub open spec fn term2_spec(inp: SolveInputs, ex: int) -> int {
    div_trunc(inp.eb * (inp.mr - inp.mp) + inp.mr * (q_value_spec(inp) - ex), denom_spec(inp))
}

/// Discriminant of the energy quadratic, scaled by `SCALE` squared:
/// `term1^2 + term2`.  Negative exactly when the level is closed.
pub open spec fn disc_spec(inp: SolveInputs, ex: int) -> int {
    term1_spec(inp) * term1_spec(inp) + term2_spec(inp, ex) * (SCALE as int)
}

/// Ejectile kinetic energy, scaled by `SCALE`: the square of the selected
/// root of the quadratic.  The forward-going root `term1 + sqrt(disc)` is
/// taken when positive, the other root otherwise.
pub open spec fn ke_scaled_spec(inp: SolveInputs, ex: int) -> int {
    let t1 = term1_spec(inp);
    let sq = sqrt_floor(disc_spec(inp, ex));
    let k = if t1 + sq > 0 {
        t1 + sq
    } else {
        t1 - sq
    };
    (k * k) / (SCALE as int)
}

/// Ejectile momentum, scaled by `SCALE`: `sqrt(T * (T + 2 * Me))`.
pub open spec fn momentum_scaled_spec(inp: SolveInputs, ex: int) -> int {
    let ke = ke_scaled_spec(inp, ex);
    sqrt_floor(ke * (ke + 2 * inp.me))
}

/// Magnetic rigidity of the ejectile in micro-centimetres: the momentum is
/// turned into `q * B * rho` through the conversion constant `10^-9 * c`,
/// then divided by field and charge.
pub open spec fn rho_spec(inp: SolveInputs, ex: int) -> int {
    (momentum_scaled_spec(inp, ex) * 1_000_000_000 * (SCALE as int)) / (
    (SPEED_OF_LIGHT as int) * inp.b * inp.ze)
}

/// The complete outcome of solving one excitation level: the rigidity, or
/// the reason the level is skipped.
pub open spec fn level_outcome_spec(inp: SolveInputs, ex: u64) -> Result<u64, SolveError> {
    if !(valid_global(inp) && valid_level(ex)) {
        Err(SolveError::InvalidParameter)
    } else if disc_spec(inp, ex as int) < 0 {
        Err(SolveError::KinematicallyForbidden)
    } else if ke_scaled_spec(inp, ex as int) > KE_SCALED_MAX
        || rho_spec(inp, ex as int) > RHO_MAX {
        Err(SolveError::InvalidParameter)
    } else {
        Ok(rho_spec(inp, ex as int) as u64)
    }
}

/// Decide whether the level-independent inputs lie within the envelope the
/// solver accepts.
pub fn is_valid_global(inp: &SolveInputs) -> (ok: bool)
    ensures
        ok == valid_global(*inp),
{
    MASS_MIN <= inp.mt && inp.mt <= MASS_MAX && MASS_MIN <= inp.mp && inp.mp <= MASS_MAX
        && MASS_MIN <= inp.me && inp.me <= MASS_MAX && MASS_MIN <= inp.mr && inp.mr <= MASS_MAX
        && 1 <= inp.ze && inp.ze <= CHARGE_MAX && inp.eb <= ENERGY_MAX && 1 <= inp.b
        && inp.b <= FIELD_MAX
}

/// For every valid configuration whose discriminant is non-negative, the
/// rigidity the solver derives is itself non-negative; with the integer
/// model it is finite by construction.
pub proof fn lemma_rho_nonnegative(inp: SolveInputs, ex: u64)
    requires
        valid_global(inp),
        valid_level(ex),
        disc_spec(inp, ex as int) >= 0,
    ensures
        0 <= rho_spec(inp, ex as int),
{
    let t1 = term1_spec(inp);
    let sq = sqrt_floor(disc_spec(inp, ex as int));
    let k = if t1 + sq > 0 {
        t1 + sq
    } else {
        t1 - sq
    };
    assert(k * k >= 0) by (nonlinear_arith);
    vstd::arithmetic::div_mod::lemma_div_pos_is_pos(k * k, SCALE as int);
    let ke = ke_scaled_spec(inp, ex as int);
    assert(ke >= 0);
    assert(ke * (ke + 2 * inp.me) >= 0) by (nonlinear_arith)
        requires
            ke >= 0 && inp.me >= 0,
    ;
    crate::math::lemma_sqrt_floor_def(ke * (ke + 2 * inp.me));
    let p = momentum_scaled_spec(inp, ex as int);
    assert(p >= 0);
    assert(p * 1_000_000_000 * (SCALE as int) >= 0) by (nonlinear_arith)
        requires
            p >= 0,
    ;
    assert((SPEED_OF_LIGHT as int) * inp.b * inp.ze >= 1) by (nonlinear_arith)
        requires
            inp.b >= 1 && inp.ze >= 1,
    ;
    vstd::arithmetic::div_mod::lemma_div_pos_is_pos(p * 1_000_000_000 * (SCALE as int),
        (SPEED_OF_LIGHT as int) * inp.b * inp.ze);
}

/// Solve one excitation level: compute the rigidity at which the ejectile
/// leaving the residual in the state `ex` is bent, or report why the level
/// yields none.  The result is pinned to [`level_outcome_spec`].
pub fn level_to_rho(inp: &SolveInputs, ex: u64) -> (r: Result<u64, SolveError>)
    ensures
        r == level_outcome_spec(*inp, ex),
{
    if !(is_valid_global(inp) && ex <= ENERGY_MAX) {
        return Err(SolveError::InvalidParameter);
    }

    // sqrt(Mp * Me * Eb), scaled by SCALE.
    proof {
        lemma_mul_upper_bound(inp.mp as int, MASS_MAX as int, inp.me as int, MASS_MAX as int);
        assert((inp.mp as int) * (inp.me as int) >= 0) by (nonlinear_arith)
            requires
                inp.mp >= 0 && inp.me >= 0,
        ;
        lemma_mul_upper_bound((inp.mp as int) * (inp.me as int),
            1_000_000_000_000_000_000_000_000, inp.eb as int, ENERGY_MAX as int);
        assert((inp.mp as int) * (inp.me as int) * (inp.eb as int) >= 0) by (nonlinear_arith)
            requires
                (inp.mp as int) * (inp.me as int) >= 0 && inp.eb >= 0,
        ;
    }
    let prod: u128 = (inp.mp as u128) * (inp.me as u128) * (inp.eb as u128);
    let prod_scaled: u128 = prod / (SCALE as u128);
    proof {
        lemma_div_is_ordered(prod as int, 1_000_000_000_000_000_000_000_000_000_000_000_000,
            SCALE as int);
        lemma_div_pos_is_pos(prod as int, SCALE as int);
        assert((1_000_000_000_000_000int + 1) * (1_000_000_000_000_000int + 1) > prod_scaled)
            by (nonlinear_arith)
            requires
                prod_scaled <= 1_000_000_000_000_000_000_000_000_000_000,
        ;
        lemma_sqrt_floor_bound(prod_scaled as int, 1_000_000_000_000_000);
    }
    let root1: u64 = isqrt(prod_scaled);
    assert(root1 <= 1_000_000_000_000_000);

    // term1 = root1 * cos(theta) / (Me + Mr), truncated toward zero.
    let cos: i64 = cos_scaled(inp.theta);
    let cos_abs: u64 = if cos >= 0 {
        cos as u64
    } else {
        (-cos) as u64
    };
    let denom: u64 = inp.me + inp.mr;
    assert(denom as int == denom_spec(*inp));
    proof {
        lemma_mul_upper_bound(root1 as int, 1_000_000_000_000_000, cos_abs as int,
            COS_ENVELOPE as int);
        assert((root1 as int) * (cos_abs as int) >= 0) by (nonlinear_arith)
            requires
                root1 >= 0 && cos_abs >= 0,
        ;
    }
    let t1_num: u128 = (root1 as u128) * (cos_abs as u128);
    let t1_mag: u128 = t1_num / (denom as u128);
    proof {
        lemma_div_is_ordered_by_denominator(t1_num as int, 200_000, denom as int);
        lemma_div_is_ordered(t1_num as int, 2_000_000_000_000_000_000_000, 200_000);
        lemma_div_pos_is_pos(t1_num as int, denom as int);
    }
    assert(t1_mag <= 10_000_000_000_000_000);
    let t1: i128 = if cos >= 0 {
        t1_mag as i128
    } else {
        -(t1_mag as i128)
    };
    proof {
        let c = cos_scaled_spec(inp.theta as int);
        if cos >= 0 {
            assert(t1 == div_trunc((root1 as int) * c, denom as int));
        } else {
            assert((root1 as int) * c == -((root1 as int) * (cos_abs as int)))
                by (nonlinear_arith)
                requires
                    c == -(cos_abs as int),
            ;
            assert(t1 == div_trunc((root1 as int) * c, denom as int));
        }
        assert(t1 == term1_spec(*inp));
    }

    // term2 = (Eb * (Mr - Mp) + Mr * (Q - Ex)) / (Me + Mr), truncated.
    let q0: i128 = inp.mt as i128 + inp.mp as i128 - inp.me as i128 - inp.mr as i128;
    let q_ex: i128 = q0 - ex as i128;
    proof {
        assert(-1_000_000_000_000_000_000_000_000 <= (inp.eb as int) * ((inp.mr as int) - (
        inp.mp as int)) <= 1_000_000_000_000_000_000_000_000) by (nonlinear_arith)
            requires
                0 <= inp.eb <= 1_000_000_000_000 && -1_000_000_000_000 <= (inp.mr as int) - (
                inp.mp as int) <= 1_000_000_000_000,
        ;
        assert(-5_000_000_000_000_000_000_000_000 <= (inp.mr as int) * (q_ex as int)
            <= 5_000_000_000_000_000_000_000_000) by (nonlinear_arith)
            requires
                0 <= inp.mr <= 1_000_000_000_000 && -5_000_000_000_000 <= q_ex
                    <= 5_000_000_000_000,
        ;
    }
    let num2: i128 = (inp.eb as i128) * (inp.mr as i128 - inp.mp as i128) + (inp.mr as i128)
        * q_ex;
    let t2: i128 = div_i128(num2, denom as i128);
    proof {
        assert(t2 == term2_spec(*inp, ex as int));
        if num2 >= 0 {
            lemma_div_nonincreasing(num2 as int, denom as int);
            lemma_div_pos_is_pos(num2 as int, denom as int);
        } else {
            lemma_div_nonincreasing(-(num2 as int), denom as int);
            lemma_div_pos_is_pos(-(num2 as int), denom as int);
        }
        assert(-6_000_000_000_000_000_000_000_000 <= t2 <= 6_000_000_000_000_000_000_000_000);
    }

    // Discriminant, scaled by SCALE squared.
    proof {
        assert(0 <= (t1 as int) * (t1 as int) <= 100_000_000_000_000_000_000_000_000_000_000)
            by (nonlinear_arith)
            requires
                -10_000_000_000_000_000 <= t1 <= 10_000_000_000_000_000,
        ;
        assert(-6_000_000_000_000_000_000_000_000_000_000 <= (t2 as int) * (SCALE as int)
            <= 6_000_000_000_000_000_000_000_000_000_000) by (nonlinear_arith)
            requires
                -6_000_000_000_000_000_000_000_000 <= t2 <= 6_000_000_000_000_000_000_000_000,
        ;
    }
    let disc: i128 = t1 * t1 + t2 * (SCALE as i128);
    assert(disc as int == disc_spec(*inp, ex as int));
    if disc < 0 {
        return Err(SolveError::KinematicallyForbidden);
    }

    // Selected root of the quadratic, and the ejectile energy (scaled).
    proof {
        assert((11_000_000_000_000_000int + 1) * (11_000_000_000_000_000int + 1) > disc)
            by (nonlinear_arith)
            requires
                disc <= 106_000_000_000_000_000_000_000_000_000_000,
        ;
        lemma_sqrt_floor_bound(disc as int, 11_000_000_000_000_000);
    }
    let sq_disc: u64 = isqrt(disc as u128);
    assert(sq_disc <= 11_000_000_000_000_000);
    let k_plus: i128 = t1 + sq_disc as i128;
    let k: i128 = if k_plus > 0 {
        k_plus
    } else {
        t1 - sq_disc as i128
    };
    assert(-21_000_000_000_000_000 <= k <= 21_000_000_000_000_000);
    proof {
        assert(0 <= (k as int) * (k as int) <= 441_000_000_000_000_000_000_000_000_000_000)
            by (nonlinear_arith)
            requires
                -21_000_000_000_000_000 <= k <= 21_000_000_000_000_000,
        ;
    }
    let k_sq: i128 = k * k;
    let ke_scaled: u128 = (k_sq as u128) / (SCALE as u128);
    proof {
        lemma_div_pos_is_pos(k_sq as int, SCALE as int);
        assert(ke_scaled as int == ke_scaled_spec(*inp, ex as int));
    }
    if ke_scaled > KE_SCALED_MAX {
        return Err(SolveError::InvalidParameter);
    }

    // Momentum (scaled), then rigidity.
    proof {
        lemma_mul_upper_bound(ke_scaled as int, KE_SCALED_MAX as int, ke_scaled + 2 * (
        inp.me as int), KE_SCALED_MAX as int + 2_000_000_000_000);
        assert((ke_scaled as int) * (ke_scaled + 2 * (inp.me as int)) >= 0)
            by (nonlinear_arith)
            requires
                ke_scaled >= 0 && inp.me >= 0,
        ;
    }
    let p_sq: u128 = ke_scaled * (ke_scaled + 2 * (inp.me as u128));
    proof {
        assert((1_000_001_000_000_000_000int + 1) * (1_000_001_000_000_000_000int + 1) > p_sq)
            by (nonlinear_arith)
            requires
                p_sq <= 1_000_002_000_000_000_000_000_000_000_000_000_000,
        ;
        lemma_sqrt_floor_bound(p_sq as int, 1_000_001_000_000_000_000);
    }
    let p_scaled: u64 = isqrt(p_sq);
    assert(p_scaled <= 1_000_001_000_000_000_000);
    assert(p_scaled as int == momentum_scaled_spec(*inp, ex as int));

    proof {
        lemma_mul_upper_bound(p_scaled as int, 1_000_001_000_000_000_000, 1_000_000_000_000_000,
            1_000_000_000_000_000);
        assert((p_scaled as int) * 1_000_000_000_000_000 >= 0) by (nonlinear_arith)
            requires
                p_scaled >= 0,
        ;
        assert(299_792_458 <= (SPEED_OF_LIGHT as int) * (inp.b as int)
            <= 299_792_458_000_000_000) by (nonlinear_arith)
            requires
                1 <= inp.b <= 1_000_000_000,
        ;
        assert(299_792_458 <= ((SPEED_OF_LIGHT as int) * (inp.b as int)) * (inp.ze as int)
            <= 2_997_924_580_000_000_000_000) by (nonlinear_arith)
            requires
                299_792_458 <= (SPEED_OF_LIGHT as int) * (inp.b as int)
                    <= 299_792_458_000_000_000 && 1 <= inp.ze <= 10_000,
        ;
    }
    let rho_num: u128 = (p_scaled as u128) * 1_000_000_000 * (SCALE as u128);
    let rho_den: u128 = (SPEED_OF_LIGHT as u128) * (inp.b as u128) * (inp.ze as u128);
    proof {
        assert(rho_num as int == (p_scaled as int) * 1_000_000_000 * (SCALE as int));
        assert(rho_den as int == (SPEED_OF_LIGHT as int) * (inp.b as int) * (inp.ze as int));
        lemma_div_pos_is_pos(rho_num as int, rho_den as int);
    }
    let rho: u128 = rho_num / rho_den;
    assert(rho as int == rho_spec(*inp, ex as int));
    if rho > RHO_MAX {
        return Err(SolveError::InvalidParameter);
    }
    Ok(rho as u64)
}

} // verus!
