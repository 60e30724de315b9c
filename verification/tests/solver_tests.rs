//! Tests of the kinematics solver on single excitation levels, against
//! hand-computed reference values for the 12C(d,p)13C reaction.

use sps_kinematics::solver::{level_to_rho, SolveError, SolveInputs};

/// 12C(d,p)13C with a 16 MeV beam at 35 degrees in an 8.7 kG field, in
/// micro-units.
fn carbon_dp_inputs() -> SolveInputs {
    SolveInputs {
        mt: 11_174_862_000, // 12C, 11174.862 MeV
        mp: 1_875_612_000,  // deuteron, 1875.612 MeV
        me: 938_272_000,    // proton, 938.272 MeV
        mr: 12_109_481_000, // 13C, 12109.481 MeV
        ze: 1,
        eb: 16_000_000,
        theta: 35_000_000,
        b: 8_700_000,
    }
}

#[test]
fn ground_state_reference_value() {
    // Hand-computed reference: rho = 70.59 cm for the ground state.
    let rho = level_to_rho(&carbon_dp_inputs(), 0).unwrap();
    assert_eq!(rho, 70_589_997);
}

#[test]
fn ground_state_within_spectrometer_window() {
    let rho = level_to_rho(&carbon_dp_inputs(), 0).unwrap();
    assert!(69_000_000 <= rho && rho <= 87_000_000);
}

#[test]
fn first_excited_state_reference_value() {
    // The 4.439 MeV level comes out at lower rigidity than the ground state.
    let rho = level_to_rho(&carbon_dp_inputs(), 4_439_000).unwrap();
    assert_eq!(rho, 60_999_746);
}

#[test]
fn zero_beam_energy_is_accepted() {
    // Eb = 0 is a valid input; the Q-value alone drives the ejectile.
    let rho = level_to_rho(&carbon_dp_inputs(), 0);
    let inputs = SolveInputs { eb: 0, ..carbon_dp_inputs() };
    assert_eq!(level_to_rho(&inputs, 0), Ok(26_411_344));
    assert!(rho.is_ok());
}

#[test]
fn forbidden_level_is_reported() {
    // A 30 MeV excitation cannot be reached with a 16 MeV beam: the
    // discriminant turns negative and the level is flagged, not computed.
    let outcome = level_to_rho(&carbon_dp_inputs(), 30_000_000);
    assert_eq!(outcome, Err(SolveError::KinematicallyForbidden));
}

#[test]
fn zero_field_is_invalid() {
    let inputs = SolveInputs { b: 0, ..carbon_dp_inputs() };
    assert_eq!(level_to_rho(&inputs, 0), Err(SolveError::InvalidParameter));
}

#[test]
fn zero_charge_is_invalid() {
    let inputs = SolveInputs { ze: 0, ..carbon_dp_inputs() };
    assert_eq!(level_to_rho(&inputs, 0), Err(SolveError::InvalidParameter));
}

#[test]
fn negative_charge_is_invalid() {
    let inputs = SolveInputs { ze: -2, ..carbon_dp_inputs() };
    assert_eq!(level_to_rho(&inputs, 0), Err(SolveError::InvalidParameter));
}

#[test]
fn missing_mass_is_invalid() {
    let inputs = SolveInputs { mt: 0, ..carbon_dp_inputs() };
    assert_eq!(level_to_rho(&inputs, 0), Err(SolveError::InvalidParameter));
}

#[test]
fn excitation_beyond_envelope_is_invalid() {
    let outcome = level_to_rho(&carbon_dp_inputs(), 2_000_000_000_000);
    assert_eq!(outcome, Err(SolveError::InvalidParameter));
}

#[test]
fn full_turn_angle_matches_zero_angle() {
    let at_zero = SolveInputs { theta: 0, ..carbon_dp_inputs() };
    let at_full_turn = SolveInputs { theta: 360_000_000, ..carbon_dp_inputs() };
    let rho_zero = level_to_rho(&at_zero, 0).unwrap();
    let rho_full = level_to_rho(&at_full_turn, 0).unwrap();
    assert_eq!(rho_zero, rho_full);
    assert_eq!(rho_zero, 71_946_825);
}

#[test]
fn backward_angle_gives_lower_rigidity() {
    let backward = SolveInputs { theta: 180_000_000, ..carbon_dp_inputs() };
    assert_eq!(level_to_rho(&backward, 0), Ok(58_273_055));
}
