//! Tests of batch evaluation: the end-to-end 12C(d,p)13C scenario, level
//! ordering, forbidden-level flagging, idempotence, and per-reaction
//! isolation of failures.

use sps_kinematics::evaluate::{
    calculate_rho_for_all_reactions, excitation_level_to_rho, ReactionSet, ReactionStatus,
};
use sps_kinematics::nuclide::{MassTable, NuclideData};
use sps_kinematics::reaction::Reaction;
use sps_kinematics::solver::SolveError;

const BEAM_ENERGY: u64 = 16_000_000; // 16 MeV
const FIELD: u64 = 8_700_000; // 8.7 kG
const ANGLE: u64 = 35_000_000; // 35 degrees

fn nuclide(isotope: &str, mass: u64, z: i32) -> NuclideData {
    NuclideData { isotope: isotope.to_string(), mass, z }
}

fn carbon_table() -> MassTable {
    let mut table = MassTable::new();
    table.insert(6, 12, nuclide("12C", 11_174_862_000, 6));
    table.insert(1, 2, nuclide("2H", 1_875_612_000, 1));
    table.insert(1, 1, nuclide("1H", 938_272_000, 1));
    table.insert(6, 13, nuclide("13C", 12_109_481_000, 6));
    table
}

fn resolved_carbon_reaction(levels: Vec<u64>) -> Reaction {
    let mut reaction = Reaction::new();
    reaction.target_z = 6;
    reaction.target_a = 12;
    reaction.projectile_z = 1;
    reaction.projectile_a = 2;
    reaction.ejectile_z = 1;
    reaction.ejectile_a = 1;
    reaction.populate_reaction_data(&carbon_table());
    reaction.apply_fetched_levels(Some(levels));
    reaction
}

fn excitations(reaction: &Reaction) -> Vec<u64> {
    reaction.rho_values.iter().map(|point| point.excitation).collect()
}

#[test]
fn end_to_end_carbon_dp_scenario() {
    // Target 12C, deuteron in, proton out, Eb = 16 MeV, theta = 35 deg,
    // B = 8.7 kG, levels 0 and 4.439 MeV: two ordered points, the ground
    // state inside the 69-87 cm acceptance at the hand-computed rigidity.
    let mut reaction = resolved_carbon_reaction(vec![0, 4_439_000]);
    let report = excitation_level_to_rho(&mut reaction, BEAM_ENERGY, FIELD, ANGLE);
    assert_eq!(report.status, ReactionStatus::Evaluated);
    assert!(report.skipped.is_empty());
    assert_eq!(reaction.rho_values.len(), 2);
    assert_eq!(reaction.rho_values[0].excitation, 0);
    assert_eq!(reaction.rho_values[0].rho, 70_589_997);
    assert!(69_000_000 <= reaction.rho_values[0].rho && reaction.rho_values[0].rho <= 87_000_000);
    assert_eq!(reaction.rho_values[1].excitation, 4_439_000);
    assert_eq!(reaction.rho_values[1].rho, 60_999_746);
}

#[test]
fn evaluation_is_idempotent() {
    // Evaluating twice with unchanged inputs reproduces identical points.
    let mut reaction = resolved_carbon_reaction(vec![0, 3_089_000, 4_439_000]);
    excitation_level_to_rho(&mut reaction, BEAM_ENERGY, FIELD, ANGLE);
    let first = reaction.rho_values.clone();
    let report = excitation_level_to_rho(&mut reaction, BEAM_ENERGY, FIELD, ANGLE);
    assert_eq!(report.status, ReactionStatus::Evaluated);
    assert_eq!(reaction.rho_values, first);
}

#[test]
fn level_order_is_preserved() {
    // Fetched levels come first in their stored order (even unsorted), then
    // the caller-added ones.
    let mut reaction = resolved_carbon_reaction(vec![4_439_000, 0]);
    reaction.add_additional_level(3_089_000);
    let report = excitation_level_to_rho(&mut reaction, BEAM_ENERGY, FIELD, ANGLE);
    assert_eq!(report.status, ReactionStatus::Evaluated);
    assert_eq!(excitations(&reaction), vec![4_439_000, 0, 3_089_000]);
}

#[test]
fn forbidden_level_is_skipped_and_flagged() {
    // A 30 MeV level is energetically closed: it must be absent from the
    // points, flagged in the report, and the other levels still computed.
    let mut reaction = resolved_carbon_reaction(vec![0, 30_000_000, 4_439_000]);
    let report = excitation_level_to_rho(&mut reaction, BEAM_ENERGY, FIELD, ANGLE);
    assert_eq!(report.status, ReactionStatus::Evaluated);
    assert_eq!(excitations(&reaction), vec![0, 4_439_000]);
    assert_eq!(report.skipped.len(), 1);
    assert_eq!(report.skipped[0].excitation, 30_000_000);
    assert_eq!(report.skipped[0].reason, SolveError::KinematicallyForbidden);
}

#[test]
fn unresolved_nuclide_guard() {
    // A projectile at (Z=99,A=300) is not in the mass table: evaluation
    // reports the unresolved nuclide and leaves no points, without raising.
    let mut reaction = Reaction::new();
    reaction.target_z = 6;
    reaction.target_a = 12;
    reaction.projectile_z = 99;
    reaction.projectile_a = 300;
    reaction.ejectile_z = 1;
    reaction.ejectile_a = 1;
    reaction.populate_reaction_data(&carbon_table());
    reaction.apply_fetched_levels(Some(vec![0]));
    let report = excitation_level_to_rho(&mut reaction, BEAM_ENERGY, FIELD, ANGLE);
    assert_eq!(report.status, ReactionStatus::UnresolvedNuclide);
    assert!(reaction.rho_values.is_empty());
    assert!(report.skipped.is_empty());
}

#[test]
fn zero_field_refuses_evaluation() {
    let mut reaction = resolved_carbon_reaction(vec![0]);
    let report = excitation_level_to_rho(&mut reaction, BEAM_ENERGY, 0, ANGLE);
    assert_eq!(report.status, ReactionStatus::InvalidParameter);
    assert!(reaction.rho_values.is_empty());
}

#[test]
fn stale_points_are_cleared_before_reuse() {
    // Points from an earlier evaluation never survive a failing one.
    let mut reaction = resolved_carbon_reaction(vec![0]);
    excitation_level_to_rho(&mut reaction, BEAM_ENERGY, FIELD, ANGLE);
    assert_eq!(reaction.rho_values.len(), 1);
    let report = excitation_level_to_rho(&mut reaction, BEAM_ENERGY, 0, ANGLE);
    assert_eq!(report.status, ReactionStatus::InvalidParameter);
    assert!(reaction.rho_values.is_empty());
}

#[test]
fn failing_reaction_does_not_stop_the_set() {
    // One unresolved reaction and one good one: both get a report, and the
    // good one is still evaluated.
    let mut set = ReactionSet::new();
    let mut broken = Reaction::new();
    broken.target_z = 6;
    broken.target_a = 12;
    broken.projectile_z = 99;
    broken.projectile_a = 300;
    broken.ejectile_z = 1;
    broken.ejectile_a = 1;
    broken.populate_reaction_data(&carbon_table());
    set.add_reaction(broken);
    set.add_reaction(resolved_carbon_reaction(vec![0, 4_439_000]));
    let reports = calculate_rho_for_all_reactions(&mut set, BEAM_ENERGY, FIELD, ANGLE);
    assert_eq!(reports.len(), 2);
    assert_eq!(reports[0].status, ReactionStatus::UnresolvedNuclide);
    assert_eq!(reports[1].status, ReactionStatus::Evaluated);
    assert!(set.reactions[0].rho_values.is_empty());
    assert_eq!(set.reactions[1].rho_values.len(), 2);
}

#[test]
fn reaction_set_add_and_remove() {
    let mut set = ReactionSet::new();
    set.add_reaction(resolved_carbon_reaction(vec![0]));
    set.add_reaction(resolved_carbon_reaction(vec![4_439_000]));
    assert_eq!(set.reactions.len(), 2);
    set.remove_reaction(0);
    assert_eq!(set.reactions.len(), 1);
    assert_eq!(set.reactions[0].excitation_levels, vec![4_439_000]);
}

#[test]
fn empty_level_list_yields_no_points() {
    let mut reaction = resolved_carbon_reaction(vec![]);
    let report = excitation_level_to_rho(&mut reaction, BEAM_ENERGY, FIELD, ANGLE);
    assert_eq!(report.status, ReactionStatus::Evaluated);
    assert!(reaction.rho_values.is_empty());
    assert!(report.skipped.is_empty());
}
