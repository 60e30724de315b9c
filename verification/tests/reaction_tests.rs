//! Tests of the reaction data model: residual derivation, mass lookup,
//! identifier building, and excitation-level bookkeeping.

use sps_kinematics::nuclide::{MassTable, NuclideData};
use sps_kinematics::reaction::{ExcitationStatus, Reaction};

fn nuclide(isotope: &str, mass: u64, z: i32) -> NuclideData {
    NuclideData { isotope: isotope.to_string(), mass, z }
}

/// The four nuclides of 12C(d,p)13C.
fn carbon_table() -> MassTable {
    let mut table = MassTable::new();
    table.insert(6, 12, nuclide("12C", 11_174_862_000, 6));
    table.insert(1, 2, nuclide("2H", 1_875_612_000, 1));
    table.insert(1, 1, nuclide("1H", 938_272_000, 1));
    table.insert(6, 13, nuclide("13C", 12_109_481_000, 6));
    table
}

fn carbon_dp_reaction() -> Reaction {
    let mut reaction = Reaction::new();
    reaction.target_z = 6;
    reaction.target_a = 12;
    reaction.projectile_z = 1;
    reaction.projectile_a = 2;
    reaction.ejectile_z = 1;
    reaction.ejectile_a = 1;
    reaction
}

#[test]
fn residual_derivation_carbon_dp() {
    // (Z=6,A=12) + (Z=1,A=2) - (Z=1,A=1) leaves the residual at (Z=6,A=13).
    let mut reaction = carbon_dp_reaction();
    reaction.populate_reaction_data(&MassTable::new());
    assert_eq!(reaction.resid_z, 6);
    assert_eq!(reaction.resid_a, 13);
}

#[test]
fn identifier_from_resolved_labels() {
    let mut reaction = carbon_dp_reaction();
    reaction.populate_reaction_data(&carbon_table());
    assert_eq!(reaction.reaction_identifier, "12C(2H,1H)13C");
    assert!(reaction.target_data.is_some());
    assert!(reaction.resid_data.is_some());
}

#[test]
fn identifier_uses_none_for_unresolved_labels() {
    let mut reaction = carbon_dp_reaction();
    reaction.populate_reaction_data(&MassTable::new());
    assert_eq!(reaction.reaction_identifier, "None(None,None)None");
    assert!(reaction.target_data.is_none());
}

#[test]
fn lookup_finds_inserted_nuclide() {
    let table = carbon_table();
    let data = table.get_data(6, 13).unwrap();
    assert_eq!(data.isotope, "13C");
    assert_eq!(data.mass, 12_109_481_000);
    assert_eq!(data.z, 6);
}

#[test]
fn lookup_misses_unknown_nuclide() {
    let table = carbon_table();
    assert!(table.get_data(99, 300).is_none());
}

#[test]
fn lookup_takes_first_match() {
    let mut table = MassTable::new();
    table.insert(2, 4, nuclide("4He", 3_727_379_000, 2));
    table.insert(2, 4, nuclide("other", 1, 2));
    let data = table.get_data(2, 4).unwrap();
    assert_eq!(data.isotope, "4He");
}

#[test]
fn fetched_levels_are_stored_for_resolved_residual() {
    let mut reaction = carbon_dp_reaction();
    reaction.populate_reaction_data(&carbon_table());
    let status = reaction.apply_fetched_levels(Some(vec![0, 3_089_000, 3_685_000]));
    assert_eq!(status, ExcitationStatus::Stored);
    assert_eq!(reaction.excitation_levels, vec![0, 3_089_000, 3_685_000]);
}

#[test]
fn missing_fetch_result_is_reported() {
    let mut reaction = carbon_dp_reaction();
    reaction.populate_reaction_data(&carbon_table());
    let status = reaction.apply_fetched_levels(None);
    assert_eq!(status, ExcitationStatus::NoExcitationData);
    assert!(reaction.excitation_levels.is_empty());
}

#[test]
fn unresolved_residual_blocks_level_storage() {
    let mut reaction = carbon_dp_reaction();
    reaction.populate_reaction_data(&MassTable::new());
    let status = reaction.apply_fetched_levels(Some(vec![0]));
    assert_eq!(status, ExcitationStatus::UnresolvedResidual);
    assert!(reaction.excitation_levels.is_empty());
}

#[test]
fn additional_levels_append_and_remove() {
    let mut reaction = Reaction::new();
    reaction.add_additional_level(5_000_000);
    reaction.add_additional_level(7_500_000);
    reaction.add_additional_level(9_000_000);
    assert_eq!(reaction.additional_excitation_levels, vec![5_000_000, 7_500_000, 9_000_000]);
    reaction.remove_additional_level(1);
    assert_eq!(reaction.additional_excitation_levels, vec![5_000_000, 9_000_000]);
}

#[test]
fn fetched_levels_remove_by_index() {
    let mut reaction = carbon_dp_reaction();
    reaction.populate_reaction_data(&carbon_table());
    reaction.apply_fetched_levels(Some(vec![0, 3_089_000, 3_685_000]));
    reaction.remove_excitation_level(0);
    assert_eq!(reaction.excitation_levels, vec![3_089_000, 3_685_000]);
}

#[test]
fn new_reaction_is_empty() {
    let reaction = Reaction::new();
    assert_eq!(reaction.target_z, 0);
    assert_eq!(reaction.resid_a, 0);
    assert!(reaction.target_data.is_none());
    assert_eq!(reaction.reaction_identifier, "");
    assert!(reaction.excitation_levels.is_empty());
    assert!(reaction.additional_excitation_levels.is_empty());
    assert!(reaction.rho_values.is_empty());
}

#[test]
fn populate_preserves_levels_and_points() {
    let mut reaction = carbon_dp_reaction();
    reaction.populate_reaction_data(&carbon_table());
    reaction.apply_fetched_levels(Some(vec![0, 4_439_000]));
    reaction.add_additional_level(6_000_000);
    reaction.populate_reaction_data(&carbon_table());
    assert_eq!(reaction.excitation_levels, vec![0, 4_439_000]);
    assert_eq!(reaction.additional_excitation_levels, vec![6_000_000]);
}
