//! The central reaction entity: four nuclide roles, the derived residual
//! and identifier, the excitation levels of the residual, and the rigidity
//! values computed for them.
//!
//! The residual's (Z, A) is derived from charge and mass-number balance and
//! is only ever written together with the four lookups and the identifier,
//! by [`Reaction::populate_reaction_data`], so the derived fields cannot go
//! stale independently of one another.

use vstd::prelude::*;
use vstd::string::StringExecFns;

use crate::nuclide::{lookup_spec, MassTable, NuclideData};

verus! {

/// Largest charge or mass number accepted by the derivation, so that the
/// residual balance stays within the machine integers.
pub const ZA_LIMIT: i32 = 715_827_882;

/// One computed point of the position spectrum: an excitation energy in
/// micro-MeV and the rigidity in micro-centimetres it maps to.
#[derive(Clone, Copy, Debug, PartialEq, Eq, Structural)]
pub struct RhoPoint {
    /// Excitation energy of the residual, micro-MeV.
    pub excitation: u64,
    /// Magnetic rigidity of the ejectile, micro-centimetres.
    pub rho: u64,
}

/// What storing a fetched excitation-level set reported.
#[derive(Clone, Copy, Debug, PartialEq, Eq, Structural)]
pub enum ExcitationStatus {
    /// Levels were stored for the residual.
    Stored,
    /// The residual nuclide is unresolved, so no levels can be keyed to it.
    UnresolvedResidual,
    /// The source yielded no levels (or an error) for the residual.
    NoExcitationData,
}

/// The label a role contributes to the reaction identifier: its isotope
/// label when resolved, the literal `None` otherwise.
pub open spec fn label_spec(d: Option<NuclideData>) -> Seq<char> {
    match d {
        Some(n) => n.isotope@,
        None => "None"@,
    }
}

/// The display identifier `Target(Projectile,Ejectile)Residual` built from
/// the four role labels.
pub open spec fn identifier_spec(
    target: Option<NuclideData>,
    projectile: Option<NuclideData>,
    ejectile: Option<NuclideData>,
    residual: Option<NuclideData>,
) -> Seq<char> {
    label_spec(target) + "("@ + label_spec(projectile) + ","@ + label_spec(ejectile) + ")"@
        + label_spec(residual)
}

/// A two-body reaction: target + projectile -> ejectile + residual, with
/// the excitation levels of the residual and the rigidities computed from
/// them.
pub struct Reaction {
    /// Target charge number, set by the caller.
    pub target_z: i32,
    /// Target mass number, set by the caller.
    pub target_a: i32,
    /// Resolved target data, if the mass table knows the nuclide.
    pub target_data: Option<NuclideData>,
    /// Projectile charge number, set by the caller.
    pub projectile_z: i32,
    /// Projectile mass number, set by the caller.
    pub projectile_a: i32,
    /// Resolved projectile data.
    pub projectile_data: Option<NuclideData>,
    /// Ejectile charge number, set by the caller.
    pub ejectile_z: i32,
    /// Ejectile mass number, set by the caller.
    pub ejectile_a: i32,
    /// Resolved ejectile data.
    pub ejectile_data: Option<NuclideData>,
    /// Residual charge number, derived from the balance equation.
    pub resid_z: i32,
    /// Residual mass number, derived from the balance equation.
    pub resid_a: i32,
    /// Resolved residual data.
    pub resid_data: Option<NuclideData>,
    /// Display identifier built from the four role labels.
    pub reaction_identifier: String,
    /// Excitation levels fetched for the residual, micro-MeV, in source
    /// order.
    pub excitation_levels: Vec<u64>,
    /// Levels added by the caller on top of the fetched set, micro-MeV.
    pub additional_excitation_levels: Vec<u64>,
    /// The computed spectrum points, cleared and refilled by evaluation.
    pub rho_values: Vec<RhoPoint>,
}

/// Append a role label to the identifier being built.
fn append_label(s: &mut String, d: &Option<NuclideData>)
    ensures
        final(s)@ == old(s)@ + label_spec(*d),
{
    match d {
        Some(n) => s.append(n.isotope.as_str()),
        None => s.append("None"),
    }
}

/// Build the display identifier from the four resolved roles.
fn build_identifier(
    target: &Option<NuclideData>,
    projectile: &Option<NuclideData>,
    ejectile: &Option<NuclideData>,
    residual: &Option<NuclideData>,
) -> (s: String)
    ensures
        s@ == identifier_spec(*target, *projectile, *ejectile, *residual),
{
    let mut s = String::new();
    append_label(&mut s, target);
    s.append("(");
    append_label(&mut s, projectile);
    s.append(",");
    append_label(&mut s, ejectile);
    s.append(")");
    append_label(&mut s, residual);
    proof {
        assert(s@ =~= identifier_spec(*target, *projectile, *ejectile, *residual));
    }
    s
}

impl Reaction {
    /// A new, empty reaction: zero (Z, A) everywhere, nothing resolved, no
    /// levels and no computed points.
    pub fn new() -> (r: Reaction)
        ensures
            r.target_z == 0 && r.target_a == 0 && r.target_data is None,
            r.projectile_z == 0 && r.projectile_a == 0 && r.projectile_data is None,
            r.ejectile_z == 0 && r.ejectile_a == 0 && r.ejectile_data is None,
            r.resid_z == 0 && r.resid_a == 0 && r.resid_data is None,
            r.reaction_identifier@ == Seq::<char>::empty(),
            r.excitation_levels@ == Seq::<u64>::empty(),
            r.additional_excitation_levels@ == Seq::<u64>::empty(),
            r.rho_values@ == Seq::<RhoPoint>::empty(),
    {
        Reaction {
            target_z: 0,
            target_a: 0,
            target_data: None,
            projectile_z: 0,
            projectile_a: 0,
            projectile_data: None,
            ejectile_z: 0,
            ejectile_a: 0,
            ejectile_data: None,
            resid_z: 0,
            resid_a: 0,
            resid_data: None,
            reaction_identifier: String::new(),
            excitation_levels: Vec::new(),
            additional_excitation_levels: Vec::new(),
            rho_values: Vec::new(),
        }
    }

    /// Derive the residual (Z, A) from the balance equations
    /// `Zr = Zt + Zp - Ze` and `Ar = At + Ap - Ae`, resolve all four roles
    /// against the mass table, and rebuild the identifier.  This is the one
    /// mutator of every derived field; excitation levels and computed
    /// points are untouched.
    pub fn populate_reaction_data(&mut self, table: &MassTable)
        requires
            -ZA_LIMIT <= old(self).target_z <= ZA_LIMIT,
            -ZA_LIMIT <= old(self).target_a <= ZA_LIMIT,
            -ZA_LIMIT <= old(self).projectile_z <= ZA_LIMIT,
            -ZA_LIMIT <= old(self).projectile_a <= ZA_LIMIT,
            -ZA_LIMIT <= old(self).ejectile_z <= ZA_LIMIT,
            -ZA_LIMIT <= old(self).ejectile_a <= ZA_LIMIT,
        ensures
            final(self).resid_z == old(self).target_z + old(self).projectile_z - old(
                self).ejectile_z,
            final(self).resid_a == old(self).target_a + old(self).projectile_a - old(
                self).ejectile_a,
            final(self).target_data == lookup_spec(table.entries@, old(self).target_z as int,
                old(self).target_a as int),
            final(self).projectile_data == lookup_spec(table.entries@, old(
                self).projectile_z as int, old(self).projectile_a as int),
            final(self).ejectile_data == lookup_spec(table.entries@, old(
                self).ejectile_z as int, old(self).ejectile_a as int),
            final(self).resid_data == lookup_spec(table.entries@, final(self).resid_z as int,
                final(self).resid_a as int),
            final(self).reaction_identifier@ == identifier_spec(final(self).target_data,
                final(self).projectile_data, final(self).ejectile_data, final(
                self).resid_data),
            final(self).target_z == old(self).target_z,
            final(self).target_a == old(self).target_a,
            final(self).projectile_z == old(self).projectile_z,
            final(self).projectile_a == old(self).projectile_a,
            final(self).ejectile_z == old(self).ejectile_z,
            final(self).ejectile_a == old(self).ejectile_a,
            final(self).excitation_levels == old(self).excitation_levels,
            final(self).additional_excitation_levels == old(
                self).additional_excitation_levels,
            final(self).rho_values == old(self).rho_values,
    {
        self.resid_z = self.target_z + self.projectile_z - self.ejectile_z;
        self.resid_a = self.target_a + self.projectile_a - self.ejectile_a;

        self.target_data = table.get_data(self.target_z, self.target_a);
        self.projectile_data = table.get_data(self.projectile_z, self.projectile_a);
        self.ejectile_data = table.get_data(self.ejectile_z, self.ejectile_a);
        self.resid_data = table.get_data(self.resid_z, self.resid_a);

        self.reaction_identifier = build_identifier(&self.target_data, &self.projectile_data,
            &self.ejectile_data, &self.resid_data);
    }

    /// Store the excitation levels the external source fetched for the
    /// residual (`None` when the source failed or found nothing).  Levels
    /// end up empty unless the residual is resolved and the source yielded
    /// a set; the status reports which case held.
    pub fn apply_fetched_levels(&mut self, fetched: Option<Vec<u64>>) -> (status:
        ExcitationStatus)
        ensures
            old(self).resid_data is None ==> status is UnresolvedResidual
                && final(self).excitation_levels@ == Seq::<u64>::empty(),
            old(self).resid_data is Some && fetched is None ==> status is NoExcitationData
                && final(self).excitation_levels@ == Seq::<u64>::empty(),
            old(self).resid_data is Some && fetched is Some ==> status is Stored && final(
                self).excitation_levels@ == fetched->0@,
            final(self).target_z == old(self).target_z,
            final(self).target_a == old(self).target_a,
            final(self).target_data == old(self).target_data,
            final(self).projectile_z == old(self).projectile_z,
            final(self).projectile_a == old(self).projectile_a,
            final(self).projectile_data == old(self).projectile_data,
            final(self).ejectile_z == old(self).ejectile_z,
            final(self).ejectile_a == old(self).ejectile_a,
            final(self).ejectile_data == old(self).ejectile_data,
            final(self).resid_z == old(self).resid_z,
            final(self).resid_a == old(self).resid_a,
            final(self).resid_data == old(self).resid_data,
            final(self).reaction_identifier == old(self).reaction_identifier,
            final(self).additional_excitation_levels == old(
                self).additional_excitation_levels,
            final(self).rho_values == old(self).rho_values,
    {
        if self.resid_data.is_none() {
            self.excitation_levels = Vec::new();
            ExcitationStatus::UnresolvedResidual
        } else {
            match fetched {
                Some(levels) => {
                    self.excitation_levels = levels;
                    ExcitationStatus::Stored
                },
                None => {
                    self.excitation_levels = Vec::new();
                    ExcitationStatus::NoExcitationData
                },
            }
        }
    }

    /// Add one caller-supplied excitation level after the fetched set.
    pub fn add_additional_level(&mut self, level: u64)
        ensures
            final(self).additional_excitation_levels@ == old(
                self).additional_excitation_levels@.push(level),
            final(self).excitation_levels == old(self).excitation_levels,
            final(self).rho_values == old(self).rho_values,
    {
        self.additional_excitation_levels.push(level);
    }

    /// Remove one fetched excitation level by position.
    pub fn remove_excitation_level(&mut self, index: usize)
        requires
            index < old(self).excitation_levels@.len(),
        ensures
            final(self).excitation_levels@ == old(self).excitation_levels@.remove(
                index as int),
            final(self).additional_excitation_levels == old(
                self).additional_excitation_levels,
            final(self).rho_values == old(self).rho_values,
    {
        self.excitation_levels.remove(index);
    }

    /// Remove one caller-supplied excitation level by position.
    pub fn remove_additional_level(&mut self, index: usize)
        requires
            index < old(self).additional_excitation_levels@.len(),
        ensures
            final(self).additional_excitation_levels@ == old(
                self).additional_excitation_levels@.remove(index as int),
            final(self).excitation_levels == old(self).excitation_levels,
            final(self).rho_values == old(self).rho_values,
    {
        self.additional_excitation_levels.remove(index);
    }
}

} // verus!
