//! Batch evaluation: run the kinematics solver over every excitation level
//! of a reaction, and over every reaction of a set.
//!
//! For each reaction the working level list is the fetched levels followed
//! by the caller-added ones, both in their stored order; the computed
//! points keep exactly that order.  Levels the solver refuses are flagged
//! in a per-reaction report instead of being silently dropped, and a
//! failing reaction never stops the rest of the set from being evaluated.

use vstd::prelude::*;

use crate::reaction::{Reaction, RhoPoint};
use crate::solver::{is_valid_global, level_to_rho, level_outcome_spec, valid_global,
    SolveError, SolveInputs};

verus! {

/// Overall outcome of evaluating one reaction.
#[derive(Clone, Copy, Debug, PartialEq, Eq, Structural)]
pub enum ReactionStatus {
    /// All four nuclides were resolved and the inputs were acceptable; the
    /// reaction's points were recomputed.
    Evaluated,
    /// At least one nuclide is unresolved; the reaction keeps no points.
    UnresolvedNuclide,
    /// A mass, charge, field or energy is outside the solver's envelope;
    /// the reaction keeps no points.
    InvalidParameter,
}

/// One excitation level that produced no point, and why.
#[derive(Clone, Copy, Debug, PartialEq, Eq, Structural)]
pub struct LevelSkip {
    /// The skipped excitation energy, micro-MeV.
    pub excitation: u64,
    /// Why the solver refused it.
    pub reason: SolveError,
}

/// Per-reaction evaluation report: the overall status, and every level
/// that was skipped, in level order.
#[derive(Clone, Debug, PartialEq, Eq)]
pub struct EvalReport {
    /// Overall outcome for the reaction.
    pub status: ReactionStatus,
    /// The skipped levels, in the order they were considered.
    pub skipped: Vec<LevelSkip>,
}

/// The solver inputs a reaction yields under the given beam energy, field
/// and angle, when all four of its nuclides are resolved.
pub open spec fn reaction_inputs(r: Reaction, beam_energy: u64, magnetic_field: u64,
    sps_angle: u64) -> Option<SolveInputs> {
    match (r.target_data, r.projectile_data, r.ejectile_data, r.resid_data) {
        (Some(t), Some(p), Some(e), Some(res)) => Some(SolveInputs {
            mt: t.mass,
            mp: p.mass,
            me: e.mass,
            mr: res.mass,
            ze: e.z,
            eb: beam_energy,
            theta: sps_angle,
            b: magnetic_field,
        }),
        _ => None,
    }
}

/// The working list of excitation levels of a reaction: the fetched set
/// first, then the caller-added set, each in its stored order.
pub open spec fn all_levels(r: Reaction) -> Seq<u64> {
    r.excitation_levels@ + r.additional_excitation_levels@
}

/// The spectrum points a level list produces, in list order: one point per
/// level the solver accepts.
pub open spec fn rho_points_spec(inp: SolveInputs, levels: Seq<u64>) -> Seq<RhoPoint>
    decreases levels.len(),
{
    if levels.len() == 0 {
        Seq::empty()
    } else {
        match level_outcome_spec(inp, levels[0]) {
            Ok(rho) => seq![RhoPoint { excitation: levels[0], rho }] + rho_points_spec(inp,
                levels.skip(1)),
            Err(_) => rho_points_spec(inp, levels.skip(1)),
        }
    }
}

/// The skipped levels a level list produces, in list order: one entry per
/// level the solver refuses.
pub open spec fn skipped_spec(inp: SolveInputs, levels: Seq<u64>) -> Seq<LevelSkip>
    decreases levels.len(),
{
    if levels.len() == 0 {
        Seq::empty()
    } else {
        match level_outcome_spec(inp, levels[0]) {
            Ok(_) => skipped_spec(inp, levels.skip(1)),
            Err(reason) => seq![LevelSkip { excitation: levels[0], reason }] + skipped_spec(
                inp, levels.skip(1)),
        }
    }
}

/// Evaluation reads levels left to right: the points of a concatenated
/// level list are the points of the first part followed by those of the
/// second.  In particular fetched levels keep their order and precede the
/// caller-added ones.
pub proof fn lemma_rho_points_append(inp: SolveInputs, s1: Seq<u64>, s2: Seq<u64>)
    ensures
        rho_points_spec(inp, s1 + s2) == rho_points_spec(inp, s1) + rho_points_spec(inp, s2),
    decreases s1.len(),
{
    if s1.len() == 0 {
        assert(s1 + s2 =~= s2);
        assert(rho_points_spec(inp, s1) + rho_points_spec(inp, s2) =~= rho_points_spec(inp,
            s2));
    } else {
        assert((s1 + s2).skip(1) =~= s1.skip(1) + s2);
        lemma_rho_points_append(inp, s1.skip(1), s2);
        assert((s1 + s2)[0] == s1[0]);
        assert((s1 + s2).len() > 0);
        match level_outcome_spec(inp, s1[0]) {
            Ok(rho) => {
                assert(rho_points_spec(inp, s1 + s2) =~= rho_points_spec(inp, s1)
                    + rho_points_spec(inp, s2));
            },
            Err(_) => {
                assert(rho_points_spec(inp, s1 + s2) =~= rho_points_spec(inp, s1)
                    + rho_points_spec(inp, s2));
            },
        }
    }
}

/// The skip report reads levels left to right as well.
pub proof fn lemma_skipped_append(inp: SolveInputs, s1: Seq<u64>, s2: Seq<u64>)
    ensures
        skipped_spec(inp, s1 + s2) == skipped_spec(inp, s1) + skipped_spec(inp, s2),
    decreases s1.len(),
{
    if s1.len() == 0 {
        assert(s1 + s2 =~= s2);
        assert(skipped_spec(inp, s1) + skipped_spec(inp, s2) =~= skipped_spec(inp, s2));
    } else {
        assert((s1 + s2).skip(1) =~= s1.skip(1) + s2);
        lemma_skipped_append(inp, s1.skip(1), s2);
        assert((s1 + s2)[0] == s1[0]);
        match level_outcome_spec(inp, s1[0]) {
            Ok(_) => {
                assert(skipped_spec(inp, s1 + s2) =~= skipped_spec(inp, s1) + skipped_spec(
                    inp, s2));
            },
            Err(_) => {
                assert(skipped_spec(inp, s1 + s2) =~= skipped_spec(inp, s1) + skipped_spec(
                    inp, s2));
            },
        }
    }
}

/// Every computed point comes from a level the solver accepts, with
/// exactly the rigidity the solver derives for its excitation energy.
pub proof fn lemma_points_match_outcomes(inp: SolveInputs, levels: Seq<u64>)
    ensures
        forall|j: int| 0 <= j < rho_points_spec(inp, levels).len()
            ==> level_outcome_spec(inp, #[trigger] rho_points_spec(inp, levels)[j].excitation)
            == Ok::<u64, SolveError>(rho_points_spec(inp, levels)[j].rho),
    decreases levels.len(),
{
    if levels.len() > 0 {
        lemma_points_match_outcomes(inp, levels.skip(1));
    }
}

/// A level the solver refuses is flagged in the skip report and yields no
/// point: closed or invalid levels are distinguishable from any computed
/// result.
pub proof fn lemma_refused_level_flagged(inp: SolveInputs, levels: Seq<u64>, i: int)
    requires
        0 <= i < levels.len(),
        level_outcome_spec(inp, levels[i]) is Err,
    ensures
        skipped_spec(inp, levels).contains(LevelSkip {
            excitation: levels[i],
            reason: level_outcome_spec(inp, levels[i])->Err_0,
        }),
        forall|j: int| 0 <= j < rho_points_spec(inp, levels).len()
            ==> (#[trigger] rho_points_spec(inp, levels)[j]).excitation != levels[i],
    decreases levels.len(),
{
    let entry = LevelSkip {
        excitation: levels[i],
        reason: level_outcome_spec(inp, levels[i])->Err_0,
    };
    if i == 0 {
        assert(skipped_spec(inp, levels)[0] == entry);
        assert(skipped_spec(inp, levels).contains(entry));
    } else {
        lemma_refused_level_flagged(inp, levels.skip(1), i - 1);
        assert(levels.skip(1)[i - 1] == levels[i]);
        let rest = skipped_spec(inp, levels.skip(1));
        let k = choose|k: int| 0 <= k < rest.len() && rest[k] == entry;
        match level_outcome_spec(inp, levels[0]) {
            Ok(_) => {
                assert(skipped_spec(inp, levels)[k] == entry);
            },
            Err(reason) => {
                assert(skipped_spec(inp, levels)[k + 1] == entry);
            },
        }
        assert(skipped_spec(inp, levels).contains(entry));
    }
    lemma_points_match_outcomes(inp, levels);
}

/// What one level contributes: a single point when the solver accepts it,
/// a single skip entry when it refuses it.
pub proof fn lemma_singleton_level(inp: SolveInputs, ex: u64)
    ensures
        level_outcome_spec(inp, ex) is Ok ==> rho_points_spec(inp, seq![ex]) == seq![RhoPoint {
            excitation: ex,
            rho: level_outcome_spec(inp, ex)->Ok_0,
        }] && skipped_spec(inp, seq![ex]) == Seq::<LevelSkip>::empty(),
        level_outcome_spec(inp, ex) is Err ==> skipped_spec(inp, seq![ex]) == seq![LevelSkip {
            excitation: ex,
            reason: level_outcome_spec(inp, ex)->Err_0,
        }] && rho_points_spec(inp, seq![ex]) == Seq::<RhoPoint>::empty(),
{
    let s = seq![ex];
    assert(s.len() == 1);
    assert(s[0] == ex);
    assert(s.skip(1) =~= Seq::<u64>::empty());
    assert(rho_points_spec(inp, s.skip(1)) =~= Seq::<RhoPoint>::empty());
    assert(skipped_spec(inp, s.skip(1)) =~= Seq::<LevelSkip>::empty());
    match level_outcome_spec(inp, ex) {
        Ok(rho) => {
            assert(rho_points_spec(inp, s) =~= seq![RhoPoint { excitation: ex, rho }]);
            assert(skipped_spec(inp, s) =~= Seq::<LevelSkip>::empty());
        },
        Err(reason) => {
            assert(skipped_spec(inp, s) =~= seq![LevelSkip { excitation: ex, reason }]);
            assert(rho_points_spec(inp, s) =~= Seq::<RhoPoint>::empty());
        },
    }
}

/// The fields of a reaction that evaluation reads but never writes are the
/// same in `pre` and `post`.
pub open spec fn setup_unchanged(pre: Reaction, post: Reaction) -> bool {
    &&& post.target_z == pre.target_z
    &&& post.target_a == pre.target_a
    &&& post.target_data == pre.target_data
    &&& post.projectile_z == pre.projectile_z
    &&& post.projectile_a == pre.projectile_a
    &&& post.projectile_data == pre.projectile_data
    &&& post.ejectile_z == pre.ejectile_z
    &&& post.ejectile_a == pre.ejectile_a
    &&& post.ejectile_data == pre.ejectile_data
    &&& post.resid_z == pre.resid_z
    &&& post.resid_a == pre.resid_a
    &&& post.resid_data == pre.resid_data
    &&& post.reaction_identifier == pre.reaction_identifier
    &&& post.excitation_levels == pre.excitation_levels
    &&& post.additional_excitation_levels == pre.additional_excitation_levels
}

/// Everything evaluating one reaction guarantees: the setup is untouched,
/// and the points and report are a pure function of the setup and the
/// global parameters.
pub open spec fn evaluate_post(pre: Reaction, post: Reaction, report: EvalReport,
    beam_energy: u64, magnetic_field: u64, sps_angle: u64) -> bool {
    &&& setup_unchanged(pre, post)
    &&& match reaction_inputs(pre, beam_energy, magnetic_field, sps_angle) {
        None => report.status is UnresolvedNuclide && post.rho_values@ == Seq::<
            RhoPoint,
        >::empty() && report.skipped@ == Seq::<LevelSkip>::empty(),
        Some(inp) => {
            if !valid_global(inp) {
                report.status is InvalidParameter && post.rho_values@ == Seq::<
                    RhoPoint,
                >::empty() && report.skipped@ == Seq::<LevelSkip>::empty()
            } else {
                report.status is Evaluated && post.rho_values@ == rho_points_spec(inp,
                    all_levels(pre)) && report.skipped@ == skipped_spec(inp, all_levels(pre))
            }
        },
    }
}

/// Evaluating an already evaluated reaction again, with the same beam
/// energy, field and angle, reproduces the same points and the same
/// report: evaluation is a pure function of the setup and the global
/// parameters.
pub proof fn lemma_evaluate_idempotent(pre: Reaction, mid: Reaction, post: Reaction,
    first: EvalReport, second: EvalReport, beam_energy: u64, magnetic_field: u64,
    sps_angle: u64)
    requires
        evaluate_post(pre, mid, first, beam_energy, magnetic_field, sps_angle),
        evaluate_post(mid, post, second, beam_energy, magnetic_field, sps_angle),
    ensures
        post.rho_values@ == mid.rho_values@,
        second.status == first.status,
        second.skipped@ == first.skipped@,
{
    assert(reaction_inputs(mid, beam_energy, magnetic_field, sps_angle) == reaction_inputs(
        pre, beam_energy, magnetic_field, sps_angle));
    assert(all_levels(mid) == all_levels(pre));
}

/// Recompute the spectrum points of one reaction: clear them, then run the
/// solver over the fetched levels followed by the caller-added ones, in
/// order, keeping each computed point and flagging each skipped level.  An
/// unresolved nuclide or an out-of-envelope setup leaves the reaction with
/// no points and is reported, not raised.
pub fn excitation_level_to_rho(reaction: &mut Reaction, beam_energy: u64,
    magnetic_field: u64, sps_angle: u64) -> (report: EvalReport)
    ensures
        evaluate_post(*old(reaction), *final(reaction), report, beam_energy, magnetic_field,
            sps_angle),
{
    let ghost pre: Reaction = *reaction;
    reaction.rho_values = Vec::new();

    let inp: SolveInputs;
    match (&reaction.target_data, &reaction.projectile_data, &reaction.ejectile_data,
        &reaction.resid_data) {
        (Some(t), Some(p), Some(e), Some(res)) => {
            inp = SolveInputs {
                mt: t.mass,
                mp: p.mass,
                me: e.mass,
                mr: res.mass,
                ze: e.z,
                eb: beam_energy,
                theta: sps_angle,
                b: magnetic_field,
            };
        },
        _ => {
            return EvalReport { status: ReactionStatus::UnresolvedNuclide, skipped: Vec::new() };
        },
    }
    assert(reaction_inputs(pre, beam_energy, magnetic_field, sps_angle) == Some(inp));

    if !is_valid_global(&inp) {
        return EvalReport { status: ReactionStatus::InvalidParameter, skipped: Vec::new() };
    }

    // The working level list: fetched levels first, then the added ones.
    let mut levels: Vec<u64> = Vec::new();
    let n1 = reaction.excitation_levels.len();
    let mut i: usize = 0;
    while i < n1
        invariant
            i <= n1,
            setup_unchanged(pre, *reaction),
            n1 == reaction.excitation_levels@.len(),
            levels@ == reaction.excitation_levels@.take(i as int),
        decreases n1 - i,
    {
        levels.push(reaction.excitation_levels[i]);
        proof {
            assert(reaction.excitation_levels@.take(i as int + 1)
                =~= reaction.excitation_levels@.take(i as int).push(
                reaction.excitation_levels@[i as int]));
        }
        i = i + 1;
    }
    proof {
        assert(reaction.excitation_levels@.take(n1 as int) =~= reaction.excitation_levels@);
    }
    let n2 = reaction.additional_excitation_levels.len();
    let mut j: usize = 0;
    while j < n2
        invariant
            j <= n2,
            setup_unchanged(pre, *reaction),
            n2 == reaction.additional_excitation_levels@.len(),
            levels@ == reaction.excitation_levels@
                + reaction.additional_excitation_levels@.take(j as int),
        decreases n2 - j,
    {
        levels.push(reaction.additional_excitation_levels[j]);
        proof {
            assert(reaction.excitation_levels@
                + reaction.additional_excitation_levels@.take(j as int + 1)
                =~= (reaction.excitation_levels@
                + reaction.additional_excitation_levels@.take(j as int)).push(
                reaction.additional_excitation_levels@[j as int]));
        }
        j = j + 1;
    }
    proof {
        assert(reaction.additional_excitation_levels@.take(n2 as int)
            =~= reaction.additional_excitation_levels@);
        assert(levels@ == all_levels(pre));
    }

    // One solver run per level, in order.
    let mut skipped: Vec<LevelSkip> = Vec::new();
    let n = levels.len();
    let mut idx: usize = 0;
    proof {
        assert(levels@.take(0) =~= Seq::<u64>::empty());
    }
    while idx < n
        invariant
            idx <= n,
            setup_unchanged(pre, *reaction),
            n == levels@.len(),
            levels@ == all_levels(pre),
            reaction.rho_values@ == rho_points_spec(inp, levels@.take(idx as int)),
            skipped@ == skipped_spec(inp, levels@.take(idx as int)),
        decreases n - idx,
    {
        let ex = levels[idx];
        let outcome = level_to_rho(&inp, ex);
        proof {
            assert(levels@.take(idx as int + 1) =~= levels@.take(idx as int) + seq![levels@[
                idx as int]]);
            lemma_rho_points_append(inp, levels@.take(idx as int), seq![ex]);
            lemma_skipped_append(inp, levels@.take(idx as int), seq![ex]);
            lemma_singleton_level(inp, ex);
        }
        match outcome {
            Ok(rho) => {
                reaction.rho_values.push(RhoPoint { excitation: ex, rho });
            },
            Err(reason) => {
                skipped.push(LevelSkip { excitation: ex, reason });
            },
        }
        idx = idx + 1;
    }
    proof {
        assert(levels@.take(n as int) =~= levels@);
    }
    EvalReport { status: ReactionStatus::Evaluated, skipped }
}

/// An ordered collection of reactions; the position of a reaction is
/// meaningful to the consumer (plot colour and stacking), so the set keeps
/// insertion order and removes by index.
pub struct ReactionSet {
    /// The reactions, in insertion order.
    pub reactions: Vec<Reaction>,
}

impl ReactionSet {
    /// An empty set.
    pub fn new() -> (s: ReactionSet)
        ensures
            s.reactions@.len() == 0,
    {
        ReactionSet { reactions: Vec::new() }
    }

    /// Append a reaction to the set.
    pub fn add_reaction(&mut self, reaction: Reaction)
        ensures
            final(self).reactions@ == old(self).reactions@.push(reaction),
    {
        self.reactions.push(reaction);
    }

    /// Remove the reaction at `index`, closing the gap.
    pub fn remove_reaction(&mut self, index: usize)
        requires
            index < old(self).reactions@.len(),
        ensures
            final(self).reactions@ == old(self).reactions@.remove(index as int),
    {
        self.reactions.remove(index);
    }
}

/// Evaluate every reaction of the set, in order, under the same beam
/// energy, field and angle, and return one report per reaction.  A failing
/// reaction is reported and never stops the others from being evaluated.
pub fn calculate_rho_for_all_reactions(set: &mut ReactionSet, beam_energy: u64,
    magnetic_field: u64, sps_angle: u64) -> (reports: Vec<EvalReport>)
    ensures
        final(set).reactions@.len() == old(set).reactions@.len(),
        reports@.len() == old(set).reactions@.len(),
        forall|i: int| 0 <= i < old(set).reactions@.len() ==> evaluate_post(
            old(set).reactions@[i], final(set).reactions@[i], #[trigger] reports@[i],
            beam_energy, magnetic_field, sps_angle),
{
    let ghost pre_seq = set.reactions@;
    let mut reports: Vec<EvalReport> = Vec::new();
    let n = set.reactions.len();
    let mut i: usize = 0;
    while i < n
        invariant
            i <= n,
            n == set.reactions@.len(),
            set.reactions@.len() == pre_seq.len(),
            reports@.len() == i as int,
            forall|j: int| 0 <= j < i as int ==> evaluate_post(pre_seq[j],
                set.reactions@[j], #[trigger] reports@[j], beam_energy, magnetic_field,
                sps_angle),
            forall|j: int| i as int <= j < pre_seq.len() ==> set.reactions@[j]
                == #[trigger] pre_seq[j],
        decreases n - i,
    {
        let report = excitation_level_to_rho(&mut set.reactions[i], beam_energy,
            magnetic_field, sps_angle);
        reports.push(report);
        i = i + 1;
    }
    reports
}

} // verus!
