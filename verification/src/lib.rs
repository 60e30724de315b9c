//! Reaction kinematics for a fixed-field magnetic spectrometer.
//!
//! Given a two-body nuclear reaction (target + projectile -> ejectile +
//! residual) and a set of excitation energies of the residual nucleus, this
//! crate computes the magnetic rigidity at which each ejectile is bent by the
//! spectrometer, ready for display as a position spectrum.
//!
//! All physical quantities are carried as integers in micro-units: masses and
//! energies in micro-MeV, angles in micro-degrees, fields in micro-kilogauss,
//! and rigidities in micro-centimetres.  Mass lookup, excitation-level
//! retrieval, and plotting are external collaborators; this crate only
//! consumes already-resolved values.

pub mod cosine;
pub mod evaluate;
pub mod math;
pub mod nuclide;
pub mod reaction;
pub mod solver;
