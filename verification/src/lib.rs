//! A multi-bed adiabatic Haber-Bosch reactor model: per-catalyst kinetic
//! constants, per-bed thermal profiles, sequential hand-off of the state
//! between beds, and flattened trajectory series with summary ranges.
//!
//! Scalars are exact decimal fixed-point values (`fixed::Fixed`), so every
//! rule here is verified; the adaptive ODE integration itself is a
//! floating-point collaborator that runs outside this crate and feeds its
//! trajectories back in through `HaberBoschInstance::add_next_results`.

pub mod configuration;
pub mod errors;
pub mod fixed;
pub mod ranges;
pub mod series;
pub mod simulation;
