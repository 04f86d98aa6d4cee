//! Core of a particle toy: pairwise force accumulation, a damped integrator
//! with a speed cap, clustering of nucleons into nuclei, and tracking of the
//! atoms those nuclei form, with an element table for classification.
//!
//! Quantities are fixed-point integers: lengths, masses, charges and forces
//! in millionths of a simulation unit, times in microseconds.

pub mod atom;
pub mod cluster;
pub mod element;
pub mod fixed;
pub mod force;
pub mod kinematics;
pub mod particle;
pub mod tracker;
pub mod tracker_laws;
