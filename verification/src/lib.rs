//! Proof-generation orchestrator for a PLONK-style proving system.
//!
//! The crate sequences the multi-phase protocol that turns circuit witness
//! assignments and public instances into a proof: it binds public inputs into
//! a Fiat-Shamir transcript, drives per-phase witness synthesis, blinds and
//! commits advice columns, derives challenges in commit-before-challenge
//! order, and hands the assembled data to an injected arithmetic backend.

pub mod backend;
pub mod challenges;
pub mod errors;
pub mod instances;
pub mod key;
pub mod points;
pub mod protocol;
pub mod prover;
pub mod scalar;
pub mod scheduler;
pub mod transcript;
pub mod witness;
