//! Proof-gated, per-season ranked leaderboard: Groth16 verification over
//! BN254, admission policy (domain binding, anti-replay, semantic rules)
//! and a deterministic ranker.

pub mod field;
pub mod curve;
pub mod bn254;
pub mod groth16;
pub mod vk_store;
pub mod replay;
pub mod domain;
pub mod policy;
pub mod leaderboard;
pub mod game;
pub mod application;
pub mod ultrahonk;
pub mod progress;
