//! Commit governance: findings, policies, provenance checks and a hash-chained
//! evidence log of every decision.

pub mod types;
pub mod error;
pub mod altai;
pub mod evidence;
pub mod pattern;
pub mod pipeline;
pub mod policy;
pub mod provenance;
pub mod evidence_store;
pub mod git_adapter;
pub mod trust_store;
pub mod orchestrator;
