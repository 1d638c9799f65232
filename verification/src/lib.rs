//! Parametric insurance on a ledger: products and policies, oracle data,
//! claims, and governance.

pub mod arith;
pub mod claims_processor;
pub mod common;
pub mod governance_dao;
pub mod host;
pub mod oracle_verifier;
pub mod outcome;
pub mod policy_engine;
pub mod roster;
pub mod sums;
pub mod table;
pub mod text;
