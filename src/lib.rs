//! Risk and settlement logic of a collateral-backed synthetic asset with an
//! attached binary prediction market: oracle price normalisation and
//! consensus, collateral appraisal and liquidation, a rate-limited hedge
//! state machine, hash commitments and Merkle proofs, and pool accounting.
pub mod bytes;
pub mod cdp;
pub mod errors;
pub mod merkle;
pub mod mpc;
pub mod oracle_integration;
pub mod prediction_market;
pub mod privacy_utils;
pub mod protocol;
pub mod types;
pub mod zk_circuits;
