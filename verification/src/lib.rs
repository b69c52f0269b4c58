//! A verified kernel for a family of small custody programs: a vault that
//! holds value under a derived, non-signing address, and a peer-to-peer
//! escrow settled by a three-transition state machine (make, then exactly
//! one of take or refund), together with the transfer-gate and staking
//! rules that share the same authorization discipline.
//!
//! The host ledger, the token transfer primitive, and account plumbing are
//! external collaborators; this crate models their state as a keyed store
//! and proves the authorization, balance, and settlement rules.

pub mod addr;
pub mod errors;
pub mod gate;
pub mod laws;
pub mod ledger;
pub mod records;
pub mod staking;
pub mod store;
