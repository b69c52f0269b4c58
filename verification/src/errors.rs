//! Error taxonomy of the custody kernel.
//!
//! Every check is local and fail-fast: an operation that returns an error
//! leaves all state untouched, and nothing is silently recovered.

use vstd::prelude::*;

verus! {

/// The failure kinds an operation of the vault or escrow kernel reports.
#[derive(Clone, Copy, PartialEq, Eq, Structural, Debug)]
pub enum KernelError {
    /// The caller fails the authorization guard.
    Unauthorized,
    /// A record for the same derived address already exists.
    AlreadyExists,
    /// The operation targets a settled, refunded, or never-created record.
    RecordGone,
    /// The custody address holds less than the requested amount.
    InsufficientLockedFunds,
    /// The paying party holds less than the amount to move.
    InsufficientFunds,
    /// An escrow leg's asset does not match the record.
    AssetMismatch,
    /// A record's stored address does not match its re-derivation.
    AddressMismatch,
    /// The seed sequence cannot map to a valid address.
    InvalidSeeds,
    /// A balance movement would exceed the width of a balance.
    Overflow,
}

/// Failure kinds of the transfer gate.
#[derive(Clone, Copy, PartialEq, Eq, Structural, Debug)]
pub enum TransferError {
    /// No transfer was in progress when the decision was requested.
    IsNotCurrentlyTransferring,
    /// The receiving account is not whitelisted.
    NotWhitelisted,
}

/// Failure kinds of token emission.
#[derive(Clone, Copy, PartialEq, Eq, Structural, Debug)]
pub enum ErrorCode {
    /// The price times the amount exceeds the width of an amount.
    MathOverflow,
}

/// Failure kinds of the staking engine.
#[derive(Clone, Copy, PartialEq, Eq, Structural, Debug)]
pub enum StakeError {
    /// The freeze period has not yet passed since staking.
    FreezePeriodNotPassed,
}

} // verus!
