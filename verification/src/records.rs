//! Persistent records of the custody kernel.
//!
//! A record describes one custody relationship and is keyed by its derived
//! custody address. A vault record persists for the life of the vault; an
//! escrow record exists exactly while the swap is pending.

use vstd::prelude::*;

use crate::addr::Address;

verus! {

/// One vault custody relationship: the principal permitted to withdraw, the
/// seed value that disambiguates several vaults per owner, the derived
/// custody address, and the derivation proof (bump).
pub struct VaultState {
    pub owner: Address,
    pub seed: u64,
    pub addr: Address,
    pub bump: u8,
}

/// The mathematical model of a vault record.
#[verifier::ext_equal]
pub struct VaultRec {
    pub owner: Seq<u8>,
    pub seed: u64,
    pub addr: Seq<u8>,
    pub bump: u8,
}

impl View for VaultState {
    type V = VaultRec;

    open spec fn view(&self) -> VaultRec {
        VaultRec { owner: self.owner@, seed: self.seed, addr: self.addr@, bump: self.bump }
    }
}

impl VaultState {
    pub open spec fn wf(&self) -> bool {
        self.owner.wf() && self.addr.wf()
    }
}

/// One pending escrow: the maker, the seed value, the derived custody
/// address and its proof, and the terms of the exchange.
pub struct EscrowRecord {
    pub maker: Address,
    pub seed: u64,
    pub addr: Address,
    pub bump: u8,
    pub offered_amount: u64,
    pub requested_amount: u64,
    pub offered_asset: Address,
    pub requested_asset: Address,
}

/// The mathematical model of an escrow record.
#[verifier::ext_equal]
pub struct EscrowRec {
    pub maker: Seq<u8>,
    pub seed: u64,
    pub addr: Seq<u8>,
    pub bump: u8,
    pub offered_amount: u64,
    pub requested_amount: u64,
    pub offered_asset: Seq<u8>,
    pub requested_asset: Seq<u8>,
}

impl View for EscrowRecord {
    type V = EscrowRec;

    open spec fn view(&self) -> EscrowRec {
        EscrowRec {
            maker: self.maker@,
            seed: self.seed,
            addr: self.addr@,
            bump: self.bump,
            offered_amount: self.offered_amount,
            requested_amount: self.requested_amount,
            offered_asset: self.offered_asset@,
            requested_asset: self.requested_asset@,
        }
    }
}

impl EscrowRecord {
    pub open spec fn wf(&self) -> bool {
        self.maker.wf() && self.addr.wf() && self.offered_asset.wf()
            && self.requested_asset.wf()
    }
}

/// One balance: how much of one asset one holder has on the modeled ledger.
pub struct BalanceEntry {
    pub holder: Address,
    pub asset: Address,
    pub amount: u64,
}

impl BalanceEntry {
    pub open spec fn key(&self) -> (Seq<u8>, Seq<u8>) {
        (self.holder@, self.asset@)
    }

    pub open spec fn wf(&self) -> bool {
        self.holder.wf() && self.asset.wf()
    }
}

} // verus!
