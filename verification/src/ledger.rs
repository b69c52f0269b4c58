//! The custody kernel: a vault and escrow state machine over a keyed store.
//!
//! A `Ledger` holds every vault record, every pending escrow record, and
//! the modeled balances of all parties and custody addresses. Each
//! operation is one atomic request: it runs the authorization guard first,
//! re-derives the custody address it is about to touch, and either applies
//! every balance movement and record change or returns an error with all
//! state untouched. The mathematical meaning of each operation is a spec
//! transition on `LedgerModel`, and every executable operation ensures it
//! implements its transition exactly.

use vstd::prelude::*;

use crate::addr::{
    addr_eq, pda_of, spec_escrow_seeds, spec_vault_seeds, escrow_seeds, vault_seeds, Address,
};
use crate::errors::KernelError;
use crate::records::{EscrowRec, EscrowRecord, VaultRec, VaultState};
use crate::store::{BalanceTable, EscrowTable, VaultTable};

verus! {

/// The mathematical model of the whole ledger.
#[verifier::ext_equal]
pub struct LedgerModel {
    pub program: Seq<u8>,
    pub base_asset: Seq<u8>,
    pub vaults: Map<Seq<u8>, VaultRec>,
    pub escrows: Map<Seq<u8>, EscrowRec>,
    pub balances: Map<(Seq<u8>, Seq<u8>), u64>,
}

impl LedgerModel {
    /// What `h` holds of asset `a`; a balance never written is zero.
    pub open spec fn bal(self, h: Seq<u8>, a: Seq<u8>) -> u64 {
        if self.balances.contains_key((h, a)) {
            self.balances[(h, a)]
        } else {
            0
        }
    }

    /// The model with one balance replaced.
    pub open spec fn with_bal(self, h: Seq<u8>, a: Seq<u8>, x: u64) -> LedgerModel {
        LedgerModel { balances: self.balances.insert((h, a), x), ..self }
    }
}

/// The re-derivation of a vault record's custody address from its stored
/// seed components, as the authorization guard recomputes it.
pub open spec fn vault_rederive(m: LedgerModel, addr: Seq<u8>) -> Option<(Seq<u8>, u8)> {
    pda_of(spec_vault_seeds(m.vaults[addr].owner, m.vaults[addr].seed), m.program)
}

/// The re-derivation of an escrow record's custody address from its stored
/// seed components.
pub open spec fn escrow_rederive(m: LedgerModel, addr: Seq<u8>) -> Option<(Seq<u8>, u8)> {
    pda_of(spec_escrow_seeds(m.escrows[addr].maker, m.escrows[addr].seed), m.program)
}

/// Creating a vault record for `(owner, seed)` under the derived address
/// `d`: fails where derivation failed or the address is already in use.
pub open spec fn spec_initialize(
    m: LedgerModel,
    owner: Seq<u8>,
    seed: u64,
    d: Option<(Seq<u8>, u8)>,
) -> (LedgerModel, Result<(), KernelError>) {
    match d {
        None => (m, Err(KernelError::InvalidSeeds)),
        Some((a, b)) => if m.vaults.contains_key(a) {
            (m, Err(KernelError::AlreadyExists))
        } else {
            (
                LedgerModel {
                    vaults: m.vaults.insert(a, VaultRec { owner, seed, addr: a, bump: b }),
                    ..m
                },
                Ok(()),
            )
        },
    }
}

/// Crediting a party from outside the kernel (the host hands value in).
pub open spec fn spec_credit(m: LedgerModel, h: Seq<u8>, a: Seq<u8>, amount: u64) -> (
    LedgerModel,
    Result<(), KernelError>,
) {
    if m.bal(h, a) + amount > u64::MAX {
        (m, Err(KernelError::Overflow))
    } else {
        (m.with_bal(h, a, (m.bal(h, a) + amount) as u64), Ok(()))
    }
}

/// Moving `amount` of the base asset from `funder` into the vault custody
/// at `addr`. Anyone holding the funds may top up a vault.
pub open spec fn spec_deposit(
    m: LedgerModel,
    funder: Seq<u8>,
    addr: Seq<u8>,
    amount: u64,
    d: Option<(Seq<u8>, u8)>,
) -> (LedgerModel, Result<(), KernelError>) {
    if !m.vaults.contains_key(addr) {
        (m, Err(KernelError::RecordGone))
    } else {
        let rec = m.vaults[addr];
        if d != Some((rec.addr, rec.bump)) {
            (m, Err(KernelError::AddressMismatch))
        } else {
            let fb = m.bal(funder, m.base_asset);
            if fb < amount {
                (m, Err(KernelError::InsufficientFunds))
            } else {
                let m1 = m.with_bal(funder, m.base_asset, (fb - amount) as u64);
                let cb = m1.bal(addr, m.base_asset);
                if cb + amount > u64::MAX {
                    (m, Err(KernelError::Overflow))
                } else {
                    (m1.with_bal(addr, m.base_asset, (cb + amount) as u64), Ok(()))
                }
            }
        }
    }
}

/// Moving `amount` of the base asset out of the vault custody at `addr` to
/// the caller. Only the record's owner may withdraw, and only up to the
/// custodied balance.
pub open spec fn spec_withdraw(
    m: LedgerModel,
    caller: Seq<u8>,
    addr: Seq<u8>,
    amount: u64,
    d: Option<(Seq<u8>, u8)>,
) -> (LedgerModel, Result<(), KernelError>) {
    if !m.vaults.contains_key(addr) {
        (m, Err(KernelError::RecordGone))
    } else {
        let rec = m.vaults[addr];
        if caller != rec.owner {
            (m, Err(KernelError::Unauthorized))
        } else if d != Some((rec.addr, rec.bump)) {
            (m, Err(KernelError::AddressMismatch))
        } else {
            let cb = m.bal(addr, m.base_asset);
            if cb < amount {
                (m, Err(KernelError::InsufficientLockedFunds))
            } else {
                let m1 = m.with_bal(addr, m.base_asset, (cb - amount) as u64);
                let ob = m1.bal(caller, m.base_asset);
                if ob + amount > u64::MAX {
                    (m, Err(KernelError::Overflow))
                } else {
                    (m1.with_bal(caller, m.base_asset, (ob + amount) as u64), Ok(()))
                }
            }
        }
    }
}

/// Opening an escrow: derives the custody address for `(maker, seed)`,
/// records the terms, and moves the offered amount from the maker into
/// custody, all or nothing.
pub open spec fn spec_make(
    m: LedgerModel,
    maker: Seq<u8>,
    seed: u64,
    offered_amount: u64,
    requested_amount: u64,
    offered_asset: Seq<u8>,
    requested_asset: Seq<u8>,
    d: Option<(Seq<u8>, u8)>,
) -> (LedgerModel, Result<(), KernelError>) {
    match d {
        None => (m, Err(KernelError::InvalidSeeds)),
        Some((a, b)) => if m.escrows.contains_key(a) {
            (m, Err(KernelError::AlreadyExists))
        } else {
            let mb = m.bal(maker, offered_asset);
            if mb < offered_amount {
                (m, Err(KernelError::InsufficientFunds))
            } else {
                let m1 = m.with_bal(maker, offered_asset, (mb - offered_amount) as u64);
                let cb = m1.bal(a, offered_asset);
                if cb + offered_amount > u64::MAX {
                    (m, Err(KernelError::Overflow))
                } else {
                    let m2 = m1.with_bal(a, offered_asset, (cb + offered_amount) as u64);
                    let rec = EscrowRec {
                        maker,
                        seed,
                        addr: a,
                        bump: b,
                        offered_amount,
                        requested_amount,
                        offered_asset,
                        requested_asset,
                    };
                    (LedgerModel { escrows: m2.escrows.insert(a, rec), ..m2 }, Ok(()))
                }
            }
        },
    }
}

/// Settling an escrow: the taker pays the requested amount straight to the
/// maker, receives the custodied offered amount, and the record is deleted.
pub open spec fn spec_take(
    m: LedgerModel,
    taker: Seq<u8>,
    addr: Seq<u8>,
    offered_asset: Seq<u8>,
    requested_asset: Seq<u8>,
    d: Option<(Seq<u8>, u8)>,
) -> (LedgerModel, Result<(), KernelError>) {
    if !m.escrows.contains_key(addr) {
        (m, Err(KernelError::RecordGone))
    } else {
        let rec = m.escrows[addr];
        if d != Some((rec.addr, rec.bump)) {
            (m, Err(KernelError::AddressMismatch))
        } else if offered_asset != rec.offered_asset || requested_asset != rec.requested_asset {
            (m, Err(KernelError::AssetMismatch))
        } else {
            let tb = m.bal(taker, rec.requested_asset);
            if tb < rec.requested_amount {
                (m, Err(KernelError::InsufficientFunds))
            } else {
                let m1 = m.with_bal(taker, rec.requested_asset, (tb - rec.requested_amount) as u64);
                let mb = m1.bal(rec.maker, rec.requested_asset);
                if mb + rec.requested_amount > u64::MAX {
                    (m, Err(KernelError::Overflow))
                } else {
                    let m2 = m1.with_bal(
                        rec.maker,
                        rec.requested_asset,
                        (mb + rec.requested_amount) as u64,
                    );
                    let cb = m2.bal(addr, rec.offered_asset);
                    if cb < rec.offered_amount {
                        (m, Err(KernelError::InsufficientLockedFunds))
                    } else {
                        let m3 = m2.with_bal(addr, rec.offered_asset, (cb - rec.offered_amount) as u64);
                        let tb2 = m3.bal(taker, rec.offered_asset);
                        if tb2 + rec.offered_amount > u64::MAX {
                            (m, Err(KernelError::Overflow))
                        } else {
                            let m4 = m3.with_bal(
                                taker,
                                rec.offered_asset,
                                (tb2 + rec.offered_amount) as u64,
                            );
                            (LedgerModel { escrows: m4.escrows.remove(addr), ..m4 }, Ok(()))
                        }
                    }
                }
            }
        }
    }
}

/// Refunding an escrow: only the maker may reclaim the custodied offered
/// amount; the record is deleted.
pub open spec fn spec_refund(
    m: LedgerModel,
    caller: Seq<u8>,
    addr: Seq<u8>,
    d: Option<(Seq<u8>, u8)>,
) -> (LedgerModel, Result<(), KernelError>) {
    if !m.escrows.contains_key(addr) {
        (m, Err(KernelError::RecordGone))
    } else {
        let rec = m.escrows[addr];
        if caller != rec.maker {
            (m, Err(KernelError::Unauthorized))
        } else if d != Some((rec.addr, rec.bump)) {
            (m, Err(KernelError::AddressMismatch))
        } else {
            let cb = m.bal(addr, rec.offered_asset);
            if cb < rec.offered_amount {
                (m, Err(KernelError::InsufficientLockedFunds))
            } else {
                let m1 = m.with_bal(addr, rec.offered_asset, (cb - rec.offered_amount) as u64);
                let mb = m1.bal(rec.maker, rec.offered_asset);
                if mb + rec.offered_amount > u64::MAX {
                    (m, Err(KernelError::Overflow))
                } else {
                    let m2 = m1.with_bal(rec.maker, rec.offered_asset, (mb + rec.offered_amount) as u64);
                    (LedgerModel { escrows: m2.escrows.remove(addr), ..m2 }, Ok(()))
                }
            }
        }
    }
}

/// The authorization guard: compares the caller to the stored principal
/// by exact identity equality. Every mutating operation consults it before
/// any balance movement, so a failed check leaves all state untouched.
pub fn authorize(stored: &Address, caller: &Address) -> (r: Result<(), KernelError>)
    ensures
        (match r {
            Ok(()) => caller@ == stored@,
            Err(e) => e == KernelError::Unauthorized && caller@ != stored@,
        }),
{
    if addr_eq(caller, stored) {
        Ok(())
    } else {
        Err(KernelError::Unauthorized)
    }
}

/// The custody kernel's state: one program key, one base asset for the
/// plain vault, and the keyed store of records and balances.
pub struct Ledger {
    pub program: Address,
    pub base_asset: Address,
    pub vaults: VaultTable,
    pub escrows: EscrowTable,
    pub balances: BalanceTable,
}

impl View for Ledger {
    type V = LedgerModel;

    open spec fn view(&self) -> LedgerModel {
        LedgerModel {
            program: self.program@,
            base_asset: self.base_asset@,
            vaults: self.vaults@,
            escrows: self.escrows@,
            balances: self.balances@,
        }
    }
}

impl Ledger {
    /// Structural well-formedness: 32-byte keys throughout, and pairwise
    /// distinct keys in every table.
    pub open spec fn inv(&self) -> bool {
        self.program.wf() && self.base_asset.wf() && self.vaults.wf() && self.escrows.wf()
            && self.balances.wf()
    }

    /// A fresh ledger with no records and no balances.
    pub fn new(program: Address, base_asset: Address) -> (r: Ledger)
        requires
            program.wf(),
            base_asset.wf(),
        ensures
            r.inv(),
            r@.program == program@,
            r@.base_asset == base_asset@,
            r@.vaults == Map::<Seq<u8>, VaultRec>::empty(),
            r@.escrows == Map::<Seq<u8>, EscrowRec>::empty(),
            r@.balances == Map::<(Seq<u8>, Seq<u8>), u64>::empty(),
    {
        Ledger {
            program,
            base_asset,
            vaults: VaultTable::new(),
            escrows: EscrowTable::new(),
            balances: BalanceTable::new(),
        }
    }

    /// What `holder` has of `asset`, custody addresses included.
    pub fn balance_of(&self, holder: &Address, asset: &Address) -> (r: u64)
        requires
            self.inv(),
        ensures
            r == self@.bal(holder@, asset@),
    {
        self.balances.get(holder, asset)
    }

    /// The vault record at a custody address, if one exists.
    pub fn get_vault(&self, addr: &Address) -> (r: Option<&VaultState>)
        requires
            self.inv(),
        ensures
            (match r {
                Some(rec) => self@.vaults.contains_key(addr@) && self@.vaults[addr@] == rec@,
                None => !self@.vaults.contains_key(addr@),
            }),
    {
        match self.vaults.find(addr) {
            Some(i) => Some(&self.vaults.entries[i]),
            None => None,
        }
    }

    /// The pending escrow record at a custody address, if one exists.
    pub fn get_escrow(&self, addr: &Address) -> (r: Option<&EscrowRecord>)
        requires
            self.inv(),
        ensures
            (match r {
                Some(rec) => self@.escrows.contains_key(addr@) && self@.escrows[addr@] == rec@,
                None => !self@.escrows.contains_key(addr@),
            }),
    {
        match self.escrows.find(addr) {
            Some(i) => Some(&self.escrows.entries[i]),
            None => None,
        }
    }

    /// Hands value in from outside the kernel: the host credits `holder`
    /// with `amount` of `asset`.
    pub fn credit(&mut self, holder: &Address, asset: &Address, amount: u64) -> (r: Result<
        (),
        KernelError,
    >)
        requires
            old(self).inv(),
            holder.wf(),
            asset.wf(),
        ensures
            final(self).inv(),
            ({
                let (m2, res) = spec_credit(old(self)@, holder@, asset@, amount);
                final(self)@ == m2 && r == res
            }),
    {
        let b = self.balances.get(holder, asset);
        if b > u64::MAX - amount {
            return Err(KernelError::Overflow);
        }
        self.balances.set(holder, asset, b + amount);
        proof {
            let (m2, res) = spec_credit(old(self)@, holder@, asset@, amount);
            assert(self@ =~= m2);
        }
        Ok(())
    }

    /// Creates the vault record and custody address for `(owner, seed)`.
    pub fn initialize(&mut self, owner: &Address, seed: u64) -> (r: Result<(), KernelError>)
        requires
            old(self).inv(),
            owner.wf(),
        ensures
            final(self).inv(),
            ({
                let (m2, res) = spec_initialize(
                    old(self)@,
                    owner@,
                    seed,
                    pda_of(spec_vault_seeds(owner@, seed), old(self)@.program),
                );
                final(self)@ == m2 && r == res
            }),
    {
        let seeds = vault_seeds(owner, seed);
        let (a, b) = match crate::addr::derive(&seeds, &self.program) {
            Ok(p) => p,
            Err(e) => {
                return Err(e);
            },
        };
        match self.vaults.find(&a) {
            Some(_) => Err(KernelError::AlreadyExists),
            None => {
                self.vaults.push_new(VaultState { owner: owner.dup(), seed, addr: a, bump: b });
                proof {
                    let (m2, res) = spec_initialize(
                        old(self)@,
                        owner@,
                        seed,
                        pda_of(spec_vault_seeds(owner@, seed), old(self)@.program),
                    );
                    assert(self@ =~= m2);
                }
                Ok(())
            },
        }
    }

    /// Moves `amount` of the base asset from `funder` into the vault
    /// custody at `addr`.
    pub fn deposit(&mut self, funder: &Address, addr: &Address, amount: u64) -> (r: Result<
        (),
        KernelError,
    >)
        requires
            old(self).inv(),
            funder.wf(),
        ensures
            final(self).inv(),
            ({
                let (m2, res) = spec_deposit(
                    old(self)@,
                    funder@,
                    addr@,
                    amount,
                    vault_rederive(old(self)@, addr@),
                );
                final(self)@ == m2 && r == res
            }),
    {
        let i = match self.vaults.find(addr) {
            None => {
                return Err(KernelError::RecordGone);
            },
            Some(i) => i,
        };
        let rec_owner = self.vaults.entries[i].owner.dup();
        let rec_seed = self.vaults.entries[i].seed;
        let rec_bump = self.vaults.entries[i].bump;
        let seeds = vault_seeds(&rec_owner, rec_seed);
        let ok = match crate::addr::derive(&seeds, &self.program) {
            Ok(p) => addr_eq(&p.0, addr) && p.1 == rec_bump,
            Err(_) => false,
        };
        if !ok {
            return Err(KernelError::AddressMismatch);
        }
        let fb = self.balances.get(funder, &self.base_asset);
        if fb < amount {
            return Err(KernelError::InsufficientFunds);
        }
        let cb = if addr_eq(funder, addr) {
            fb - amount
        } else {
            self.balances.get(addr, &self.base_asset)
        };
        if cb > u64::MAX - amount {
            return Err(KernelError::Overflow);
        }
        proof {
            assert(addr.wf());
        }
        let base = self.base_asset.dup();
        self.balances.set(funder, &base, fb - amount);
        self.balances.set(addr, &base, cb + amount);
        proof {
            let (m2, res) = spec_deposit(
                old(self)@,
                funder@,
                addr@,
                amount,
                vault_rederive(old(self)@, addr@),
            );
            assert(self@ =~= m2);
        }
        Ok(())
    }

    /// Moves `amount` of the base asset from the vault custody at `addr`
    /// to the caller, who must be the record's owner.
    pub fn withdraw(&mut self, caller: &Address, addr: &Address, amount: u64) -> (r: Result<
        (),
        KernelError,
    >)
        requires
            old(self).inv(),
            caller.wf(),
        ensures
            final(self).inv(),
            ({
                let (m2, res) = spec_withdraw(
                    old(self)@,
                    caller@,
                    addr@,
                    amount,
                    vault_rederive(old(self)@, addr@),
                );
                final(self)@ == m2 && r == res
            }),
    {
        let i = match self.vaults.find(addr) {
            None => {
                return Err(KernelError::RecordGone);
            },
            Some(i) => i,
        };
        if let Err(e) = authorize(&self.vaults.entries[i].owner, caller) {
            return Err(e);
        }
        let rec_owner = self.vaults.entries[i].owner.dup();
        let rec_seed = self.vaults.entries[i].seed;
        let rec_bump = self.vaults.entries[i].bump;
        let seeds = vault_seeds(&rec_owner, rec_seed);
        let ok = match crate::addr::derive(&seeds, &self.program) {
            Ok(p) => addr_eq(&p.0, addr) && p.1 == rec_bump,
            Err(_) => false,
        };
        if !ok {
            return Err(KernelError::AddressMismatch);
        }
        let cb = self.balances.get(addr, &self.base_asset);
        if cb < amount {
            return Err(KernelError::InsufficientLockedFunds);
        }
        let ob = if addr_eq(caller, addr) {
            cb - amount
        } else {
            self.balances.get(caller, &self.base_asset)
        };
        if ob > u64::MAX - amount {
            return Err(KernelError::Overflow);
        }
        proof {
            assert(addr.wf());
        }
        let base = self.base_asset.dup();
        self.balances.set(addr, &base, cb - amount);
        self.balances.set(caller, &base, ob + amount);
        proof {
            let (m2, res) = spec_withdraw(
                old(self)@,
                caller@,
                addr@,
                amount,
                vault_rederive(old(self)@, addr@),
            );
            assert(self@ =~= m2);
        }
        Ok(())
    }

    /// Opens an escrow for `(maker, seed)`: derives the custody address,
    /// persists the terms, and moves the offered amount into custody.
    pub fn make(
        &mut self,
        maker: &Address,
        seed: u64,
        offered_amount: u64,
        requested_amount: u64,
        offered_asset: &Address,
        requested_asset: &Address,
    ) -> (r: Result<(), KernelError>)
        requires
            old(self).inv(),
            maker.wf(),
            offered_asset.wf(),
            requested_asset.wf(),
        ensures
            final(self).inv(),
            ({
                let (m2, res) = spec_make(
                    old(self)@,
                    maker@,
                    seed,
                    offered_amount,
                    requested_amount,
                    offered_asset@,
                    requested_asset@,
                    pda_of(spec_escrow_seeds(maker@, seed), old(self)@.program),
                );
                final(self)@ == m2 && r == res
            }),
    {
        let seeds = escrow_seeds(maker, seed);
        let (a, b) = match crate::addr::derive(&seeds, &self.program) {
            Ok(p) => p,
            Err(e) => {
                return Err(e);
            },
        };
        if self.escrows.find(&a).is_some() {
            return Err(KernelError::AlreadyExists);
        }
        let mb = self.balances.get(maker, offered_asset);
        if mb < offered_amount {
            return Err(KernelError::InsufficientFunds);
        }
        let cb = if addr_eq(maker, &a) {
            mb - offered_amount
        } else {
            self.balances.get(&a, offered_asset)
        };
        if cb > u64::MAX - offered_amount {
            return Err(KernelError::Overflow);
        }
        self.balances.set(maker, offered_asset, mb - offered_amount);
        self.balances.set(&a, offered_asset, cb + offered_amount);
        self.escrows.push_new(
            EscrowRecord {
                maker: maker.dup(),
                seed,
                addr: a,
                bump: b,
                offered_amount,
                requested_amount,
                offered_asset: offered_asset.dup(),
                requested_asset: requested_asset.dup(),
            },
        );
        proof {
            let (m2, res) = spec_make(
                old(self)@,
                maker@,
                seed,
                offered_amount,
                requested_amount,
                offered_asset@,
                requested_asset@,
                pda_of(spec_escrow_seeds(maker@, seed), old(self)@.program),
            );
            assert(self@ =~= m2);
        }
        Ok(())
    }

    /// Settles the escrow at `addr`: the taker pays the requested amount
    /// directly to the maker and receives the custodied offered amount;
    /// the record is deleted.
    pub fn take(
        &mut self,
        taker: &Address,
        addr: &Address,
        offered_asset: &Address,
        requested_asset: &Address,
    ) -> (r: Result<(), KernelError>)
        requires
            old(self).inv(),
            taker.wf(),
        ensures
            final(self).inv(),
            ({
                let (m2, res) = spec_take(
                    old(self)@,
                    taker@,
                    addr@,
                    offered_asset@,
                    requested_asset@,
                    escrow_rederive(old(self)@, addr@),
                );
                final(self)@ == m2 && r == res
            }),
    {
        let i = match self.escrows.find(addr) {
            None => {
                return Err(KernelError::RecordGone);
            },
            Some(i) => i,
        };
        let rec_maker = self.escrows.entries[i].maker.dup();
        let rec_seed = self.escrows.entries[i].seed;
        let rec_bump = self.escrows.entries[i].bump;
        let off_amt = self.escrows.entries[i].offered_amount;
        let req_amt = self.escrows.entries[i].requested_amount;
        let off_asset = self.escrows.entries[i].offered_asset.dup();
        let req_asset = self.escrows.entries[i].requested_asset.dup();
        let seeds = escrow_seeds(&rec_maker, rec_seed);
        let ok = match crate::addr::derive(&seeds, &self.program) {
            Ok(p) => addr_eq(&p.0, addr) && p.1 == rec_bump,
            Err(_) => false,
        };
        if !ok {
            return Err(KernelError::AddressMismatch);
        }
        if !(addr_eq(offered_asset, &off_asset) && addr_eq(requested_asset, &req_asset)) {
            return Err(KernelError::AssetMismatch);
        }
        let tb = self.balances.get(taker, &req_asset);
        if tb < req_amt {
            return Err(KernelError::InsufficientFunds);
        }
        let mb = if addr_eq(&rec_maker, taker) {
            tb - req_amt
        } else {
            self.balances.get(&rec_maker, &req_asset)
        };
        if mb > u64::MAX - req_amt {
            return Err(KernelError::Overflow);
        }
        let cb = if addr_eq(addr, &rec_maker) && addr_eq(&off_asset, &req_asset) {
            mb + req_amt
        } else if addr_eq(addr, taker) && addr_eq(&off_asset, &req_asset) {
            tb - req_amt
        } else {
            self.balances.get(addr, &off_asset)
        };
        if cb < off_amt {
            return Err(KernelError::InsufficientLockedFunds);
        }
        let tb2 = if addr_eq(taker, addr) {
            cb - off_amt
        } else if addr_eq(taker, &rec_maker) && addr_eq(&off_asset, &req_asset) {
            mb + req_amt
        } else if addr_eq(&off_asset, &req_asset) {
            tb - req_amt
        } else {
            self.balances.get(taker, &off_asset)
        };
        if tb2 > u64::MAX - off_amt {
            return Err(KernelError::Overflow);
        }
        proof {
            assert(addr.wf());
        }
        self.balances.set(taker, &req_asset, tb - req_amt);
        self.balances.set(&rec_maker, &req_asset, mb + req_amt);
        self.balances.set(addr, &off_asset, cb - off_amt);
        self.balances.set(taker, &off_asset, tb2 + off_amt);
        self.escrows.remove_at(i);
        proof {
            let (m2, res) = spec_take(
                old(self)@,
                taker@,
                addr@,
                offered_asset@,
                requested_asset@,
                escrow_rederive(old(self)@, addr@),
            );
            assert(self@ =~= m2);
        }
        Ok(())
    }

    /// Refunds the escrow at `addr` to its maker, who must be the caller;
    /// the record is deleted.
    pub fn refund(&mut self, caller: &Address, addr: &Address) -> (r: Result<(), KernelError>)
        requires
            old(self).inv(),
        ensures
            final(self).inv(),
            ({
                let (m2, res) = spec_refund(
                    old(self)@,
                    caller@,
                    addr@,
                    escrow_rederive(old(self)@, addr@),
                );
                final(self)@ == m2 && r == res
            }),
    {
        let i = match self.escrows.find(addr) {
            None => {
                return Err(KernelError::RecordGone);
            },
            Some(i) => i,
        };
        if let Err(e) = authorize(&self.escrows.entries[i].maker, caller) {
            return Err(e);
        }
        let rec_maker = self.escrows.entries[i].maker.dup();
        let rec_seed = self.escrows.entries[i].seed;
        let rec_bump = self.escrows.entries[i].bump;
        let off_amt = self.escrows.entries[i].offered_amount;
        let off_asset = self.escrows.entries[i].offered_asset.dup();
        let seeds = escrow_seeds(&rec_maker, rec_seed);
        let ok = match crate::addr::derive(&seeds, &self.program) {
            Ok(p) => addr_eq(&p.0, addr) && p.1 == rec_bump,
            Err(_) => false,
        };
        if !ok {
            return Err(KernelError::AddressMismatch);
        }
        let cb = self.balances.get(addr, &off_asset);
        if cb < off_amt {
            return Err(KernelError::InsufficientLockedFunds);
        }
        let mb = if addr_eq(&rec_maker, addr) {
            cb - off_amt
        } else {
            self.balances.get(&rec_maker, &off_asset)
        };
        if mb > u64::MAX - off_amt {
            return Err(KernelError::Overflow);
        }
        proof {
            assert(addr.wf());
        }
        self.balances.set(addr, &off_asset, cb - off_amt);
        self.balances.set(&rec_maker, &off_asset, mb + off_amt);
        self.escrows.remove_at(i);
        proof {
            let (m2, res) = spec_refund(
                old(self)@,
                caller@,
                addr@,
                escrow_rederive(old(self)@, addr@),
            );
            assert(self@ =~= m2);
        }
        Ok(())
    }
}

} // verus!
