//! The kernel's laws: what holds of every ledger, proved once and for all
//! over the spec transitions that the executable operations implement.

use vstd::prelude::*;

use crate::addr::pda_of;
use crate::errors::KernelError;
use crate::ledger::{
    spec_initialize, spec_make, spec_refund, spec_take, spec_withdraw, LedgerModel,
};
use crate::records::VaultRec;

verus! {

/// Derivation is deterministic: the same seed components and the same
/// program key always yield the same address and proof, so an address can
/// be recomputed and compared on every access.
pub proof fn lemma_derive_deterministic(
    s1: Seq<Seq<u8>>,
    p1: Seq<u8>,
    s2: Seq<Seq<u8>>,
    p2: Seq<u8>,
)
    requires
        s1 == s2,
        p1 == p2,
    ensures
        pda_of(s1, p1) == pda_of(s2, p2),
{
}

/// Initializing a vault under a successful derivation stores exactly the
/// derived address and proof in the new record, so deriving again for the
/// same `(owner, seed)` yields the address on record.
pub proof fn lemma_initialize_stores_derived(
    m: LedgerModel,
    owner: Seq<u8>,
    seed: u64,
    a: Seq<u8>,
    b: u8,
)
    requires
        !m.vaults.contains_key(a),
    ensures
        ({
            let (m2, res) = spec_initialize(m, owner, seed, Some((a, b)));
            &&& res == Ok::<(), KernelError>(())
            &&& m2.vaults.contains_key(a)
            &&& m2.vaults[a] == (VaultRec { owner, seed, addr: a, bump: b })
            &&& m2.balances == m.balances
            &&& m2.escrows == m.escrows
        }),
{
}

/// A withdrawal by the owner succeeds for every amount within the
/// custodied balance and moves exactly that amount from custody to the
/// owner; for any amount above the custodied balance it fails with
/// `InsufficientLockedFunds` and leaves the ledger unchanged.
pub proof fn lemma_withdraw_by_owner(m: LedgerModel, caller: Seq<u8>, addr: Seq<u8>, amount: u64)
    requires
        m.vaults.contains_key(addr),
        caller == m.vaults[addr].owner,
        m.vaults[addr].addr == addr,
        caller != addr,
        m.bal(caller, m.base_asset) + amount <= u64::MAX,
    ensures
        ({
            let d = Some((addr, m.vaults[addr].bump));
            let (m2, res) = spec_withdraw(m, caller, addr, amount, d);
            &&& (amount <= m.bal(addr, m.base_asset) ==> {
                &&& res == Ok::<(), KernelError>(())
                &&& m2.bal(addr, m.base_asset) == m.bal(addr, m.base_asset) - amount
                &&& m2.bal(caller, m.base_asset) == m.bal(caller, m.base_asset) + amount
                &&& m2.vaults == m.vaults
                &&& m2.escrows == m.escrows
            })
            &&& (amount > m.bal(addr, m.base_asset) ==> {
                &&& res == Err::<(), KernelError>(KernelError::InsufficientLockedFunds)
                &&& m2 == m
            })
        }),
{
}

/// A withdrawal by any principal other than the record's owner always
/// fails with `Unauthorized` — whatever the amount and whatever the
/// re-derivation yielded — and the ledger is unchanged.
pub proof fn lemma_withdraw_unauthorized(
    m: LedgerModel,
    caller: Seq<u8>,
    addr: Seq<u8>,
    amount: u64,
    d: Option<(Seq<u8>, u8)>,
)
    requires
        m.vaults.contains_key(addr),
        caller != m.vaults[addr].owner,
    ensures
        spec_withdraw(m, caller, addr, amount, d) == (m, Err::<(), KernelError>(
            KernelError::Unauthorized,
        )),
{
}

/// A refund by the maker of a funded escrow returns the full offered
/// amount to the maker and deletes the record.
pub proof fn lemma_refund_by_maker(m: LedgerModel, addr: Seq<u8>)
    requires
        m.escrows.contains_key(addr),
        m.escrows[addr].addr == addr,
        m.escrows[addr].maker != addr,
        m.bal(addr, m.escrows[addr].offered_asset) >= m.escrows[addr].offered_amount,
        m.bal(m.escrows[addr].maker, m.escrows[addr].offered_asset)
            + m.escrows[addr].offered_amount <= u64::MAX,
    ensures
        ({
            let rec = m.escrows[addr];
            let d = Some((addr, rec.bump));
            let (m2, res) = spec_refund(m, rec.maker, addr, d);
            &&& res == Ok::<(), KernelError>(())
            &&& !m2.escrows.contains_key(addr)
            &&& m2.bal(rec.maker, rec.offered_asset) == m.bal(rec.maker, rec.offered_asset)
                + rec.offered_amount
            &&& m2.bal(addr, rec.offered_asset) == m.bal(addr, rec.offered_asset)
                - rec.offered_amount
            &&& m2.vaults == m.vaults
        }),
{
}

/// Escrow round trip: a make followed by a take settles the swap exactly.
/// The maker ends with the requested amount added and the offered amount
/// gone, the taker with the offered amount added and the requested amount
/// gone, the custody address holds what it held before the escrow, and
/// the record no longer exists.
pub proof fn lemma_make_then_take(
    m: LedgerModel,
    maker: Seq<u8>,
    taker: Seq<u8>,
    seed: u64,
    offered_amount: u64,
    requested_amount: u64,
    offered_asset: Seq<u8>,
    requested_asset: Seq<u8>,
    a: Seq<u8>,
    b: u8,
)
    requires
        !m.escrows.contains_key(a),
        maker != a,
        taker != a,
        taker != maker,
        offered_asset != requested_asset,
        m.bal(maker, offered_asset) >= offered_amount,
        m.bal(a, offered_asset) + offered_amount <= u64::MAX,
        m.bal(taker, requested_asset) >= requested_amount,
        m.bal(maker, requested_asset) + requested_amount <= u64::MAX,
        m.bal(taker, offered_asset) + offered_amount <= u64::MAX,
    ensures
        ({
            let (m2, r1) = spec_make(
                m,
                maker,
                seed,
                offered_amount,
                requested_amount,
                offered_asset,
                requested_asset,
                Some((a, b)),
            );
            let (m3, r2) = spec_take(
                m2,
                taker,
                a,
                offered_asset,
                requested_asset,
                Some((a, b)),
            );
            &&& r1 == Ok::<(), KernelError>(())
            &&& r2 == Ok::<(), KernelError>(())
            &&& m3.bal(maker, requested_asset) == m.bal(maker, requested_asset)
                + requested_amount
            &&& m3.bal(maker, offered_asset) == m.bal(maker, offered_asset) - offered_amount
            &&& m3.bal(taker, offered_asset) == m.bal(taker, offered_asset) + offered_amount
            &&& m3.bal(taker, requested_asset) == m.bal(taker, requested_asset)
                - requested_amount
            &&& m3.bal(a, offered_asset) == m.bal(a, offered_asset)
            &&& !m3.escrows.contains_key(a)
            &&& m3.escrows == m.escrows
            &&& m3.vaults == m.vaults
        }),
{
}

/// Escrow refund round trip: a make followed by a refund by the maker
/// returns the full offered amount, so the maker's balance is exactly what
/// it was before the escrow, and the record no longer exists.
pub proof fn lemma_make_then_refund(
    m: LedgerModel,
    maker: Seq<u8>,
    seed: u64,
    offered_amount: u64,
    requested_amount: u64,
    offered_asset: Seq<u8>,
    requested_asset: Seq<u8>,
    a: Seq<u8>,
    b: u8,
)
    requires
        !m.escrows.contains_key(a),
        maker != a,
        m.bal(maker, offered_asset) >= offered_amount,
        m.bal(a, offered_asset) + offered_amount <= u64::MAX,
    ensures
        ({
            let (m2, r1) = spec_make(
                m,
                maker,
                seed,
                offered_amount,
                requested_amount,
                offered_asset,
                requested_asset,
                Some((a, b)),
            );
            let (m3, r2) = spec_refund(m2, maker, a, Some((a, b)));
            &&& r1 == Ok::<(), KernelError>(())
            &&& r2 == Ok::<(), KernelError>(())
            &&& m3.bal(maker, offered_asset) == m.bal(maker, offered_asset)
            &&& m3.bal(a, offered_asset) == m.bal(a, offered_asset)
            &&& !m3.escrows.contains_key(a)
            &&& m3.escrows == m.escrows
            &&& m3.vaults == m.vaults
        }),
{
}

/// A refund by any principal other than the record's maker always fails
/// with `Unauthorized` and the ledger is unchanged.
pub proof fn lemma_refund_unauthorized(
    m: LedgerModel,
    caller: Seq<u8>,
    addr: Seq<u8>,
    d: Option<(Seq<u8>, u8)>,
)
    requires
        m.escrows.contains_key(addr),
        caller != m.escrows[addr].maker,
    ensures
        spec_refund(m, caller, addr, d) == (m, Err::<(), KernelError>(KernelError::Unauthorized)),
{
}

/// Mutual exclusion, first direction: once a take has settled a record,
/// any refund of the same record fails with `RecordGone`, whoever calls
/// and whatever derivation is presented.
pub proof fn lemma_take_excludes_refund(
    m: LedgerModel,
    taker: Seq<u8>,
    addr: Seq<u8>,
    offered_asset: Seq<u8>,
    requested_asset: Seq<u8>,
    d: Option<(Seq<u8>, u8)>,
    caller2: Seq<u8>,
    d2: Option<(Seq<u8>, u8)>,
)
    requires
        ({
            let (m2, res) = spec_take(m, taker, addr, offered_asset, requested_asset, d);
            res == Ok::<(), KernelError>(())
        }),
    ensures
        ({
            let (m2, res) = spec_take(m, taker, addr, offered_asset, requested_asset, d);
            spec_refund(m2, caller2, addr, d2) == (m2, Err::<(), KernelError>(
                KernelError::RecordGone,
            ))
        }),
{
}

/// Mutual exclusion, second direction: once a refund has closed a record,
/// any take of the same record fails with `RecordGone`.
pub proof fn lemma_refund_excludes_take(
    m: LedgerModel,
    caller: Seq<u8>,
    addr: Seq<u8>,
    d: Option<(Seq<u8>, u8)>,
    taker2: Seq<u8>,
    offered_asset: Seq<u8>,
    requested_asset: Seq<u8>,
    d2: Option<(Seq<u8>, u8)>,
)
    requires
        ({
            let (m2, res) = spec_refund(m, caller, addr, d);
            res == Ok::<(), KernelError>(())
        }),
    ensures
        ({
            let (m2, res) = spec_refund(m, caller, addr, d);
            spec_take(m2, taker2, addr, offered_asset, requested_asset, d2) == (m2, Err::<
                (),
                KernelError,
            >(KernelError::RecordGone))
        }),
{
}

/// Withdrawing the same amount twice in sequence: the first call succeeds,
/// and once it has exhausted the custodied balance the second call fails
/// with `InsufficientLockedFunds` — the custody never pays out more than
/// it held.
pub proof fn lemma_withdraw_twice(m: LedgerModel, caller: Seq<u8>, addr: Seq<u8>, amount: u64)
    requires
        m.vaults.contains_key(addr),
        caller == m.vaults[addr].owner,
        m.vaults[addr].addr == addr,
        caller != addr,
        0 < amount,
        amount <= m.bal(addr, m.base_asset),
        m.bal(addr, m.base_asset) < amount + amount,
        m.bal(caller, m.base_asset) + amount <= u64::MAX,
    ensures
        ({
            let d = Some((addr, m.vaults[addr].bump));
            let (m2, r1) = spec_withdraw(m, caller, addr, amount, d);
            let (m3, r2) = spec_withdraw(m2, caller, addr, amount, d);
            &&& r1 == Ok::<(), KernelError>(())
            &&& r2 == Err::<(), KernelError>(KernelError::InsufficientLockedFunds)
            &&& m3 == m2
            &&& m2.bal(addr, m.base_asset) == m.bal(addr, m.base_asset) - amount
        }),
{
}

} // verus!

