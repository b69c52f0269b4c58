//! End-to-end checks of the vault and escrow kernel against a real host
//! derivation.

use custody_kernel::addr::{escrow_seeds, vault_seeds, Address};
use custody_kernel::errors::KernelError;
use custody_kernel::ledger::{authorize, Ledger};

fn key(n: u8) -> Address {
    Address::from_bytes(vec![n; 32])
}

fn fresh_ledger() -> Ledger {
    Ledger::new(key(251), key(250))
}

#[test]
fn derivation_is_deterministic() {
    let program = key(251);
    let owner = key(1);
    let s1 = vault_seeds(&owner, 7);
    let s2 = vault_seeds(&owner, 7);
    let a = custody_kernel::addr::derive(&s1, &program).unwrap();
    let b = custody_kernel::addr::derive(&s2, &program).unwrap();
    assert_eq!(a.0.bytes, b.0.bytes);
    assert_eq!(a.1, b.1);
    assert_eq!(a.0.bytes.len(), 32);
}

#[test]
fn derivation_transforms_its_seeds() {
    let program = key(251);
    let owner = key(1);
    let (addr, _) = custody_kernel::addr::derive(&vault_seeds(&owner, 7), &program).unwrap();
    // The derived custody address is a new key, not any seed handed in.
    assert_ne!(addr.bytes, owner.bytes);
    assert_ne!(addr.bytes, program.bytes);
    let (other, _) = custody_kernel::addr::derive(&vault_seeds(&owner, 8), &program).unwrap();
    assert_ne!(addr.bytes, other.bytes);
}

#[test]
fn derivation_rejects_too_many_seeds() {
    let program = key(251);
    let seeds: Vec<Vec<u8>> = vec![Vec::new(); 16];
    assert!(matches!(
        custody_kernel::addr::derive(&seeds, &program),
        Err(KernelError::InvalidSeeds)
    ));
}

#[test]
fn initialize_stores_the_derived_address() {
    let mut ledger = fresh_ledger();
    let owner = key(1);
    assert_eq!(ledger.initialize(&owner, 7), Ok(()));
    let (addr, bump) = custody_kernel::addr::derive(&vault_seeds(&owner, 7), &key(251)).unwrap();
    let rec = ledger.get_vault(&addr).expect("record exists");
    assert_eq!(rec.addr.bytes, addr.bytes);
    assert_eq!(rec.bump, bump);
    assert_eq!(rec.owner.bytes, owner.bytes);
    assert_eq!(rec.seed, 7);
}

#[test]
fn initialize_twice_already_exists() {
    let mut ledger = fresh_ledger();
    let owner = key(1);
    assert_eq!(ledger.initialize(&owner, 7), Ok(()));
    assert_eq!(ledger.initialize(&owner, 7), Err(KernelError::AlreadyExists));
    assert_eq!(ledger.initialize(&owner, 8), Ok(()));
}

#[test]
fn deposit_and_withdraw_move_exact_amounts() {
    let mut ledger = fresh_ledger();
    let base = key(250);
    let owner = key(1);
    ledger.initialize(&owner, 1).unwrap();
    let (custody, _) = custody_kernel::addr::derive(&vault_seeds(&owner, 1), &key(251)).unwrap();
    ledger.credit(&owner, &base, 1000).unwrap();
    assert_eq!(ledger.deposit(&owner, &custody, 400), Ok(()));
    assert_eq!(ledger.balance_of(&custody, &base), 400);
    assert_eq!(ledger.balance_of(&owner, &base), 600);
    assert_eq!(ledger.withdraw(&owner, &custody, 150), Ok(()));
    assert_eq!(ledger.balance_of(&custody, &base), 250);
    assert_eq!(ledger.balance_of(&owner, &base), 750);
}

#[test]
fn withdraw_above_balance_fails_and_changes_nothing() {
    let mut ledger = fresh_ledger();
    let base = key(250);
    let owner = key(1);
    ledger.initialize(&owner, 1).unwrap();
    let (custody, _) = custody_kernel::addr::derive(&vault_seeds(&owner, 1), &key(251)).unwrap();
    ledger.credit(&owner, &base, 100).unwrap();
    ledger.deposit(&owner, &custody, 100).unwrap();
    assert_eq!(
        ledger.withdraw(&owner, &custody, 101),
        Err(KernelError::InsufficientLockedFunds)
    );
    assert_eq!(ledger.balance_of(&custody, &base), 100);
    assert_eq!(ledger.balance_of(&owner, &base), 0);
}

#[test]
fn withdraw_by_non_owner_fails_unauthorized() {
    let mut ledger = fresh_ledger();
    let base = key(250);
    let owner = key(1);
    let intruder = key(2);
    let second_intruder = key(3);
    ledger.initialize(&owner, 1).unwrap();
    let (custody, _) = custody_kernel::addr::derive(&vault_seeds(&owner, 1), &key(251)).unwrap();
    ledger.credit(&owner, &base, 500).unwrap();
    ledger.deposit(&owner, &custody, 500).unwrap();
    assert_eq!(
        ledger.withdraw(&intruder, &custody, 10),
        Err(KernelError::Unauthorized)
    );
    assert_eq!(
        ledger.withdraw(&second_intruder, &custody, 10),
        Err(KernelError::Unauthorized)
    );
    assert_eq!(ledger.balance_of(&custody, &base), 500);
    assert_eq!(ledger.balance_of(&intruder, &base), 0);
    assert_eq!(ledger.balance_of(&second_intruder, &base), 0);
}

#[test]
fn withdraw_twice_never_double_spends() {
    let mut ledger = fresh_ledger();
    let base = key(250);
    let owner = key(1);
    ledger.initialize(&owner, 1).unwrap();
    let (custody, _) = custody_kernel::addr::derive(&vault_seeds(&owner, 1), &key(251)).unwrap();
    ledger.credit(&owner, &base, 70).unwrap();
    ledger.deposit(&owner, &custody, 70).unwrap();
    assert_eq!(ledger.withdraw(&owner, &custody, 70), Ok(()));
    assert_eq!(
        ledger.withdraw(&owner, &custody, 70),
        Err(KernelError::InsufficientLockedFunds)
    );
    assert_eq!(ledger.balance_of(&custody, &base), 0);
    assert_eq!(ledger.balance_of(&owner, &base), 70);
}

#[test]
fn deposit_without_record_or_funds_fails() {
    let mut ledger = fresh_ledger();
    let owner = key(1);
    let nowhere = key(9);
    assert_eq!(
        ledger.deposit(&owner, &nowhere, 5),
        Err(KernelError::RecordGone)
    );
    ledger.initialize(&owner, 1).unwrap();
    let (custody, _) = custody_kernel::addr::derive(&vault_seeds(&owner, 1), &key(251)).unwrap();
    assert_eq!(
        ledger.deposit(&owner, &custody, 5),
        Err(KernelError::InsufficientFunds)
    );
}

#[test]
fn credit_overflow_is_reported() {
    let mut ledger = fresh_ledger();
    let base = key(250);
    let owner = key(1);
    ledger.credit(&owner, &base, u64::MAX).unwrap();
    assert_eq!(ledger.credit(&owner, &base, 1), Err(KernelError::Overflow));
    assert_eq!(ledger.balance_of(&owner, &base), u64::MAX);
}

#[test]
fn escrow_round_trip_settles_the_swap() {
    let mut ledger = fresh_ledger();
    let maker = key(1);
    let taker = key(2);
    let asset_a = key(10);
    let asset_b = key(11);
    ledger.credit(&maker, &asset_a, 100).unwrap();
    ledger.credit(&taker, &asset_b, 50).unwrap();
    assert_eq!(ledger.make(&maker, 1, 100, 50, &asset_a, &asset_b), Ok(()));
    let custody = custody_kernel::addr::derive(&escrow_seeds(&maker, 1), &key(251)).unwrap().0;
    assert_eq!(ledger.balance_of(&custody, &asset_a), 100);
    assert_eq!(ledger.balance_of(&maker, &asset_a), 0);
    assert_eq!(ledger.take(&taker, &custody, &asset_a, &asset_b), Ok(()));
    assert_eq!(ledger.balance_of(&maker, &asset_b), 50);
    assert_eq!(ledger.balance_of(&taker, &asset_a), 100);
    assert_eq!(ledger.balance_of(&taker, &asset_b), 0);
    assert_eq!(ledger.balance_of(&custody, &asset_a), 0);
    assert!(ledger.get_escrow(&custody).is_none());
}

#[test]
fn escrow_refund_returns_the_full_offer() {
    let mut ledger = fresh_ledger();
    let maker = key(1);
    let outsider = key(3);
    let asset_a = key(10);
    let asset_b = key(11);
    ledger.credit(&maker, &asset_a, 100).unwrap();
    ledger.make(&maker, 1, 100, 50, &asset_a, &asset_b).unwrap();
    let custody = custody_kernel::addr::derive(&escrow_seeds(&maker, 1), &key(251)).unwrap().0;
    assert_eq!(
        ledger.refund(&outsider, &custody),
        Err(KernelError::Unauthorized)
    );
    assert_eq!(ledger.refund(&maker, &custody), Ok(()));
    assert_eq!(ledger.balance_of(&maker, &asset_a), 100);
    assert_eq!(ledger.balance_of(&custody, &asset_a), 0);
    assert!(ledger.get_escrow(&custody).is_none());
}

#[test]
fn take_and_refund_are_mutually_exclusive() {
    let mut ledger = fresh_ledger();
    let maker = key(1);
    let taker = key(2);
    let asset_a = key(10);
    let asset_b = key(11);
    ledger.credit(&maker, &asset_a, 200).unwrap();
    ledger.credit(&taker, &asset_b, 100).unwrap();

    ledger.make(&maker, 1, 100, 50, &asset_a, &asset_b).unwrap();
    let custody1 = custody_kernel::addr::derive(&escrow_seeds(&maker, 1), &key(251)).unwrap().0;
    ledger.take(&taker, &custody1, &asset_a, &asset_b).unwrap();
    assert_eq!(ledger.refund(&maker, &custody1), Err(KernelError::RecordGone));

    ledger.make(&maker, 2, 100, 50, &asset_a, &asset_b).unwrap();
    let custody2 = custody_kernel::addr::derive(&escrow_seeds(&maker, 2), &key(251)).unwrap().0;
    ledger.refund(&maker, &custody2).unwrap();
    assert_eq!(
        ledger.take(&taker, &custody2, &asset_a, &asset_b),
        Err(KernelError::RecordGone)
    );
}

#[test]
fn make_twice_already_exists() {
    let mut ledger = fresh_ledger();
    let maker = key(1);
    let asset_a = key(10);
    let asset_b = key(11);
    ledger.credit(&maker, &asset_a, 200).unwrap();
    ledger.make(&maker, 1, 50, 20, &asset_a, &asset_b).unwrap();
    assert_eq!(
        ledger.make(&maker, 1, 50, 20, &asset_a, &asset_b),
        Err(KernelError::AlreadyExists)
    );
}

#[test]
fn take_with_wrong_assets_is_rejected() {
    let mut ledger = fresh_ledger();
    let maker = key(1);
    let taker = key(2);
    let asset_a = key(10);
    let asset_b = key(11);
    let asset_c = key(12);
    ledger.credit(&maker, &asset_a, 100).unwrap();
    ledger.credit(&taker, &asset_b, 50).unwrap();
    ledger.make(&maker, 1, 100, 50, &asset_a, &asset_b).unwrap();
    let custody = custody_kernel::addr::derive(&escrow_seeds(&maker, 1), &key(251)).unwrap().0;
    assert_eq!(
        ledger.take(&taker, &custody, &asset_c, &asset_b),
        Err(KernelError::AssetMismatch)
    );
    assert_eq!(
        ledger.take(&taker, &custody, &asset_a, &asset_c),
        Err(KernelError::AssetMismatch)
    );
    assert_eq!(ledger.balance_of(&custody, &asset_a), 100);
}

#[test]
fn authorize_compares_exact_identity() {
    assert_eq!(authorize(&key(1), &key(1)), Ok(()));
    assert_eq!(authorize(&key(1), &key(2)), Err(KernelError::Unauthorized));
}

#[test]
fn taker_may_settle_their_own_escrow() {
    let mut ledger = fresh_ledger();
    let maker = key(1);
    let asset_a = key(10);
    let asset_b = key(11);
    ledger.credit(&maker, &asset_a, 100).unwrap();
    ledger.credit(&maker, &asset_b, 50).unwrap();
    ledger.make(&maker, 1, 100, 50, &asset_a, &asset_b).unwrap();
    let custody = custody_kernel::addr::derive(&escrow_seeds(&maker, 1), &key(251)).unwrap().0;
    // The maker takes their own escrow: the requested leg pays the maker
    // itself, so every balance ends where it started.
    assert_eq!(ledger.take(&maker, &custody, &asset_a, &asset_b), Ok(()));
    assert_eq!(ledger.balance_of(&maker, &asset_a), 100);
    assert_eq!(ledger.balance_of(&maker, &asset_b), 50);
    assert_eq!(ledger.balance_of(&custody, &asset_a), 0);
    assert!(ledger.get_escrow(&custody).is_none());
}

#[test]
fn withdrawing_nothing_is_allowed_and_changes_nothing() {
    let mut ledger = fresh_ledger();
    let base = key(250);
    let owner = key(1);
    ledger.initialize(&owner, 1).unwrap();
    let custody = custody_kernel::addr::derive(&vault_seeds(&owner, 1), &key(251)).unwrap().0;
    assert_eq!(ledger.withdraw(&owner, &custody, 0), Ok(()));
    assert_eq!(ledger.balance_of(&custody, &base), 0);
    assert_eq!(ledger.balance_of(&owner, &base), 0);
}
