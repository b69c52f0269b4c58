//! The security-token transfer gate: program configuration, the whitelist
//! of permitted recipients, and the decision rules consulted on every
//! mint and transfer. Unpacking the host's packed account data happens
//! outside the kernel; these rules take the unpacked plain values.

use vstd::prelude::*;

use crate::addr::{addr_eq, Address};
use crate::errors::{ErrorCode, KernelError, TransferError};

verus! {

/// The program's configuration record.
pub struct Config {
    pub owner: Address,
    pub price: u64,
    pub max_supply: u64,
}

/// The whitelist of permitted recipient accounts and its authority.
pub struct WhiteList {
    pub authority: Address,
    pub white_list: Vec<Address>,
}

impl WhiteList {
    pub open spec fn spec_contains(&self, k: Seq<u8>) -> bool {
        exists|i: int| 0 <= i < self.white_list@.len() && self.white_list@[i]@ == k
    }

    /// Whether `k` is a whitelisted recipient.
    pub fn contains(&self, k: &Address) -> (r: bool)
        ensures
            r == self.spec_contains(k@),
    {
        let mut i: usize = 0;
        while i < self.white_list.len()
            invariant
                i <= self.white_list@.len(),
                forall|j: int| 0 <= j < i ==> self.white_list@[j]@ != k@,
            decreases self.white_list@.len() - i,
        {
            if addr_eq(&self.white_list[i], k) {
                return true;
            }
            i = i + 1;
        }
        false
    }
}

/// Sets a new token price. Only the configuration's owner may do so; any
/// other caller fails the guard and the configuration is unchanged.
pub fn update_price(config: &mut Config, caller: &Address, new_price: u64) -> (r: Result<
    (),
    KernelError,
>)
    ensures
        caller@ == old(config).owner@ ==> r == Ok::<(), KernelError>(())
            && final(config).price == new_price && final(config).owner == old(config).owner
            && final(config).max_supply == old(config).max_supply,
        caller@ != old(config).owner@ ==> r == Err::<(), KernelError>(KernelError::Unauthorized)
            && *final(config) == *old(config),
{
    if !addr_eq(caller, &config.owner) {
        return Err(KernelError::Unauthorized);
    }
    config.price = new_price;
    Ok(())
}

/// Adds an account to the whitelist. Only the whitelist's authority may do
/// so; any other signer fails the guard and the whitelist is unchanged.
pub fn whitelist_add(wl: &mut WhiteList, signer: &Address, new_account: &Address) -> (r: Result<
    (),
    KernelError,
>)
    ensures
        signer@ != old(wl).authority@ ==> r == Err::<(), KernelError>(KernelError::Unauthorized)
            && *final(wl) == *old(wl),
        signer@ == old(wl).authority@ ==> {
            &&& r == Ok::<(), KernelError>(())
            &&& final(wl).authority == old(wl).authority
            &&& final(wl).white_list@.len() == old(wl).white_list@.len() + 1
            &&& final(wl).white_list@[old(wl).white_list@.len() as int]@ == new_account@
            &&& (forall|i: int| 0 <= i < old(wl).white_list@.len()
                ==> final(wl).white_list@[i] == old(wl).white_list@[i])
            &&& final(wl).spec_contains(new_account@)
        },
{
    if !addr_eq(signer, &wl.authority) {
        return Err(KernelError::Unauthorized);
    }
    wl.white_list.push(new_account.dup());
    Ok(())
}

/// The transfer-gate decision: a transfer is permitted only while the
/// source account is marked as transferring and the destination is
/// whitelisted. Each rejection names its reason, and permission is granted
/// if and only if both rules hold.
pub fn transfer_hook(wl: &WhiteList, transferring: bool, destination: &Address) -> (r: Result<
    (),
    TransferError,
>)
    ensures
        (match r {
            Ok(()) => transferring && wl.spec_contains(destination@),
            Err(e) => (e == TransferError::IsNotCurrentlyTransferring && !transferring) || (e
                == TransferError::NotWhitelisted && transferring && !wl.spec_contains(
                destination@,
            )),
        }),
{
    if !transferring {
        return Err(TransferError::IsNotCurrentlyTransferring);
    }
    if !wl.contains(destination) {
        return Err(TransferError::NotWhitelisted);
    }
    Ok(())
}

/// Validates a freshly created mint: its transfer-hook extension must name
/// the paying principal as authority and this program as the hook program.
pub fn check_mint_data(
    hook_authority: &Option<Address>,
    hook_program: &Option<Address>,
    payer: &Address,
    program: &Address,
) -> (r: bool)
    ensures
        r == ((match hook_authority {
            Some(a) => a@ == payer@,
            None => false,
        }) && (match hook_program {
            Some(p) => p@ == program@,
            None => false,
        })),
{
    let auth_ok = match hook_authority {
        Some(a) => addr_eq(a, payer),
        None => false,
    };
    let prog_ok = match hook_program {
        Some(p) => addr_eq(p, program),
        None => false,
    };
    auth_ok && prog_ok
}

/// The cost of minting `mint_amount` tokens at the configured price: the
/// exact product, or `MathOverflow` exactly where the product does not fit
/// an amount.
pub fn mint_tokens(config: &Config, mint_amount: u64) -> (r: Result<u64, ErrorCode>)
    ensures
        (match r {
            Ok(cost) => cost == config.price * mint_amount && config.price * mint_amount
                <= u64::MAX,
            Err(e) => e == ErrorCode::MathOverflow && config.price * mint_amount > u64::MAX,
        }),
{
    match config.price.checked_mul(mint_amount) {
        Some(cost) => Ok(cost),
        None => Err(ErrorCode::MathOverflow),
    }
}

} // verus!
