//! Checks of the transfer gate's decision rules.

use custody_kernel::addr::Address;
use custody_kernel::errors::{ErrorCode, KernelError, TransferError};
use custody_kernel::gate::{
    check_mint_data, mint_tokens, transfer_hook, update_price, whitelist_add, Config, WhiteList,
};

fn key(n: u8) -> Address {
    Address::from_bytes(vec![n; 32])
}

#[test]
fn update_price_respects_the_owner() {
    let mut config = Config { owner: key(1), price: 10, max_supply: 1000 };
    assert_eq!(update_price(&mut config, &key(2), 99), Err(KernelError::Unauthorized));
    assert_eq!(config.price, 10);
    assert_eq!(update_price(&mut config, &key(1), 99), Ok(()));
    assert_eq!(config.price, 99);
    assert_eq!(config.max_supply, 1000);
}

#[test]
fn whitelist_add_respects_the_authority() {
    let mut wl = WhiteList { authority: key(1), white_list: Vec::new() };
    assert_eq!(whitelist_add(&mut wl, &key(2), &key(5)), Err(KernelError::Unauthorized));
    assert_eq!(wl.white_list.len(), 0);
    assert_eq!(whitelist_add(&mut wl, &key(1), &key(5)), Ok(()));
    assert_eq!(wl.white_list.len(), 1);
    assert_eq!(wl.white_list[0].bytes, key(5).bytes);
    assert!(wl.contains(&key(5)));
    assert!(!wl.contains(&key(6)));
}

#[test]
fn transfer_hook_decides_all_three_ways() {
    let mut wl = WhiteList { authority: key(1), white_list: Vec::new() };
    whitelist_add(&mut wl, &key(1), &key(5)).unwrap();
    assert_eq!(
        transfer_hook(&wl, false, &key(5)),
        Err(TransferError::IsNotCurrentlyTransferring)
    );
    assert_eq!(transfer_hook(&wl, true, &key(6)), Err(TransferError::NotWhitelisted));
    assert_eq!(transfer_hook(&wl, true, &key(5)), Ok(()));
}

#[test]
fn check_mint_data_requires_both_fields() {
    let payer = key(1);
    let program = key(2);
    assert!(check_mint_data(&Some(key(1)), &Some(key(2)), &payer, &program));
    assert!(!check_mint_data(&Some(key(3)), &Some(key(2)), &payer, &program));
    assert!(!check_mint_data(&Some(key(1)), &Some(key(3)), &payer, &program));
    assert!(!check_mint_data(&None, &Some(key(2)), &payer, &program));
    assert!(!check_mint_data(&Some(key(1)), &None, &payer, &program));
}

#[test]
fn mint_cost_is_the_exact_product() {
    let config = Config { owner: key(1), price: 25, max_supply: 1000 };
    assert_eq!(mint_tokens(&config, 4), Ok(100));
    assert_eq!(mint_tokens(&config, 0), Ok(0));
    let dear = Config { owner: key(1), price: u64::MAX, max_supply: 1000 };
    assert_eq!(mint_tokens(&dear, 2), Err(ErrorCode::MathOverflow));
    assert_eq!(mint_tokens(&dear, 1), Ok(u64::MAX));
}
