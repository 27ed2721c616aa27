use time_locked::keys::AccountKey;
use time_locked::pda::derive_address;
use time_locked::registry::Registry;
use time_locked::state::{TOKEN_RENT, VAULT_RENT};
use time_locked::vault::ErrorCode;

fn key(b: u8) -> AccountKey {
    AccountKey::new(vec![b; 32])
}

#[test]
fn derive_address_is_deterministic() {
    let owner = key(1);
    let id = b"abc".to_vec();
    let (a1, bump1) = derive_address(&owner, &id).unwrap();
    let (a2, bump2) = derive_address(&owner, &id).unwrap();
    assert_eq!(a1.bytes(), a2.bytes());
    assert_eq!(bump1, bump2);
}

#[test]
fn derive_address_separates_inputs() {
    let owner = key(1);
    let other = key(2);
    let id = b"abc".to_vec();
    let id2 = b"abd".to_vec();
    let (a1, _) = derive_address(&owner, &id).unwrap();
    let (a2, _) = derive_address(&owner, &id2).unwrap();
    let (a3, _) = derive_address(&other, &id).unwrap();
    assert_ne!(a1.bytes(), a2.bytes());
    assert_ne!(a1.bytes(), a3.bytes());
    assert_ne!(a2.bytes(), a3.bytes());
    // the derived authority is a new key, not an echo of an input
    assert_ne!(a1.bytes(), owner.bytes());
}

#[test]
fn native_lifecycle_scenario() {
    let mut reg = Registry::new();
    let a = key(1);
    assert!(reg.fund_native(&a, 10_000_000));
    assert_eq!(
        reg.initialize_lock(&a, b"abc".to_vec(), 1_000_000, 1_700_000_000, 1_699_000_000),
        Ok(())
    );
    let (addr, _) = derive_address(&a, &b"abc".to_vec()).unwrap();
    {
        let v = reg.vault_at(&addr).unwrap();
        assert_eq!(v.id, b"abc".to_vec());
        assert_eq!(v.owner.bytes(), a.bytes());
        assert!(v.mint.is_none());
        assert_eq!(v.amount, 1_000_000);
        assert_eq!(v.unlock_time, 1_700_000_000);
        assert_eq!(v.created_at, 1_699_000_000);
    }
    assert_eq!(reg.native_balance(&a), 10_000_000 - 1_000_000 - VAULT_RENT);
    assert_eq!(reg.native_balance(&addr), 1_000_000 + VAULT_RENT);

    // one second early: refused, vault untouched
    assert_eq!(
        reg.withdraw(&a, &addr, 1_699_999_999),
        Err(ErrorCode::VaultNotUnlocked)
    );
    assert!(reg.vault_at(&addr).is_some());

    // exactly at the unlock time: the whole holding comes back
    let before = reg.native_balance(&a);
    assert_eq!(reg.withdraw(&a, &addr, 1_700_000_000), Ok(()));
    assert_eq!(reg.native_balance(&a), before + 1_000_000 + VAULT_RENT);
    assert_eq!(reg.native_balance(&a), 10_000_000);
    assert!(reg.vault_at(&addr).is_none());
    assert_eq!(reg.native_balance(&addr), 0);
}

#[test]
fn no_double_create() {
    let mut reg = Registry::new();
    let a = key(1);
    let mint = key(9);
    reg.register_mint(&mint, 6);
    assert!(reg.fund_native(&a, 100_000_000));
    assert!(reg.fund_token(&a, &mint, 1_000));
    assert_eq!(
        reg.initialize_lock(&a, b"x".to_vec(), 100, 1_700_000_000, 5),
        Ok(())
    );
    assert_eq!(
        reg.initialize_lock(&a, b"x".to_vec(), 7, 9, 5),
        Err(ErrorCode::VaultAlreadyExists)
    );
    assert_eq!(
        reg.spl_initialize(&a, b"x".to_vec(), 7, 9, &mint, 6, 5),
        Err(ErrorCode::VaultAlreadyExists)
    );
    // a different id is a different address
    assert_eq!(
        reg.initialize_lock(&a, b"y".to_vec(), 100, 1_700_000_000, 5),
        Ok(())
    );
}

#[test]
fn ownership_gate_reports_absence() {
    let mut reg = Registry::new();
    let a = key(1);
    let stranger = key(2);
    assert!(reg.fund_native(&a, 10_000_000));
    assert_eq!(reg.initialize_lock(&a, b"x".to_vec(), 100, 50, 40), Ok(()));
    let (addr, _) = derive_address(&a, &b"x".to_vec()).unwrap();
    // a non-owner is told the vault does not exist, even after unlock
    assert_eq!(
        reg.withdraw(&stranger, &addr, 1_000_000),
        Err(ErrorCode::VaultDoesNotExist)
    );
    assert!(reg.vault_at(&addr).is_some());
    // an absent record gives the same answer
    let (other, _) = derive_address(&stranger, &b"x".to_vec()).unwrap();
    assert_eq!(
        reg.withdraw(&stranger, &other, 1_000_000),
        Err(ErrorCode::VaultDoesNotExist)
    );
}

#[test]
fn create_requires_funds() {
    let mut reg = Registry::new();
    let a = key(1);
    assert!(reg.fund_native(&a, VAULT_RENT + 99));
    assert_eq!(
        reg.initialize_lock(&a, b"x".to_vec(), 100, 50, 40),
        Err(ErrorCode::InsufficientFunds)
    );
    let (addr, _) = derive_address(&a, &b"x".to_vec()).unwrap();
    assert!(reg.vault_at(&addr).is_none());
    assert_eq!(reg.native_balance(&a), VAULT_RENT + 99);
}

#[test]
fn create_refuses_overfull_address() {
    let mut reg = Registry::new();
    let a = key(1);
    let (addr, _) = derive_address(&a, &b"x".to_vec()).unwrap();
    assert!(reg.fund_native(&a, 10_000_000));
    assert!(reg.fund_native(&addr, u64::MAX));
    assert_eq!(
        reg.initialize_lock(&a, b"x".to_vec(), 100, 50, 40),
        Err(ErrorCode::BalanceOverflow)
    );
    assert_eq!(reg.native_balance(&a), 10_000_000);
}

#[test]
fn recreate_after_release() {
    let mut reg = Registry::new();
    let a = key(1);
    assert!(reg.fund_native(&a, 10_000_000));
    assert_eq!(reg.initialize_lock(&a, b"x".to_vec(), 100, 50, 40), Ok(()));
    let (addr, _) = derive_address(&a, &b"x".to_vec()).unwrap();
    assert_eq!(reg.withdraw(&a, &addr, 50), Ok(()));
    assert!(reg.vault_at(&addr).is_none());
    // the address is free again: a fresh, independent vault appears
    assert_eq!(reg.initialize_lock(&a, b"x".to_vec(), 777, 90, 60), Ok(()));
    let v = reg.vault_at(&addr).unwrap();
    assert_eq!(v.amount, 777);
    assert_eq!(v.unlock_time, 90);
    assert_eq!(v.created_at, 60);
}

#[test]
fn token_lifecycle_scenario() {
    let mut reg = Registry::new();
    let owner = key(3);
    let mint = key(9);
    reg.register_mint(&mint, 6);
    assert!(reg.fund_native(&owner, 10_000_000));
    assert!(reg.fund_token(&owner, &mint, 500));
    assert_eq!(
        reg.spl_initialize(&owner, b"tk".to_vec(), 400, 100, &mint, 6, 50),
        Ok(())
    );
    let (addr, _) = derive_address(&owner, &b"tk".to_vec()).unwrap();
    {
        let v = reg.vault_at(&addr).unwrap();
        assert_eq!(v.amount, 400);
        assert!(v.mint.is_some());
        assert_eq!(v.mint.as_ref().unwrap().bytes(), mint.bytes());
    }
    assert_eq!(reg.token_balance(&owner, &mint), 100);
    assert_eq!(reg.token_balance(&addr, &mint), 400);
    assert_eq!(reg.native_balance(&owner), 10_000_000 - VAULT_RENT - TOKEN_RENT);

    // wrong declared precision: refused, and nothing has moved
    assert_eq!(
        reg.spl_withdraw(&owner, &addr, 9, 100),
        Err(ErrorCode::DecimalMismatch)
    );
    assert_eq!(reg.token_balance(&addr, &mint), 400);
    assert_eq!(reg.token_balance(&owner, &mint), 100);
    assert!(reg.vault_at(&addr).is_some());
    assert_eq!(reg.native_balance(&owner), 10_000_000 - VAULT_RENT - TOKEN_RENT);

    // too early
    assert_eq!(
        reg.spl_withdraw(&owner, &addr, 6, 99),
        Err(ErrorCode::VaultNotUnlocked)
    );

    // in time, with the right precision: tokens and both deposits come back
    assert_eq!(reg.spl_withdraw(&owner, &addr, 6, 100), Ok(()));
    assert_eq!(reg.token_balance(&owner, &mint), 500);
    assert_eq!(reg.token_balance(&addr, &mint), 0);
    assert_eq!(reg.native_balance(&owner), 10_000_000);
    assert!(reg.vault_at(&addr).is_none());
}

#[test]
fn token_create_gates() {
    let mut reg = Registry::new();
    let owner = key(3);
    let mint = key(9);
    let unknown = key(8);
    assert!(reg.fund_native(&owner, 10_000_000));
    assert!(reg.fund_token(&owner, &mint, 10));
    reg.register_mint(&mint, 6);
    assert_eq!(
        reg.spl_initialize(&owner, b"a".to_vec(), 5, 9, &unknown, 6, 5),
        Err(ErrorCode::UnknownMint)
    );
    assert_eq!(
        reg.spl_initialize(&owner, b"a".to_vec(), 5, 9, &mint, 7, 5),
        Err(ErrorCode::DecimalMismatch)
    );
    assert_eq!(
        reg.spl_initialize(&owner, b"a".to_vec(), 11, 9, &mint, 6, 5),
        Err(ErrorCode::InsufficientFunds)
    );
    assert_eq!(
        reg.spl_initialize(&owner, b"a".to_vec(), 5, 9, &mint, 6, 5),
        Ok(())
    );
}

#[test]
fn native_vault_is_not_a_token_vault() {
    let mut reg = Registry::new();
    let a = key(1);
    assert!(reg.fund_native(&a, 10_000_000));
    assert_eq!(reg.initialize_lock(&a, b"x".to_vec(), 100, 50, 40), Ok(()));
    let (addr, _) = derive_address(&a, &b"x".to_vec()).unwrap();
    assert_eq!(
        reg.spl_withdraw(&a, &addr, 6, 1_000),
        Err(ErrorCode::VaultIsNotSplToken)
    );
    assert!(reg.vault_at(&addr).is_some());
}

#[test]
fn token_subaccount_must_empty_on_release() {
    let mut reg = Registry::new();
    let owner = key(3);
    let mint = key(9);
    reg.register_mint(&mint, 6);
    assert!(reg.fund_native(&owner, 10_000_000));
    assert!(reg.fund_token(&owner, &mint, 500));
    assert_eq!(
        reg.spl_initialize(&owner, b"tk".to_vec(), 400, 100, &mint, 6, 50),
        Ok(())
    );
    let (addr, _) = derive_address(&owner, &b"tk".to_vec()).unwrap();
    // stray tokens sent into the sub-account block the close, atomically
    assert!(reg.fund_token(&addr, &mint, 1));
    assert_eq!(
        reg.spl_withdraw(&owner, &addr, 6, 100),
        Err(ErrorCode::TokenAccountNotEmpty)
    );
    assert_eq!(reg.token_balance(&addr, &mint), 401);
    assert!(reg.vault_at(&addr).is_some());
}

#[test]
fn withdraw_reports_absence_for_empty_registry() {
    let mut reg = Registry::new();
    let a = key(1);
    let (addr, _) = derive_address(&a, &b"nothing".to_vec()).unwrap();
    assert_eq!(
        reg.withdraw(&a, &addr, i64::MAX),
        Err(ErrorCode::VaultDoesNotExist)
    );
    assert_eq!(
        reg.spl_withdraw(&a, &addr, 0, i64::MAX),
        Err(ErrorCode::VaultDoesNotExist)
    );
}

#[test]
fn overlong_id_cannot_derive() {
    let a = key(1);
    // a seed may hold at most 32 bytes, so a 33-byte id never derives
    let id = vec![7u8; 33];
    assert!(derive_address(&a, &id).is_none());
    let mut reg = Registry::new();
    assert!(reg.fund_native(&a, 10_000_000));
    assert_eq!(
        reg.initialize_lock(&a, id, 100, 50, 40),
        Err(ErrorCode::DerivationFailed)
    );
    assert_eq!(reg.native_balance(&a), 10_000_000);
}

#[test]
fn empty_id_derives() {
    let a = key(1);
    let (addr, _) = derive_address(&a, &Vec::new()).unwrap();
    let mut reg = Registry::new();
    assert!(reg.fund_native(&a, 10_000_000));
    assert_eq!(reg.initialize_lock(&a, Vec::new(), 1, 50, 40), Ok(()));
    assert!(reg.vault_at(&addr).is_some());
}

#[test]
fn funding_refuses_overflow() {
    let mut reg = Registry::new();
    let a = key(1);
    assert!(reg.fund_native(&a, u64::MAX));
    assert!(!reg.fund_native(&a, 1));
    assert_eq!(reg.native_balance(&a), u64::MAX);
}

#[test]
fn native_withdraw_of_token_vault_leaves_holding() {
    // a native release checks no asset: it closes the record and refunds the
    // record's own balance, leaving the token sub-account in place
    let mut reg = Registry::new();
    let owner = key(3);
    let mint = key(9);
    reg.register_mint(&mint, 6);
    assert!(reg.fund_native(&owner, 10_000_000));
    assert!(reg.fund_token(&owner, &mint, 500));
    assert_eq!(
        reg.spl_initialize(&owner, b"tk".to_vec(), 400, 100, &mint, 6, 50),
        Ok(())
    );
    let (addr, _) = derive_address(&owner, &b"tk".to_vec()).unwrap();
    assert_eq!(reg.withdraw(&owner, &addr, 100), Ok(()));
    assert!(reg.vault_at(&addr).is_none());
    assert_eq!(reg.token_balance(&addr, &mint), 400);
    // only the record's deposit came back, not the sub-account's
    assert_eq!(reg.native_balance(&owner), 10_000_000 - TOKEN_RENT);
}
