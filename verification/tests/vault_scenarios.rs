use share_vault::vault::{Vault, VaultError, VaultInterface};
use soroban_sdk::testutils::Address as _;
use soroban_sdk::{Address, Env};

#[test]
fn first_deposit_mints_one_share_per_asset() {
    let env = Env::default();
    let a = Address::generate(&env);
    let mut vault = Vault::new(&env);
    assert_eq!(vault.initialize(&env), Ok(true));
    assert_eq!(vault.deposit(a.clone(), 100), Ok(100));
    assert_eq!(vault.total_assets(), 100);
    assert_eq!(vault.total_shares(), 100);
    assert_eq!(vault.balance_of(a), 100);
    assert_eq!(vault.price_per_share(), 1);
}

#[test]
fn second_deposit_keeps_the_ratio() {
    let env = Env::default();
    let a = Address::generate(&env);
    let b = Address::generate(&env);
    let mut vault = Vault::new(&env);
    assert_eq!(vault.initialize(&env), Ok(true));
    assert_eq!(vault.deposit(a.clone(), 100), Ok(100));
    assert_eq!(vault.deposit(b.clone(), 50), Ok(50));
    assert_eq!(vault.total_assets(), 150);
    assert_eq!(vault.total_shares(), 150);
    assert_eq!(vault.balance_of(a), 100);
    assert_eq!(vault.balance_of(b), 50);
}

#[test]
fn withdrawal_returns_the_proportional_assets() {
    let env = Env::default();
    let a = Address::generate(&env);
    let b = Address::generate(&env);
    let mut vault = Vault::new(&env);
    assert_eq!(vault.initialize(&env), Ok(true));
    assert_eq!(vault.deposit(a.clone(), 100), Ok(100));
    assert_eq!(vault.deposit(b.clone(), 50), Ok(50));
    assert_eq!(vault.withdraw(a.clone(), 100), Ok(100));
    assert_eq!(vault.total_assets(), 50);
    assert_eq!(vault.total_shares(), 50);
    assert_eq!(vault.balance_of(a), 0);
    assert_eq!(vault.balance_of(b), 50);
}

#[test]
fn second_initialize_is_refused() {
    let env = Env::default();
    let mut vault = Vault::new(&env);
    assert_eq!(vault.initialize(&env), Ok(true));
    assert_eq!(vault.initialize(&env), Err(VaultError::AlreadyInitialized));
}

#[test]
fn deposit_before_initialize_is_refused() {
    let env = Env::default();
    let a = Address::generate(&env);
    let mut vault = Vault::new(&env);
    assert_eq!(vault.deposit(a.clone(), 100), Err(VaultError::NotInitialized));
    assert_eq!(vault.withdraw(a, 100), Err(VaultError::NotInitialized));
    assert_eq!(vault.total_assets(), 0);
    assert_eq!(vault.total_shares(), 0);
}
