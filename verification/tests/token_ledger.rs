use share_vault::token::{Token, TokenError};
use soroban_sdk::testutils::Address as _;
use soroban_sdk::{Address, Env};

fn issued(owner: &Address, supply: u128) -> Token {
    let mut token = Token::new();
    assert_eq!(
        token.initialize("Gold".to_string(), "GLD".to_string(), 7, supply, owner.clone()),
        Ok(true)
    );
    token
}

#[test]
fn new_token_reads_as_undefined() {
    let env = Env::default();
    let a = Address::generate(&env);
    let b = Address::generate(&env);
    let token = Token::new();
    assert_eq!(token.name(), "undefined");
    assert_eq!(token.symbol(), "undefined");
    assert_eq!(token.decimals(), 0);
    assert_eq!(token.total_supply(), 0);
    assert_eq!(token.balance_of(a.clone()), 0);
    assert_eq!(token.allowance(a, b), 0);
}

#[test]
fn initialize_names_the_token_and_funds_the_owner() {
    let env = Env::default();
    let a = Address::generate(&env);
    let b = Address::generate(&env);
    let token = issued(&a, 1000);
    assert_eq!(token.name(), "Gold");
    assert_eq!(token.symbol(), "GLD");
    assert_eq!(token.decimals(), 7);
    assert_eq!(token.total_supply(), 1000);
    assert_eq!(token.balance_of(a), 1000);
    assert_eq!(token.balance_of(b), 0);
}

#[test]
fn second_token_initialize_is_refused() {
    let env = Env::default();
    let a = Address::generate(&env);
    let b = Address::generate(&env);
    let mut token = issued(&a, 1000);
    assert_eq!(
        token.initialize("Lead".to_string(), "PB".to_string(), 2, 5, b.clone()),
        Err(TokenError::AlreadyInitialized)
    );
    assert_eq!(token.name(), "Gold");
    assert_eq!(token.symbol(), "GLD");
    assert_eq!(token.decimals(), 7);
    assert_eq!(token.total_supply(), 1000);
    assert_eq!(token.balance_of(a), 1000);
    assert_eq!(token.balance_of(b), 0);
}

#[test]
fn transfer_moves_the_amount() {
    let env = Env::default();
    let a = Address::generate(&env);
    let b = Address::generate(&env);
    let mut token = issued(&a, 1000);
    assert_eq!(token.transfer(a.clone(), b.clone(), 300), Ok(true));
    assert_eq!(token.balance_of(a.clone()), 700);
    assert_eq!(token.balance_of(b.clone()), 300);
    assert_eq!(token.transfer(b.clone(), a.clone(), 300), Ok(true));
    assert_eq!(token.balance_of(a), 1000);
    assert_eq!(token.balance_of(b), 0);
    assert_eq!(token.total_supply(), 1000);
}

#[test]
fn transfer_beyond_the_balance_is_refused() {
    let env = Env::default();
    let a = Address::generate(&env);
    let b = Address::generate(&env);
    let mut token = issued(&a, 1000);
    assert_eq!(token.transfer(a.clone(), b.clone(), 1001), Err(TokenError::InsufficientBalance));
    assert_eq!(token.transfer(b.clone(), a.clone(), 1), Err(TokenError::InsufficientBalance));
    assert_eq!(token.balance_of(a), 1000);
    assert_eq!(token.balance_of(b), 0);
}

#[test]
fn transfer_to_oneself_keeps_the_balance() {
    let env = Env::default();
    let a = Address::generate(&env);
    let mut token = issued(&a, u128::MAX);
    assert_eq!(token.transfer(a.clone(), a.clone(), u128::MAX), Ok(true));
    assert_eq!(token.balance_of(a.clone()), u128::MAX);
    assert_eq!(token.transfer(a.clone(), a.clone(), 0), Ok(true));
    assert_eq!(token.balance_of(a), u128::MAX);
}

#[test]
fn transfer_that_overflows_the_receiver_is_refused() {
    let env = Env::default();
    let a = Address::generate(&env);
    let b = Address::generate(&env);
    let mut token = issued(&a, 10);
    token.balances.set(b.clone(), u128::MAX - 4);
    assert_eq!(token.transfer(a.clone(), b.clone(), 5), Err(TokenError::Overflow));
    assert_eq!(token.balance_of(a.clone()), 10);
    assert_eq!(token.balance_of(b.clone()), u128::MAX - 4);
    assert_eq!(token.transfer(a.clone(), b.clone(), 4), Ok(true));
    assert_eq!(token.balance_of(a), 6);
    assert_eq!(token.balance_of(b), u128::MAX);
}

#[test]
fn approve_sets_the_allowance() {
    let env = Env::default();
    let a = Address::generate(&env);
    let b = Address::generate(&env);
    let mut token = issued(&a, 1000);
    assert!(token.approve(a.clone(), b.clone(), 50));
    assert_eq!(token.allowance(a.clone(), b.clone()), 50);
    assert_eq!(token.allowance(b.clone(), a.clone()), 0);
    assert!(token.approve(a.clone(), b.clone(), 20));
    assert_eq!(token.allowance(a, b), 20);
}

#[test]
fn transfer_from_uses_up_the_allowance() {
    let env = Env::default();
    let a = Address::generate(&env);
    let b = Address::generate(&env);
    let c = Address::generate(&env);
    let mut token = issued(&a, 1000);
    assert!(token.approve(a.clone(), b.clone(), 50));
    assert_eq!(token.transfer_from(b.clone(), a.clone(), c.clone(), 30), Ok(true));
    assert_eq!(token.allowance(a.clone(), b.clone()), 20);
    assert_eq!(token.balance_of(a.clone()), 970);
    assert_eq!(token.balance_of(c.clone()), 30);
    assert_eq!(token.balance_of(b.clone()), 0);
    assert_eq!(
        token.transfer_from(b.clone(), a.clone(), c.clone(), 21),
        Err(TokenError::AllowanceExceeded)
    );
    assert_eq!(token.allowance(a.clone(), b), 20);
    assert_eq!(token.balance_of(a), 970);
    assert_eq!(token.balance_of(c), 30);
}

#[test]
fn transfer_from_without_allowance_is_refused() {
    let env = Env::default();
    let a = Address::generate(&env);
    let b = Address::generate(&env);
    let mut token = issued(&a, 1000);
    assert!(token.approve(a.clone(), b.clone(), 50));
    assert_eq!(
        token.transfer_from(a.clone(), b.clone(), a.clone(), 1),
        Err(TokenError::AllowanceExceeded)
    );
    assert_eq!(token.transfer_from(a.clone(), b.clone(), a.clone(), 0), Ok(true));
    assert_eq!(token.balance_of(a), 1000);
}

#[test]
fn transfer_from_beyond_the_balance_keeps_the_allowance() {
    let env = Env::default();
    let a = Address::generate(&env);
    let b = Address::generate(&env);
    let c = Address::generate(&env);
    let mut token = issued(&a, 10);
    assert!(token.approve(a.clone(), b.clone(), 50));
    assert_eq!(
        token.transfer_from(b.clone(), a.clone(), c.clone(), 11),
        Err(TokenError::InsufficientBalance)
    );
    assert_eq!(token.allowance(a.clone(), b.clone()), 50);
    assert_eq!(token.balance_of(a.clone()), 10);
    assert_eq!(token.balance_of(c.clone()), 0);
    token.balances.set(c.clone(), u128::MAX);
    assert_eq!(token.transfer_from(b.clone(), a.clone(), c, 1), Err(TokenError::Overflow));
    assert_eq!(token.allowance(a.clone(), b), 50);
    assert_eq!(token.balance_of(a), 10);
}

#[test]
fn initialize_replaces_an_earlier_balance_of_the_owner() {
    let env = Env::default();
    let a = Address::generate(&env);
    let mut token = Token::new();
    token.balances.set(a.clone(), 3);
    assert_eq!(
        token.initialize("Gold".to_string(), "GLD".to_string(), 7, 1000, a.clone()),
        Ok(true)
    );
    assert_eq!(token.balance_of(a), 1000);
}
