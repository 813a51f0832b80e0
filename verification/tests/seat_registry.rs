use share_vault::nft::{DataKey, SeatError, TourNFTContract, UserDataKey};
use soroban_sdk::testutils::Address as _;
use soroban_sdk::{Address, Env};

#[test]
fn new_registry_keeps_nothing() {
    let env = Env::default();
    let a = Address::generate(&env);
    let registry = TourNFTContract::new();
    assert!(!registry.has(&DataKey::Name));
    assert!(!registry.has(&DataKey::Symbol));
    assert!(!registry.has(&DataKey::Admin));
    assert!(!registry.has_entry(&UserDataKey::TokenOwner(1)));
    assert!(!registry.has_entry(&UserDataKey::Seat(a)));
    assert_eq!(registry.owner_of(1), Err(SeatError::NotFound));
}

#[test]
fn registry_initialize_sets_the_admin_once() {
    let env = Env::default();
    let a = Address::generate(&env);
    let b = Address::generate(&env);
    let mut registry = TourNFTContract::new();
    assert_eq!(registry.initialize("Tour".to_string(), "TOUR".to_string(), a.clone()), Ok(()));
    assert!(registry.has(&DataKey::Name));
    assert!(registry.has(&DataKey::Symbol));
    assert!(registry.has(&DataKey::Admin));
    assert_eq!(registry.admin, Some(a.clone()));
    assert_eq!(
        registry.initialize("Other".to_string(), "OTH".to_string(), b),
        Err(SeatError::AlreadyInitialized)
    );
    assert_eq!(registry.name, Some("Tour".to_string()));
    assert_eq!(registry.symbol, Some("TOUR".to_string()));
    assert_eq!(registry.admin, Some(a));
}

#[test]
fn mint_gives_the_seat_to_its_owner() {
    let env = Env::default();
    let a = Address::generate(&env);
    let b = Address::generate(&env);
    let mut registry = TourNFTContract::new();
    assert_eq!(registry.mint(a.clone(), 12), Ok(()));
    assert_eq!(registry.owner_of(12), Ok(a.clone()));
    assert!(registry.has_entry(&UserDataKey::TokenOwner(12)));
    assert!(registry.has_entry(&UserDataKey::Seat(a.clone())));
    assert!(!registry.has_entry(&UserDataKey::Seat(b.clone())));
    assert_eq!(registry.seats.get(&a), Some(&12));
    assert_eq!(registry.mint(b.clone(), 13), Ok(()));
    assert_eq!(registry.owner_of(13), Ok(b));
    assert_eq!(registry.owner_of(12), Ok(a));
}

#[test]
fn mint_of_an_owned_seat_is_refused() {
    let env = Env::default();
    let a = Address::generate(&env);
    let b = Address::generate(&env);
    let mut registry = TourNFTContract::new();
    assert_eq!(registry.mint(a.clone(), 12), Ok(()));
    assert_eq!(registry.mint(b.clone(), 12), Err(SeatError::AlreadyOwned));
    assert_eq!(registry.owner_of(12), Ok(a));
    assert!(!registry.has_entry(&UserDataKey::Seat(b)));
}

#[test]
fn owner_of_an_unknown_seat_is_not_found() {
    let env = Env::default();
    let a = Address::generate(&env);
    let mut registry = TourNFTContract::new();
    assert_eq!(registry.mint(a, 12), Ok(()));
    assert_eq!(registry.owner_of(11), Err(SeatError::NotFound));
}

#[test]
fn transfer_passes_the_seat_on() {
    let env = Env::default();
    let a = Address::generate(&env);
    let b = Address::generate(&env);
    let mut registry = TourNFTContract::new();
    assert_eq!(registry.mint(a.clone(), 12), Ok(()));
    assert_eq!(registry.transfer(a.clone(), b.clone(), 12), Ok(()));
    assert_eq!(registry.owner_of(12), Ok(b.clone()));
    assert!(!registry.has_entry(&UserDataKey::Seat(a.clone())));
    assert!(registry.has_entry(&UserDataKey::Seat(b.clone())));
    assert_eq!(registry.seats.get(&b), Some(&12));
    assert_eq!(registry.seats.get(&a), None);
}

#[test]
fn transfer_to_a_holder_is_refused() {
    let env = Env::default();
    let a = Address::generate(&env);
    let b = Address::generate(&env);
    let mut registry = TourNFTContract::new();
    assert_eq!(registry.mint(a.clone(), 12), Ok(()));
    assert_eq!(registry.mint(b.clone(), 13), Ok(()));
    assert_eq!(registry.transfer(a.clone(), b.clone(), 12), Err(SeatError::ReceiverAlreadyHolds));
    assert_eq!(registry.transfer(a.clone(), a.clone(), 12), Err(SeatError::ReceiverAlreadyHolds));
    assert_eq!(registry.owner_of(12), Ok(a.clone()));
    assert_eq!(registry.owner_of(13), Ok(b));
    assert!(registry.has_entry(&UserDataKey::Seat(a)));
}

#[test]
fn transfer_from_one_without_a_seat_is_refused() {
    let env = Env::default();
    let a = Address::generate(&env);
    let b = Address::generate(&env);
    let c = Address::generate(&env);
    let mut registry = TourNFTContract::new();
    assert_eq!(registry.mint(a.clone(), 12), Ok(()));
    assert_eq!(registry.transfer(b.clone(), c.clone(), 12), Err(SeatError::SenderDoesNotOwn));
    assert_eq!(registry.transfer(b.clone(), b.clone(), 12), Err(SeatError::SenderDoesNotOwn));
    assert_eq!(registry.owner_of(12), Ok(a));
    assert!(!registry.has_entry(&UserDataKey::Seat(b)));
    assert!(!registry.has_entry(&UserDataKey::Seat(c)));
}

#[test]
fn transfer_names_the_seat_that_moves() {
    let env = Env::default();
    let a = Address::generate(&env);
    let b = Address::generate(&env);
    let mut registry = TourNFTContract::new();
    assert_eq!(registry.mint(a.clone(), 12), Ok(()));
    assert_eq!(registry.transfer(a.clone(), b.clone(), 40), Ok(()));
    assert_eq!(registry.owner_of(40), Ok(b.clone()));
    assert_eq!(registry.owner_of(12), Ok(a.clone()));
    assert_eq!(registry.seats.get(&b), Some(&40));
    assert!(!registry.has_entry(&UserDataKey::Seat(a)));
}
