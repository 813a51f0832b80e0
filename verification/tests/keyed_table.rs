use share_vault::table::{Key, Table};
use soroban_sdk::testutils::Address as _;
use soroban_sdk::{Address, Env};

#[test]
fn new_table_has_no_entry() {
    let mut table: Table<u32, u128> = Table::new();
    assert!(!table.contains_key(&0));
    assert_eq!(table.get(&0), None);
    assert!(!table.remove(&0));
}

#[test]
fn set_writes_and_replaces() {
    let mut table: Table<u32, u128> = Table::new();
    table.set(1, 10);
    table.set(2, 20);
    assert_eq!(table.get(&1), Some(&10));
    assert_eq!(table.get(&2), Some(&20));
    assert_eq!(table.get(&3), None);
    table.set(1, 11);
    assert_eq!(table.get(&1), Some(&11));
    assert_eq!(table.get(&2), Some(&20));
    assert!(table.contains_key(&1));
    assert!(!table.contains_key(&3));
}

#[test]
fn remove_takes_one_entry_out() {
    let mut table: Table<u32, u128> = Table::new();
    table.set(1, 10);
    table.set(2, 20);
    table.set(3, 30);
    assert!(table.remove(&2));
    assert!(!table.remove(&2));
    assert_eq!(table.get(&1), Some(&10));
    assert_eq!(table.get(&2), None);
    assert_eq!(table.get(&3), Some(&30));
    assert!(table.remove(&1));
    assert!(table.remove(&3));
    assert!(!table.contains_key(&3));
}

#[test]
fn principals_are_told_apart() {
    let env = Env::default();
    let a = Address::generate(&env);
    let b = Address::generate(&env);
    assert!(a.same(&a.clone()));
    assert!(!a.same(&b));
    assert!(7u32.same(&7));
    assert!(!7u32.same(&8));
    assert!((a.clone(), b.clone()).same(&(a.clone(), b.clone())));
    assert!(!(a.clone(), b.clone()).same(&(b.clone(), a.clone())));
    assert!(!(a.clone(), b.clone()).same(&(a.clone(), a.clone())));
}

#[test]
fn table_keyed_by_principals() {
    let env = Env::default();
    let a = Address::generate(&env);
    let b = Address::generate(&env);
    let mut table: Table<Address, u32> = Table::new();
    table.set(a.clone(), 1);
    table.set(b.clone(), 2);
    table.set(a.clone(), 3);
    assert_eq!(table.get(&a), Some(&3));
    assert_eq!(table.get(&b), Some(&2));
    assert!(table.remove(&a));
    assert_eq!(table.get(&a), None);
    assert_eq!(table.get(&b), Some(&2));
}

#[test]
fn table_keyed_by_pairs() {
    let env = Env::default();
    let a = Address::generate(&env);
    let b = Address::generate(&env);
    let mut table: Table<(Address, Address), u128> = Table::new();
    table.set((a.clone(), b.clone()), 5);
    assert_eq!(table.get(&(a.clone(), b.clone())), Some(&5));
    assert_eq!(table.get(&(b.clone(), a.clone())), None);
    table.set((b.clone(), a.clone()), 6);
    assert_eq!(table.get(&(a.clone(), b.clone())), Some(&5));
    assert_eq!(table.get(&(b, a)), Some(&6));
}
