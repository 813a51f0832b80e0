//! The host's values that the ledgers handle, and the host calls made on them.
//!
//! Nothing in this file is proved: each contract restates what the host
//! library documents of one call, and the ledgers are verified against these
//! contracts. A principal is the account or contract that an `Address` names,
//! whichever `Env` the handle was made in: a book is always asked with a
//! handle of its own `Env`, made from the principal's strkey. The host is
//! taken to have budget left for each call.

use soroban_sdk::{Address, Env};
use vstd::prelude::*;

verus! {

#[verifier::external_type_specification]
#[verifier::external_body]
pub struct ExEnv(Env);

#[verifier::external_type_specification]
#[verifier::external_body]
pub struct ExAddress(Address);

#[verifier::external_type_specification]
#[verifier::external_body]
#[verifier::reject_recursive_types(K)]
#[verifier::reject_recursive_types(V)]
pub struct ExHostMap<K, V>(soroban_sdk::Map<K, V>);

/// What a host map of share balances holds: each principal with an entry whose
/// value is a 128-bit integer, and that value. Two principals are the same key
/// exactly when the host compares them as equal.
pub uninterp spec fn share_book(m: soroban_sdk::Map<Address, i128>) -> Map<Address, i128>;

/// `soroban_sdk::Map::new`: a fresh host map, holding nothing.
#[verifier::external_body]
pub(crate) fn book_new(env: &Env) -> (book: soroban_sdk::Map<Address, i128>)
    ensures
        share_book(book) =~= Map::empty(),
{
    soroban_sdk::Map::new(env)
}

/// `soroban_sdk::Map::try_get`: the value stored for `who`, or `None` where
/// the map has no entry for `who`. An entry whose value the host cannot read
/// as a 128-bit integer is no part of `share_book` and reads as absent. The
/// key handed to the map is `who` as `Address::to_string` and
/// `Address::from_str` give it in the map's own `Env`.
#[verifier::external_body]
pub(crate) fn book_get(m: &soroban_sdk::Map<Address, i128>, who: &Address) -> (r: Option<i128>)
    ensures
        r == (if share_book(*m).dom().contains(*who) {
            Some(share_book(*m)[*who])
        } else {
            None
        }),
{
    let key = Address::from_str(m.env(), &who.to_string().to_string());
    m.try_get(key).unwrap_or(None)
}

/// `soroban_sdk::Map::set`: the entry for `who` now holds `shares`, replacing
/// what the map held for `who` before; every other entry stays. The key
/// handed to the map is `who` as `Address::to_string` and `Address::from_str`
/// give it in the map's own `Env`.
#[verifier::external_body]
pub(crate) fn book_set(m: &mut soroban_sdk::Map<Address, i128>, who: Address, shares: i128)
    ensures
        share_book(*final(m)) == share_book(*old(m)).insert(who, shares),
{
    let key = Address::from_str(m.env(), &who.to_string().to_string());
    m.set(key, shares)
}

/// `Address::eq`: whether the host compares the two principals as equal,
/// which is what equality of principals means throughout this library.
#[verifier::external_body]
pub(crate) fn same_address(a: &Address, b: &Address) -> (r: bool)
    ensures
        r == (*a == *b),
{
    a == b
}

/// `Address::clone`: another handle to the same principal.
#[verifier::external_body]
pub(crate) fn clone_address(a: &Address) -> (r: Address)
    ensures
        r == *a,
{
    a.clone()
}

} // verus!
