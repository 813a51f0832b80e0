//! Ledger-style accounting engines for a contract host.
//!
//! The core is a proportional-share vault, with the arithmetic of minting and
//! redeeming shares proved against its accounting invariants. Beside it stand
//! a fungible-token ledger with allowances and a registry of seats, both kept
//! in a verified table. Authorization, notifications and storage are the
//! caller's: every operation here works on a ledger value and either changes
//! it as its contract says or refuses and changes nothing.

pub mod host;
pub mod nft;
pub mod sums;
pub mod table;
pub mod token;
pub mod vault;
