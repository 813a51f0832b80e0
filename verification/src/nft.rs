//! The seat registry: every seat has at most one owner, and the registry
//! keeps, for each holder, the seat it holds.

use crate::host::clone_address;
use crate::table::Table;
use soroban_sdk::Address;
use vstd::prelude::*;

verus! {

/// Why a registry operation was refused. A refused operation changes nothing.
#[derive(Clone, Copy, Debug, PartialEq, Eq, Structural)]
pub enum SeatError {
    /// The registry has an admin already.
    AlreadyInitialized,
    /// The seat has an owner already.
    AlreadyOwned,
    /// The receiver holds a seat already.
    ReceiverAlreadyHolds,
    /// The sender holds no seat.
    SenderDoesNotOwn,
    /// The seat has no owner.
    NotFound,
}

/// The entries that the registry keeps once for the whole contract.
pub enum DataKey {
    Name,
    Symbol,
    Admin,
}

/// The entries that the registry keeps for a seat or for a holder.
pub enum UserDataKey {
    /// The owner of the seat with this number.
    TokenOwner(u32),
    /// The seat that this principal holds.
    Seat(Address),
}

/// A seat registry.
pub struct TourNFTContract {
    pub name: Option<String>,
    pub symbol: Option<String>,
    pub admin: Option<Address>,
    /// The owner of each seat that has one.
    pub owners: Table<u32, Address>,
    /// The seat of each principal that holds one.
    pub seats: Table<Address, u32>,
}

/// The mathematical state of a seat registry.
pub struct RegistryState {
    pub name: Option<Seq<char>>,
    pub symbol: Option<Seq<char>>,
    pub admin: Option<Address>,
    pub owners: Map<u32, Address>,
    pub seats: Map<Address, u32>,
}

impl RegistryState {
    /// A registry without any entry.
    pub open spec fn empty() -> RegistryState {
        RegistryState {
            name: None,
            symbol: None,
            admin: None,
            owners: Map::empty(),
            seats: Map::empty(),
        }
    }

    /// Whether the registry keeps the contract-wide entry `key`.
    pub open spec fn has(self, key: DataKey) -> bool {
        match key {
            DataKey::Name => self.name is Some,
            DataKey::Symbol => self.symbol is Some,
            DataKey::Admin => self.admin is Some,
        }
    }

    /// Whether the registry keeps the entry `key` of a seat or a holder.
    pub open spec fn has_entry(self, key: UserDataKey) -> bool {
        match key {
            UserDataKey::TokenOwner(seat_num) => self.owners.dom().contains(seat_num),
            UserDataKey::Seat(holder) => self.seats.dom().contains(holder),
        }
    }

    /// The registry after `seat_num` has been given to `to`, in both
    /// directions.
    pub open spec fn with_seat(self, to: Address, seat_num: u32) -> RegistryState {
        RegistryState {
            owners: self.owners.insert(seat_num, to),
            seats: self.seats.insert(to, seat_num),
            ..self
        }
    }

    /// The reason for which minting `seat_num` is refused, or `None`.
    pub open spec fn mint_refusal(self, seat_num: u32) -> Option<SeatError> {
        if self.owners.dom().contains(seat_num) {
            Some(SeatError::AlreadyOwned)
        } else {
            None
        }
    }

    /// The reason for which a transfer from `from` to `to` is refused, or
    /// `None`.
    pub open spec fn transfer_refusal(self, from: Address, to: Address) -> Option<SeatError> {
        if self.seats.dom().contains(to) {
            Some(SeatError::ReceiverAlreadyHolds)
        } else if !self.seats.dom().contains(from) {
            Some(SeatError::SenderDoesNotOwn)
        } else {
            None
        }
    }

    /// The registry after a transfer: `from` holds no seat, and `seat_num`
    /// is given to `to`.
    pub open spec fn after_transfer(self, from: Address, to: Address, seat_num: u32) -> RegistryState {
        (RegistryState { seats: self.seats.remove(from), ..self }).with_seat(to, seat_num)
    }
}

/// The text of an optional string.
pub open spec fn text_of(s: Option<String>) -> Option<Seq<char>> {
    match s {
        Some(t) => Some(t@),
        None => None,
    }
}

impl View for TourNFTContract {
    type V = RegistryState;

    open spec fn view(&self) -> RegistryState {
        RegistryState {
            name: text_of(self.name),
            symbol: text_of(self.symbol),
            admin: self.admin,
            owners: self.owners@,
            seats: self.seats@,
        }
    }
}

impl TourNFTContract {
    /// A registry without any entry.
    pub fn new() -> (registry: TourNFTContract)
        ensures
            registry@ == RegistryState::empty(),
    {
        TourNFTContract {
            name: None,
            symbol: None,
            admin: None,
            owners: Table::new(),
            seats: Table::new(),
        }
    }

    /// Whether the registry keeps the contract-wide entry `key`.
    pub fn has(&self, key: &DataKey) -> (r: bool)
        ensures
            r == self@.has(*key),
    {
        match key {
            DataKey::Name => self.name.is_some(),
            DataKey::Symbol => self.symbol.is_some(),
            DataKey::Admin => self.admin.is_some(),
        }
    }

    /// Whether the registry keeps the entry `key` of a seat or a holder.
    pub fn has_entry(&self, key: &UserDataKey) -> (r: bool)
        ensures
            r == self@.has_entry(*key),
    {
        match key {
            UserDataKey::TokenOwner(seat_num) => self.owners.contains_key(seat_num),
            UserDataKey::Seat(holder) => self.seats.contains_key(holder),
        }
    }

    /// Names the registry and sets its admin. A registry that has an admin
    /// already refuses with `AlreadyInitialized`.
    pub fn initialize(&mut self, name: String, symbol: String, admin: Address) -> (r: Result<
        (),
        SeatError,
    >)
        ensures
            r is Ok <==> old(self)@.admin is None,
            r is Ok ==> final(self)@ == (RegistryState {
                name: Some(name@),
                symbol: Some(symbol@),
                admin: Some(admin),
                ..old(self)@
            }),
            r is Err ==> r == Err::<(), SeatError>(SeatError::AlreadyInitialized) && final(self)@
                == old(self)@,
    {
        if self.has(&DataKey::Admin) {
            return Err(SeatError::AlreadyInitialized);
        }
        self.name = Some(name);
        self.symbol = Some(symbol);
        self.admin = Some(admin);
        Ok(())
    }

    /// Gives the seat `seat_num`, which has no owner yet, to `to`. A seat
    /// that has an owner is refused with `AlreadyOwned`.
    pub fn mint(&mut self, to: Address, seat_num: u32) -> (r: Result<(), SeatError>)
        ensures
            match r {
                Ok(_) => {
                    &&& old(self)@.mint_refusal(seat_num) is None
                    &&& final(self)@ == old(self)@.with_seat(to, seat_num)
                },
                Err(e) => {
                    &&& old(self)@.mint_refusal(seat_num) == Some(e)
                    &&& final(self)@ == old(self)@
                },
            },
    {
        if self.has_entry(&UserDataKey::TokenOwner(seat_num)) {
            return Err(SeatError::AlreadyOwned);
        }
        self.owners.set(seat_num, clone_address(&to));
        self.seats.set(to, seat_num);
        Ok(())
    }

    /// The owner of the seat `seat_num`, or `NotFound` where it has none.
    pub fn owner_of(&self, seat_num: u32) -> (r: Result<Address, SeatError>)
        ensures
            match r {
                Ok(owner) => self@.owners.dom().contains(seat_num) && owner
                    == self@.owners[seat_num],
                Err(e) => e == SeatError::NotFound && !self@.owners.dom().contains(seat_num),
            },
    {
        match self.owners.get(&seat_num) {
            Some(owner) => Ok(clone_address(owner)),
            None => Err(SeatError::NotFound),
        }
    }

    /// Passes the seat `seat_num` from `from` to `to`. The caller has
    /// established that `from` authorized it. A receiver that holds a seat is
    /// refused with `ReceiverAlreadyHolds`, a sender that holds none with
    /// `SenderDoesNotOwn`.
    pub fn transfer(&mut self, from: Address, to: Address, seat_num: u32) -> (r: Result<
        (),
        SeatError,
    >)
        ensures
            match r {
                Ok(_) => {
                    &&& old(self)@.transfer_refusal(from, to) is None
                    &&& final(self)@ == old(self)@.after_transfer(from, to, seat_num)
                },
                Err(e) => {
                    &&& old(self)@.transfer_refusal(from, to) == Some(e)
                    &&& final(self)@ == old(self)@
                },
            },
    {
        if self.has_entry(&UserDataKey::Seat(clone_address(&to))) {
            return Err(SeatError::ReceiverAlreadyHolds);
        }
        if self.has_entry(&UserDataKey::Seat(clone_address(&from))) {
            self.seats.remove(&from);
        } else {
            return Err(SeatError::SenderDoesNotOwn);
        }
        self.owners.set(seat_num, clone_address(&to));
        self.seats.set(to, seat_num);
        Ok(())
    }
}

} // verus!
