//! The fungible-token ledger: balances of holders, and allowances that an
//! owner grants to a spender.

use crate::table::{Key, Table};
use soroban_sdk::Address;
use vstd::prelude::*;

verus! {

/// Why a token operation was refused. A refused operation changes nothing.
#[derive(Clone, Copy, Debug, PartialEq, Eq, Structural)]
pub enum TokenError {
    /// The token has a name already.
    AlreadyInitialized,
    /// The sender holds less than the amount.
    InsufficientBalance,
    /// The spender's allowance is less than the amount.
    AllowanceExceeded,
    /// The receiver's balance would leave the amounts that 128 bits can hold.
    Overflow,
}

/// A token ledger. Each of the four descriptive entries is absent until
/// `initialize` writes it.
pub struct Token {
    pub name: Option<String>,
    pub symbol: Option<String>,
    pub decimals: Option<u128>,
    pub total_supply: Option<u128>,
    /// What each holder has; a principal without an entry has nothing.
    pub balances: Table<Address, u128>,
    /// What each owner lets each spender take, keyed by owner, then spender.
    pub allowances: Table<(Address, Address), u128>,
}

/// The mathematical state of a token ledger.
pub struct TokenState {
    pub name: Option<Seq<char>>,
    pub symbol: Option<Seq<char>>,
    pub decimals: Option<u128>,
    pub total_supply: Option<u128>,
    pub balances: Map<Address, u128>,
    pub allowances: Map<(Address, Address), u128>,
}

/// The amount that `m` holds for `k`: its entry, or zero where it has none.
pub open spec fn units_at<K>(m: Map<K, u128>, k: K) -> int {
    if m.dom().contains(k) {
        m[k] as int
    } else {
        0
    }
}

/// The text of an optional string.
pub open spec fn text_of(s: Option<String>) -> Option<Seq<char>> {
    match s {
        Some(t) => Some(t@),
        None => None,
    }
}

impl TokenState {
    /// A ledger without any entry.
    pub open spec fn empty() -> TokenState {
        TokenState {
            name: None,
            symbol: None,
            decimals: None,
            total_supply: None,
            balances: Map::empty(),
            allowances: Map::empty(),
        }
    }

    /// What `owner` holds.
    pub open spec fn balance_of(self, owner: Address) -> int {
        units_at(self.balances, owner)
    }

    /// What `spender` may still take from `owner`.
    pub open spec fn allowance(self, owner: Address, spender: Address) -> int {
        units_at(self.allowances, (owner, spender))
    }

    /// The ledger after `initialize`: the four descriptive entries are
    /// written, and `owner` holds the whole initial supply.
    pub open spec fn after_initialize(
        self,
        name: Seq<char>,
        symbol: Seq<char>,
        decimals: u128,
        initial_supply: u128,
        owner: Address,
    ) -> TokenState {
        TokenState {
            name: Some(name),
            symbol: Some(symbol),
            decimals: Some(decimals),
            total_supply: Some(initial_supply),
            balances: self.balances.insert(owner, initial_supply),
            allowances: self.allowances,
        }
    }

    /// The balances after `amount` has left the balance of `owner`.
    pub open spec fn balances_after_spend(self, owner: Address, amount: int) -> Map<Address, u128> {
        self.balances.insert(owner, (self.balance_of(owner) - amount) as u128)
    }

    /// The balances after `amount` has moved from `from` to `to`: first out of
    /// the one balance, then into the other, which may be the same.
    pub open spec fn balances_after_transfer(self, from: Address, to: Address, amount: int) -> Map<
        Address,
        u128,
    > {
        let spent = self.balances_after_spend(from, amount);
        spent.insert(to, (units_at(spent, to) + amount) as u128)
    }

    /// The reason for which moving `amount` from `from` to `to` is refused, or
    /// `None` where it is owed.
    pub open spec fn transfer_refusal(self, from: Address, to: Address, amount: int) -> Option<
        TokenError,
    > {
        if self.balance_of(from) < amount {
            Some(TokenError::InsufficientBalance)
        } else if from != to && self.balance_of(to) + amount > u128::MAX {
            Some(TokenError::Overflow)
        } else {
            None
        }
    }

    /// The ledger after a transfer.
    pub open spec fn after_transfer(self, from: Address, to: Address, amount: int) -> TokenState {
        TokenState { balances: self.balances_after_transfer(from, to, amount), ..self }
    }

    /// The ledger after `owner` has set the allowance of `spender`.
    pub open spec fn after_approve(self, owner: Address, spender: Address, amount: u128) -> TokenState {
        TokenState { allowances: self.allowances.insert((owner, spender), amount), ..self }
    }

    /// The reason for which `spender` may not move `amount` from `from` to
    /// `to`, or `None` where the transfer is owed.
    pub open spec fn transfer_from_refusal(
        self,
        spender: Address,
        from: Address,
        to: Address,
        amount: int,
    ) -> Option<TokenError> {
        if self.allowance(from, spender) < amount {
            Some(TokenError::AllowanceExceeded)
        } else {
            self.transfer_refusal(from, to, amount)
        }
    }

    /// The ledger after `spender` has moved `amount` from `from` to `to`: the
    /// allowance is used up by `amount`, and the balances move as in a
    /// transfer.
    pub open spec fn after_transfer_from(
        self,
        spender: Address,
        from: Address,
        to: Address,
        amount: int,
    ) -> TokenState {
        TokenState {
            balances: self.balances_after_transfer(from, to, amount),
            allowances: self.allowances.insert(
                (from, spender),
                (self.allowance(from, spender) - amount) as u128,
            ),
            ..self
        }
    }
}

/// A transfer takes from the sender exactly what it gives to the receiver,
/// and leaves every other holder as it was; a transfer to oneself leaves the
/// balance as it was.
pub proof fn lemma_transfer_conserves(
    s: TokenState,
    from: Address,
    to: Address,
    amount: int,
    other: Address,
)
    requires
        0 <= amount,
        s.transfer_refusal(from, to, amount) is None,
    ensures
        from != to ==> s.after_transfer(from, to, amount).balance_of(from) == s.balance_of(from)
            - amount,
        from != to ==> s.after_transfer(from, to, amount).balance_of(to) == s.balance_of(to)
            + amount,
        from == to ==> s.after_transfer(from, to, amount).balance_of(from) == s.balance_of(from),
        other != from && other != to ==> s.after_transfer(from, to, amount).balance_of(other)
            == s.balance_of(other),
{
}

impl View for Token {
    type V = TokenState;

    open spec fn view(&self) -> TokenState {
        TokenState {
            name: text_of(self.name),
            symbol: text_of(self.symbol),
            decimals: self.decimals,
            total_supply: self.total_supply,
            balances: self.balances@,
            allowances: self.allowances@,
        }
    }
}

/// The text that stands for a name or symbol that was never written.
pub open spec fn undefined_text() -> Seq<char> {
    "undefined"@
}

/// The text of `stored`, or "undefined" where nothing was stored.
fn text_or_undefined(stored: &Option<String>) -> (r: String)
    ensures
        r@ == (match *stored {
            Some(t) => t@,
            None => undefined_text(),
        }),
{
    match stored {
        Some(t) => t.clone(),
        None => "undefined".to_string(),
    }
}

impl Token {
    /// A ledger without any entry.
    pub fn new() -> (token: Token)
        ensures
            token@ == TokenState::empty(),
    {
        Token {
            name: None,
            symbol: None,
            decimals: None,
            total_supply: None,
            balances: Table::new(),
            allowances: Table::new(),
        }
    }

    /// The amount held for `owner`.
    fn held(&self, owner: &Address) -> (r: u128)
        ensures
            r == self@.balance_of(*owner),
    {
        match self.balances.get(owner) {
            Some(amount) => *amount,
            None => 0,
        }
    }

    /// Takes `amount` out of the balance of `owner`, or refuses with
    /// `InsufficientBalance` where `owner` holds less.
    fn spend_balance(&mut self, owner: Address, amount: u128) -> (r: Result<(), TokenError>)
        ensures
            r is Ok <==> old(self)@.balance_of(owner) >= amount,
            r is Ok ==> final(self)@ == (TokenState {
                balances: old(self)@.balances_after_spend(owner, amount as int),
                ..old(self)@
            }),
            r is Err ==> r == Err::<(), TokenError>(TokenError::InsufficientBalance) && final(self)@ == old(self)@,
    {
        let current_balance: u128 = self.held(&owner);
        if current_balance < amount {
            return Err(TokenError::InsufficientBalance);
        }
        let bal: u128 = current_balance - amount;
        self.balances.set(owner, bal);
        Ok(())
    }

    /// Adds `amount` to the balance of `owner`, or refuses with `Overflow`
    /// where the sum does not fit.
    fn increase_balance(&mut self, owner: Address, amount: u128) -> (r: Result<(), TokenError>)
        ensures
            r is Ok <==> old(self)@.balance_of(owner) + amount <= u128::MAX,
            r is Ok ==> final(self)@ == (TokenState {
                balances: old(self)@.balances.insert(
                    owner,
                    (old(self)@.balance_of(owner) + amount) as u128,
                ),
                ..old(self)@
            }),
            r is Err ==> r == Err::<(), TokenError>(TokenError::Overflow) && final(self)@ == old(self)@,
    {
        let current_balance: u128 = self.held(&owner);
        match current_balance.checked_add(amount) {
            Some(bal) => {
                self.balances.set(owner, bal);
                Ok(())
            },
            None => Err(TokenError::Overflow),
        }
    }

    /// Whether `amount` can move from `from` to `to`; nothing is changed.
    fn check_transfer(&self, from: &Address, to: &Address, amount: u128) -> (r: Result<
        (),
        TokenError,
    >)
        ensures
            self@.transfer_refusal(*from, *to, amount as int) == (match r {
                Ok(_) => None,
                Err(e) => Some(e),
            }),
    {
        if self.held(from) < amount {
            return Err(TokenError::InsufficientBalance);
        }
        if !from.same(to) {
            if self.held(to).checked_add(amount).is_none() {
                return Err(TokenError::Overflow);
            }
        }
        Ok(())
    }

    /// Moves `amount` that `check_transfer` has cleared.
    fn move_balance(&mut self, from: Address, to: Address, amount: u128)
        requires
            old(self)@.transfer_refusal(from, to, amount as int) is None,
        ensures
            final(self)@ == old(self)@.after_transfer(from, to, amount as int),
    {
        let spent = self.spend_balance(from, amount);
        let received = self.increase_balance(to, amount);
        assert(spent is Ok && received is Ok);
    }

    /// Names the token and hands the whole initial supply to `owner`. A
    /// ledger that has a name already refuses with `AlreadyInitialized`.
    pub fn initialize(
        &mut self,
        name: String,
        symbol: String,
        decimals: u128,
        initial_supply: u128,
        owner: Address,
    ) -> (r: Result<bool, TokenError>)
        ensures
            r is Ok <==> old(self)@.name is None,
            r is Ok ==> r == Ok::<bool, TokenError>(true) && final(self)@ == old(self)@.after_initialize(name@, symbol@, decimals, initial_supply, owner),
            r is Err ==> r == Err::<bool, TokenError>(TokenError::AlreadyInitialized) && final(self)@ == old(self)@,
    {
        if self.name.is_some() {
            return Err(TokenError::AlreadyInitialized);
        }
        self.name = Some(name);
        self.symbol = Some(symbol);
        self.decimals = Some(decimals);
        self.total_supply = Some(initial_supply);
        self.balances.set(owner, initial_supply);
        Ok(true)
    }

    /// The token's name, or "undefined" where it has none.
    pub fn name(&self) -> (r: String)
        ensures
            r@ == (match self@.name {
                Some(t) => t,
                None => undefined_text(),
            }),
    {
        text_or_undefined(&self.name)
    }

    /// The token's symbol, or "undefined" where it has none.
    pub fn symbol(&self) -> (r: String)
        ensures
            r@ == (match self@.symbol {
                Some(t) => t,
                None => undefined_text(),
            }),
    {
        text_or_undefined(&self.symbol)
    }

    /// The number of decimals, or zero where none was written.
    pub fn decimals(&self) -> (r: u128)
        ensures
            r == (match self@.decimals {
                Some(d) => d,
                None => 0,
            }),
    {
        match self.decimals {
            Some(d) => d,
            None => 0,
        }
    }

    /// The supply that the token was initialized with, or zero.
    pub fn total_supply(&self) -> (r: u128)
        ensures
            r == (match self@.total_supply {
                Some(s) => s,
                None => 0,
            }),
    {
        match self.total_supply {
            Some(s) => s,
            None => 0,
        }
    }

    /// What `owner` holds: zero for a principal without an entry.
    pub fn balance_of(&self, owner: Address) -> (r: u128)
        ensures
            r == self@.balance_of(owner),
    {
        self.held(&owner)
    }

    /// Moves `amount` from `from` to `to`. The caller has established that
    /// `from` authorized it.
    pub fn transfer(&mut self, from: Address, to: Address, amount: u128) -> (r: Result<
        bool,
        TokenError,
    >)
        ensures
            match r {
                Ok(done) => {
                    &&& done
                    &&& old(self)@.transfer_refusal(from, to, amount as int) is None
                    &&& final(self)@ == old(self)@.after_transfer(from, to, amount as int)
                },
                Err(e) => {
                    &&& old(self)@.transfer_refusal(from, to, amount as int) == Some(e)
                    &&& final(self)@ == old(self)@
                },
            },
    {
        match self.check_transfer(&from, &to, amount) {
            Ok(_) => {
                self.move_balance(from, to, amount);
                Ok(true)
            },
            Err(e) => Err(e),
        }
    }

    /// Lets `spender` take up to `amount` from `owner`, in place of any
    /// earlier allowance. The caller has established that `owner` authorized
    /// it.
    pub fn approve(&mut self, owner: Address, spender: Address, amount: u128) -> (r: bool)
        ensures
            r,
            final(self)@ == old(self)@.after_approve(owner, spender, amount),
    {
        self.allowances.set((owner, spender), amount);
        true
    }

    /// What `spender` may still take from `owner`: zero where no allowance
    /// was set.
    pub fn allowance(&self, owner: Address, spender: Address) -> (r: u128)
        ensures
            r == self@.allowance(owner, spender),
    {
        match self.allowances.get(&(owner, spender)) {
            Some(amount) => *amount,
            None => 0,
        }
    }

    /// Moves `amount` from `from` to `to` on behalf of `spender`, whose
    /// allowance from `from` shrinks by `amount`. The caller has established
    /// that `spender` authorized it.
    pub fn transfer_from(
        &mut self,
        spender: Address,
        from: Address,
        to: Address,
        amount: u128,
    ) -> (r: Result<bool, TokenError>)
        ensures
            match r {
                Ok(done) => {
                    &&& done
                    &&& old(self)@.transfer_from_refusal(spender, from, to, amount as int) is None
                    &&& final(self)@ == old(self)@.after_transfer_from(
                        spender,
                        from,
                        to,
                        amount as int,
                    )
                },
                Err(e) => {
                    &&& old(self)@.transfer_from_refusal(spender, from, to, amount as int) == Some(
                        e,
                    )
                    &&& final(self)@ == old(self)@
                },
            },
    {
        let grant = (crate::host::clone_address(&from), spender);
        let current_allowance: u128 = match self.allowances.get(&grant) {
            Some(amount) => *amount,
            None => 0,
        };
        if current_allowance < amount {
            return Err(TokenError::AllowanceExceeded);
        }
        match self.check_transfer(&from, &to, amount) {
            Ok(_) => {
                let bal: u128 = current_allowance - amount;
                self.allowances.set(grant, bal);
                self.move_balance(from, to, amount);
                Ok(true)
            },
            Err(e) => Err(e),
        }
    }
}

} // verus!
