//! The proportional-share vault: one pool of assets, shares issued against it
//! in proportion, and a book of who holds how many shares.

use crate::host::{book_get, book_new, book_set, share_book};
use crate::sums::{
    all_nonnegative, amount_at, lemma_entry_at_most_sum, lemma_sum_empty, lemma_sum_insert, sum_of,
};
use soroban_sdk::{Address, Env};
use vstd::prelude::*;

verus! {

/// Why a vault operation was refused. A refused operation changes nothing.
#[derive(Clone, Copy, Debug, PartialEq, Eq, Structural)]
pub enum VaultError {
    /// The vault was initialized before.
    AlreadyInitialized,
    /// The vault has not been initialized.
    NotInitialized,
    /// The amount is zero or negative.
    InvalidAmount,
    /// The holder, or the vault as a whole, has fewer shares than asked for.
    InsufficientBalance,
    /// A product or a sum would leave the amounts that 128 bits can hold.
    Overflow,
}

/// The vault's accounts: what it holds, what it has issued, and to whom.
#[derive(Debug)]
pub struct VaultData {
    /// Total underlying assets held in the vault.
    pub total_assets: i128,
    /// Total shares issued by the vault.
    pub total_shares: i128,
    /// Share balances of the holders; a principal without an entry holds none.
    pub balances: soroban_sdk::Map<Address, i128>,
}

/// A vault: its accounts, and whether it has been initialized.
#[derive(Debug)]
pub struct Vault {
    /// Set by `initialize`, once.
    pub initialized: bool,
    /// The accounts; all zero until the first deposit.
    pub data: VaultData,
}

/// The mathematical state of a vault.
pub struct VaultState {
    pub initialized: bool,
    pub total_assets: int,
    pub total_shares: int,
    pub balances: Map<Address, i128>,
}

/// The shares that a deposit of `amount` earns from a pool of `total_assets`
/// against `total_shares`: the proportional part rounded down, or `amount`
/// itself while the pool is empty.
pub open spec fn shares_for(total_assets: int, total_shares: int, amount: int) -> int {
    if total_assets > 0 && total_shares > 0 {
        amount * total_shares / total_assets
    } else {
        amount
    }
}

/// The assets that `shares` redeem from a pool of `total_assets` against
/// `total_shares`: the proportional part rounded down.
pub open spec fn assets_for(total_assets: int, total_shares: int, shares: int) -> int {
    shares * total_assets / total_shares
}

/// The value of one share: the whole quotient of assets by shares, and zero
/// where there are no shares or the totals are not amounts.
pub open spec fn price_of(total_assets: int, total_shares: int) -> int {
    if total_shares > 0 && total_assets >= 0 {
        total_assets / total_shares
    } else {
        0
    }
}

impl VaultState {
    /// The accounting invariants: amounts are not negative, the shares issued
    /// are exactly the shares held, and the vault holds assets exactly while
    /// shares exist.
    pub open spec fn consistent(self) -> bool {
        &&& self.balances.dom().finite()
        &&& all_nonnegative(self.balances)
        &&& self.total_assets >= 0
        &&& self.total_shares >= 0
        &&& self.total_shares == sum_of(self.balances)
        &&& (self.total_shares == 0 <==> self.total_assets == 0)
    }

    /// The shares that `user` holds.
    pub open spec fn balance_of(self, user: Address) -> int {
        amount_at(self.balances, user)
    }

    /// Whether the sums of a deposit of `amount` for `user` stay within 128
    /// bits: the product that the proportion takes, both totals, and the
    /// holder's balance.
    pub open spec fn deposit_fits(self, user: Address, amount: int) -> bool {
        let minted = shares_for(self.total_assets, self.total_shares, amount);
        &&& (self.total_assets > 0 && self.total_shares > 0 ==> amount * self.total_shares
            <= i128::MAX)
        &&& self.total_assets + amount <= i128::MAX
        &&& self.total_shares + minted <= i128::MAX
        &&& self.balance_of(user) + minted <= i128::MAX
    }

    /// The reason for which a deposit is refused, or `None` where it is owed.
    pub open spec fn deposit_refusal(self, user: Address, amount: int) -> Option<VaultError> {
        if !self.initialized {
            Some(VaultError::NotInitialized)
        } else if amount <= 0 {
            Some(VaultError::InvalidAmount)
        } else if !self.deposit_fits(user, amount) {
            Some(VaultError::Overflow)
        } else {
            None
        }
    }

    /// The state that a deposit of `amount` for `user` leaves.
    pub open spec fn after_deposit(self, user: Address, amount: int) -> VaultState {
        let minted = shares_for(self.total_assets, self.total_shares, amount);
        VaultState {
            initialized: self.initialized,
            total_assets: self.total_assets + amount,
            total_shares: self.total_shares + minted,
            balances: self.balances.insert(user, (self.balance_of(user) + minted) as i128),
        }
    }

    /// The reason for which a withdrawal is refused, or `None` where it is
    /// owed.
    pub open spec fn withdraw_refusal(self, user: Address, shares: int) -> Option<VaultError> {
        if !self.initialized {
            Some(VaultError::NotInitialized)
        } else if shares <= 0 {
            Some(VaultError::InvalidAmount)
        } else if self.balance_of(user) < shares || self.total_shares < shares {
            Some(VaultError::InsufficientBalance)
        } else if self.total_assets < 0 || shares * self.total_assets > i128::MAX {
            Some(VaultError::Overflow)
        } else {
            None
        }
    }

    /// The state that a withdrawal of `shares` by `user` leaves.
    pub open spec fn after_withdraw(self, user: Address, shares: int) -> VaultState {
        let assets = assets_for(self.total_assets, self.total_shares, shares);
        VaultState {
            initialized: self.initialized,
            total_assets: self.total_assets - assets,
            total_shares: self.total_shares - shares,
            balances: self.balances.insert(user, (self.balance_of(user) - shares) as i128),
        }
    }
}

impl VaultState {
    /// The state of a vault without assets, shares or holders.
    pub open spec fn empty(initialized: bool) -> VaultState {
        VaultState {
            initialized,
            total_assets: 0,
            total_shares: 0,
            balances: Map::empty(),
        }
    }
}

/// An empty vault meets the accounting invariants.
pub proof fn lemma_empty_consistent(initialized: bool)
    ensures
        VaultState::empty(initialized).consistent(),
{
    let s = VaultState::empty(initialized);
    lemma_sum_empty(s.balances);
}

/// Over amounts, the proportion rounds down to an amount: a deposit mints no
/// negative number of shares.
pub proof fn lemma_shares_for_nonnegative(total_assets: int, total_shares: int, amount: int)
    requires
        amount >= 0,
    ensures
        shares_for(total_assets, total_shares, amount) >= 0,
{
    if total_assets > 0 && total_shares > 0 {
        assert(amount * total_shares >= 0) by (nonlinear_arith)
            requires
                amount >= 0,
                total_shares > 0,
        ;
        assert((amount * total_shares) / total_assets >= 0) by (nonlinear_arith)
            requires
                amount * total_shares >= 0,
                total_assets > 0,
        ;
    }
}

/// Redeeming no more shares than exist returns an amount, and no more than
/// the vault holds; it returns all of it exactly when all shares are redeemed
/// or the vault holds nothing.
pub proof fn lemma_assets_for_bounds(total_assets: int, total_shares: int, shares: int)
    requires
        total_assets >= 0,
        0 < shares <= total_shares,
    ensures
        0 <= assets_for(total_assets, total_shares, shares) <= total_assets,
        shares == total_shares ==> assets_for(total_assets, total_shares, shares) == total_assets,
        shares < total_shares && total_assets > 0 ==> assets_for(
            total_assets,
            total_shares,
            shares,
        ) < total_assets,
{
    let p = shares * total_assets;
    assert(0 <= p <= total_shares * total_assets) by (nonlinear_arith)
        requires
            p == shares * total_assets,
            total_assets >= 0,
            0 < shares <= total_shares,
    ;
    assert(0 <= p / total_shares <= total_assets) by (nonlinear_arith)
        requires
            0 <= p <= total_shares * total_assets,
            total_shares > 0,
    ;
    if shares == total_shares {
        assert(p / total_shares == total_assets) by (nonlinear_arith)
            requires
                p == total_shares * total_assets,
                total_shares > 0,
        ;
    }
    if shares < total_shares && total_assets > 0 {
        assert(p <= total_shares * total_assets - total_assets) by (nonlinear_arith)
            requires
                p == shares * total_assets,
                total_assets > 0,
                0 < shares < total_shares,
        ;
        assert(p / total_shares < total_assets) by (nonlinear_arith)
            requires
                0 <= p <= total_shares * total_assets - total_assets,
                total_shares > 0,
                total_assets > 0,
        ;
    }
}

/// A deposit that is not refused keeps the accounting invariants.
pub proof fn lemma_deposit_keeps_consistent(s: VaultState, user: Address, amount: int)
    requires
        s.consistent(),
        s.deposit_refusal(user, amount) is None,
    ensures
        s.after_deposit(user, amount).consistent(),
{
    let minted = shares_for(s.total_assets, s.total_shares, amount);
    let held = s.balance_of(user);
    let t = s.after_deposit(user, amount);
    lemma_shares_for_nonnegative(s.total_assets, s.total_shares, amount);
    lemma_entry_at_most_sum(s.balances, user);
    lemma_sum_insert(s.balances, user, (held + minted) as i128);
    assert(all_nonnegative(t.balances)) by {
        assert forall|k: Address| t.balances.dom().contains(k) implies #[trigger] t.balances[k]
            >= 0 by {
            if k != user {
                assert(s.balances.dom().contains(k));
                assert(s.balances[k] >= 0);
            }
        }
    }
}

/// A withdrawal that is not refused keeps the accounting invariants.
pub proof fn lemma_withdraw_keeps_consistent(s: VaultState, user: Address, shares: int)
    requires
        s.consistent(),
        s.withdraw_refusal(user, shares) is None,
    ensures
        s.after_withdraw(user, shares).consistent(),
{
    let held = s.balance_of(user);
    let t = s.after_withdraw(user, shares);
    lemma_assets_for_bounds(s.total_assets, s.total_shares, shares);
    lemma_entry_at_most_sum(s.balances, user);
    lemma_sum_insert(s.balances, user, (held - shares) as i128);
    assert(all_nonnegative(t.balances)) by {
        assert forall|k: Address| t.balances.dom().contains(k) implies #[trigger] t.balances[k]
            >= 0 by {
            if k != user {
                assert(s.balances.dom().contains(k));
                assert(s.balances[k] >= 0);
            }
        }
    }
}

/// In a state that meets the accounting invariants, a deposit is refused for
/// want of room only where the proportion's product or one of the totals
/// leaves 128 bits: the holder's balance never exceeds the shares issued.
pub proof fn lemma_deposit_fits_when_consistent(s: VaultState, user: Address, amount: int)
    requires
        s.consistent(),
        amount > 0,
    ensures
        s.deposit_fits(user, amount) <==> {
            &&& (s.total_shares > 0 ==> amount * s.total_shares <= i128::MAX)
            &&& s.total_assets + amount <= i128::MAX
            &&& s.total_shares + shares_for(s.total_assets, s.total_shares, amount) <= i128::MAX
        },
{
    lemma_entry_at_most_sum(s.balances, user);
}

/// In a state that meets the accounting invariants, a holder with enough
/// shares is refused a withdrawal only where the proportion's product leaves
/// 128 bits: the shares issued are never fewer than a holder's, so the
/// division is by a positive number.
pub proof fn lemma_withdraw_refusal_when_consistent(s: VaultState, user: Address, shares: int)
    requires
        s.consistent(),
        s.initialized,
        0 < shares <= s.balance_of(user),
    ensures
        s.total_shares >= shares,
        s.withdraw_refusal(user, shares) == (if shares * s.total_assets > i128::MAX {
            Some(VaultError::Overflow)
        } else {
            None
        }),
{
    lemma_entry_at_most_sum(s.balances, user);
}

/// A deposit followed at once by the withdrawal of the shares it minted
/// returns no more than was deposited, and all of it where the vault was
/// empty before.
pub proof fn lemma_round_trip(s: VaultState, user: Address, amount: int)
    requires
        s.consistent(),
        s.deposit_refusal(user, amount) is None,
        s.after_deposit(user, amount).withdraw_refusal(
            user,
            shares_for(s.total_assets, s.total_shares, amount),
        ) is None,
    ensures
        assets_for(
            s.after_deposit(user, amount).total_assets,
            s.after_deposit(user, amount).total_shares,
            shares_for(s.total_assets, s.total_shares, amount),
        ) <= amount,
        s.total_shares == 0 ==> assets_for(
            s.after_deposit(user, amount).total_assets,
            s.after_deposit(user, amount).total_shares,
            shares_for(s.total_assets, s.total_shares, amount),
        ) == amount,
{
    let a = s.total_assets;
    let t = s.total_shares;
    let minted = shares_for(a, t, amount);
    if a > 0 && t > 0 {
        assert(minted * a <= amount * t) by (nonlinear_arith)
            requires
                minted == (amount * t) / a,
                a > 0,
        ;
        assert(minted * (a + amount) <= amount * (t + minted)) by (nonlinear_arith)
            requires
                minted * a <= amount * t,
        ;
        assert((minted * (a + amount)) / (t + minted) <= amount) by (nonlinear_arith)
            requires
                minted * (a + amount) <= amount * (t + minted),
                t + minted > 0,
        ;
    } else {
        assert((amount * amount) / amount == amount) by (nonlinear_arith)
            requires
                amount > 0,
        ;
    }
}

/// A deposit never lowers the value of a share: measured across the deposit,
/// assets per share after it are at least assets per share before it.
pub proof fn lemma_deposit_keeps_share_value(s: VaultState, user: Address, amount: int)
    requires
        s.consistent(),
        s.deposit_refusal(user, amount) is None,
    ensures
        s.after_deposit(user, amount).total_assets * s.total_shares >= s.total_assets
            * s.after_deposit(user, amount).total_shares,
{
    let a = s.total_assets;
    let t = s.total_shares;
    let minted = shares_for(a, t, amount);
    if a > 0 && t > 0 {
        assert(minted * a <= amount * t) by (nonlinear_arith)
            requires
                minted == (amount * t) / a,
                a > 0,
        ;
        assert((a + amount) * t >= a * (t + minted)) by (nonlinear_arith)
            requires
                minted * a <= amount * t,
        ;
    } else {
        assert((a + amount) * t >= a * (t + minted)) by (nonlinear_arith)
            requires
                a == 0,
                t == 0,
        ;
    }
}

/// A withdrawal never lowers the value of a share for those who stay:
/// assets per share after it are at least assets per share before it.
pub proof fn lemma_withdraw_keeps_share_value(s: VaultState, user: Address, shares: int)
    requires
        s.consistent(),
        s.withdraw_refusal(user, shares) is None,
    ensures
        s.after_withdraw(user, shares).total_assets * s.total_shares >= s.total_assets
            * s.after_withdraw(user, shares).total_shares,
{
    let a = s.total_assets;
    let t = s.total_shares;
    let assets = assets_for(a, t, shares);
    assert(assets * t <= shares * a) by (nonlinear_arith)
        requires
            assets == (shares * a) / t,
            t > 0,
    ;
    assert((a - assets) * t >= a * (t - shares)) by (nonlinear_arith)
        requires
            assets * t <= shares * a,
    ;
}

/// Reading depends on the state alone: two vaults in the same state answer
/// every read alike, so a read repeated with no change in between returns
/// what it returned before.
pub proof fn lemma_reads_agree(a: VaultState, b: VaultState, user: Address)
    requires
        a.total_assets == b.total_assets,
        a.total_shares == b.total_shares,
        a.balances =~= b.balances,
    ensures
        a.balance_of(user) == b.balance_of(user),
        price_of(a.total_assets, a.total_shares) == price_of(b.total_assets, b.total_shares),
{
}

/// At the edges of the amounts: an initialized vault refuses a deposit and a
/// withdrawal of nothing with `InvalidAmount`, and refuses a withdrawal of
/// more shares than the holder has with `InsufficientBalance`.
pub proof fn lemma_refused_amounts(s: VaultState, user: Address, shares: int)
    requires
        s.initialized,
    ensures
        s.deposit_refusal(user, 0) == Some(VaultError::InvalidAmount),
        s.withdraw_refusal(user, 0) == Some(VaultError::InvalidAmount),
        shares > 0 && shares > s.balance_of(user) ==> s.withdraw_refusal(user, shares) == Some(
            VaultError::InsufficientBalance,
        ),
{
}

impl View for Vault {
    type V = VaultState;

    open spec fn view(&self) -> VaultState {
        VaultState {
            initialized: self.initialized,
            total_assets: self.data.total_assets as int,
            total_shares: self.data.total_shares as int,
            balances: share_book(self.data.balances),
        }
    }
}


/// The operations of a vault, each with what it owes.
pub trait VaultInterface: Sized {
    /// The mathematical state that the operations speak of.
    spec fn state(&self) -> VaultState;

    /// Sets the vault up, once: it is then initialized and empty. A second
    /// call is refused with `AlreadyInitialized`.
    fn initialize(&mut self, env: &Env) -> (r: Result<bool, VaultError>)
        ensures
            r is Ok <==> !old(self).state().initialized,
            r is Ok ==> r == Ok::<bool, VaultError>(true) && final(self).state()
                == VaultState::empty(true),
            r is Err ==> r == Err::<bool, VaultError>(VaultError::AlreadyInitialized)
                && final(self).state() == old(self).state(),
            r is Ok ==> final(self).state().consistent(),
            old(self).state().consistent() ==> final(self).state().consistent(),
    ;

    /// Takes `amount` assets from `user` into the vault and returns the
    /// shares minted for them, which are added to the shares issued and to
    /// the holder's balance.
    fn deposit(&mut self, user: Address, amount: i128) -> (r: Result<i128, VaultError>)
        ensures
            match r {
                Ok(minted) => {
                    &&& old(self).state().deposit_refusal(user, amount as int) is None
                    &&& minted == shares_for(
                        old(self).state().total_assets,
                        old(self).state().total_shares,
                        amount as int,
                    )
                    &&& final(self).state() == old(self).state().after_deposit(user, amount as int)
                },
                Err(e) => {
                    &&& old(self).state().deposit_refusal(user, amount as int) == Some(e)
                    &&& final(self).state() == old(self).state()
                },
            },
            old(self).state().consistent() ==> final(self).state().consistent(),
    ;

    /// Redeems `shares` of `user` and returns the assets paid out for them,
    /// which leave the vault as the shares leave the shares issued and the
    /// holder's balance.
    fn withdraw(&mut self, user: Address, shares: i128) -> (r: Result<i128, VaultError>)
        ensures
            match r {
                Ok(assets) => {
                    &&& old(self).state().withdraw_refusal(user, shares as int) is None
                    &&& assets == assets_for(
                        old(self).state().total_assets,
                        old(self).state().total_shares,
                        shares as int,
                    )
                    &&& final(self).state() == old(self).state().after_withdraw(user, shares as int)
                },
                Err(e) => {
                    &&& old(self).state().withdraw_refusal(user, shares as int) == Some(e)
                    &&& final(self).state() == old(self).state()
                },
            },
            old(self).state().consistent() ==> final(self).state().consistent(),
    ;

    /// The assets that the vault holds.
    fn total_assets(&self) -> (r: i128)
        ensures
            r == self.state().total_assets,
    ;

    /// The shares that the vault has issued.
    fn total_shares(&self) -> (r: i128)
        ensures
            r == self.state().total_shares,
    ;

    /// The shares that `user` holds: zero for a principal without an entry.
    fn balance_of(&self, user: Address) -> (r: i128)
        ensures
            r == self.state().balance_of(user),
    ;

    /// The value of one share in assets, rounded down; zero while no shares
    /// exist.
    fn price_per_share(&self) -> (r: i128)
        ensures
            r == price_of(self.state().total_assets, self.state().total_shares),
    ;
}

impl Vault {
    /// A vault that has not been initialized, with all accounts at zero.
    pub fn new(env: &Env) -> (vault: Vault)
        ensures
            vault@ == VaultState::empty(false),
            vault@.consistent(),
    {
        proof {
            lemma_empty_consistent(false);
        }
        Vault {
            initialized: false,
            data: VaultData { total_assets: 0, total_shares: 0, balances: book_new(env) },
        }
    }
}

impl VaultInterface for Vault {
    open spec fn state(&self) -> VaultState {
        self@
    }

    fn initialize(&mut self, env: &Env) -> (r: Result<bool, VaultError>) {
        if self.initialized {
            return Err(VaultError::AlreadyInitialized);
        }
        self.data = VaultData { total_assets: 0, total_shares: 0, balances: book_new(env) };
        self.initialized = true;
        proof {
            lemma_empty_consistent(true);
        }
        Ok(true)
    }

    fn deposit(&mut self, user: Address, amount: i128) -> (r: Result<i128, VaultError>) {
        if !self.initialized {
            return Err(VaultError::NotInitialized);
        }
        if amount <= 0 {
            return Err(VaultError::InvalidAmount);
        }
        let total_assets: i128 = self.data.total_assets;
        let total_shares: i128 = self.data.total_shares;
        let minted: i128 = if total_assets > 0 && total_shares > 0 {
            match amount.checked_mul(total_shares) {
                Some(product) => product / total_assets,
                None => {
                    return Err(VaultError::Overflow);
                },
            }
        } else {
            amount
        };
        proof {
            lemma_shares_for_nonnegative(total_assets as int, total_shares as int, amount as int);
        }
        let held: i128 = match book_get(&self.data.balances, &user) {
            Some(shares) => shares,
            None => 0,
        };
        let new_assets: i128 = match total_assets.checked_add(amount) {
            Some(sum) => sum,
            None => {
                return Err(VaultError::Overflow);
            },
        };
        let new_shares: i128 = match total_shares.checked_add(minted) {
            Some(sum) => sum,
            None => {
                return Err(VaultError::Overflow);
            },
        };
        let new_held: i128 = match held.checked_add(minted) {
            Some(sum) => sum,
            None => {
                return Err(VaultError::Overflow);
            },
        };
        proof {
            if old(self)@.consistent() {
                lemma_deposit_keeps_consistent(old(self)@, user, amount as int);
            }
        }
        self.data.total_assets = new_assets;
        self.data.total_shares = new_shares;
        book_set(&mut self.data.balances, user, new_held);
        Ok(minted)
    }

    fn withdraw(&mut self, user: Address, shares: i128) -> (r: Result<i128, VaultError>) {
        if !self.initialized {
            return Err(VaultError::NotInitialized);
        }
        if shares <= 0 {
            return Err(VaultError::InvalidAmount);
        }
        let total_assets: i128 = self.data.total_assets;
        let total_shares: i128 = self.data.total_shares;
        let held: i128 = match book_get(&self.data.balances, &user) {
            Some(shares) => shares,
            None => 0,
        };
        if held < shares || total_shares < shares {
            return Err(VaultError::InsufficientBalance);
        }
        if total_assets < 0 {
            return Err(VaultError::Overflow);
        }
        let assets: i128 = match shares.checked_mul(total_assets) {
            Some(product) => product / total_shares,
            None => {
                return Err(VaultError::Overflow);
            },
        };
        proof {
            lemma_assets_for_bounds(total_assets as int, total_shares as int, shares as int);
            if old(self)@.consistent() {
                lemma_withdraw_keeps_consistent(old(self)@, user, shares as int);
            }
        }
        self.data.total_assets = total_assets - assets;
        self.data.total_shares = total_shares - shares;
        book_set(&mut self.data.balances, user, held - shares);
        Ok(assets)
    }

    fn total_assets(&self) -> (r: i128) {
        self.data.total_assets
    }

    fn total_shares(&self) -> (r: i128) {
        self.data.total_shares
    }

    fn balance_of(&self, user: Address) -> (r: i128) {
        match book_get(&self.data.balances, &user) {
            Some(shares) => shares,
            None => 0,
        }
    }

    fn price_per_share(&self) -> (r: i128) {
        if self.data.total_shares > 0 && self.data.total_assets >= 0 {
            self.data.total_assets / self.data.total_shares
        } else {
            0
        }
    }
}

} // verus!
