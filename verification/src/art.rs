//! The ledger itself: its state, its view as plain mathematics, its
//! creation, its queries, price submission and allowances.

use crate::account::Account;
use crate::decimal::{decimal, format_amount, parse_amount};
use crate::error::LedgerError;
use crate::laws::{lemma_account_bounds, lemma_genesis, lemma_put_same_balances};
use crate::model::LedgerView;
use crate::str_map::StrMap;
use vstd::prelude::*;

verus! {

/// The collateral-token ledger.
///
/// Every operation takes the identity of its caller and, where time matters,
/// the current time in nanoseconds as arguments. An operation that fails
/// returns the reason and leaves the ledger exactly as it was.
pub struct Art {
    /// Account identifier to account details.
    pub accounts: StrMap<Account>,
    /// Total supply of the token.
    pub total_supply: u128,
    /// Current price of the token, with eight implied decimals.
    pub price: u128,
    /// The account that may submit prices.
    pub owner: String,
    /// The paired stablecoin ledger; unstaking is accepted from it alone.
    pub ausd_token: String,
    /// Total staked balance.
    pub total_staked: u128,
    /// Asset name to its price.
    pub asset_prices: StrMap<u128>,
    /// Account identifier to the time its staking reward was last paid.
    pub reward_paid_at: StrMap<u64>,
    /// Time at which staking rewards were enabled: the ledger's deployment.
    pub staking_reward_enabled_at: u64,
}

impl View for Art {
    type V = LedgerView;

    open spec fn view(&self) -> LedgerView {
        LedgerView {
            accounts: Map::new(
                |k: Seq<char>| self.accounts@.contains_key(k),
                |k: Seq<char>| self.accounts@[k]@,
            ),
            total_supply: self.total_supply,
            price: self.price,
            owner: self.owner@,
            ausd_token: self.ausd_token@,
            total_staked: self.total_staked,
            asset_prices: self.asset_prices@,
            reward_paid_at: self.reward_paid_at@,
            staking_reward_enabled_at: self.staking_reward_enabled_at,
        }
    }
}

impl Art {
    /// Every map of the ledger, and of each of its accounts, is well formed.
    pub open spec fn maps_wf(&self) -> bool {
        &&& self.accounts.wf()
        &&& self.asset_prices.wf()
        &&& self.reward_paid_at.wf()
        &&& forall|k: Seq<char>|
            self.accounts@.contains_key(k) ==> (#[trigger] self.accounts@[k]).wf()
    }

    /// The ledger is well formed: its maps are, and its state satisfies
    /// [`LedgerView::wf`].
    pub open spec fn wf(&self) -> bool {
        self.maps_wf() && self@.wf()
    }

    /// Creates the ledger at time `now`, with `total_supply` given to
    /// `owner_id` and `ausd_token` as the paired stablecoin ledger.
    pub fn new(owner_id: String, total_supply: String, ausd_token: String, now: u64) -> (r: Result<
        Art,
        LedgerError,
    >)
        ensures
            match LedgerView::create(owner_id@, total_supply@, ausd_token@, now) {
                Ok(s) => r is Ok && r->Ok_0@ == s && r->Ok_0.wf(),
                Err(e) => r is Err && r->Err_0 == e,
            },
    {
        let supply = match parse_amount(&total_supply) {
            Ok(v) => v,
            Err(e) => {
                return Err(e);
            },
        };
        let mut account = Account::new();
        account.balance = supply;
        let mut accounts: StrMap<Account> = StrMap::new();
        accounts.insert(owner_id.clone(), account);
        let ledger = Art {
            accounts,
            total_supply: supply,
            price: 0,
            owner: owner_id,
            ausd_token,
            total_staked: 0,
            asset_prices: StrMap::new(),
            reward_paid_at: StrMap::new(),
            staking_reward_enabled_at: now,
        };
        proof {
            lemma_genesis(owner_id@, supply, ausd_token@, now);
            assert(ledger@.accounts =~= LedgerView::genesis(
                owner_id@,
                supply,
                ausd_token@,
                now,
            ).accounts);
            assert(ledger@ == LedgerView::genesis(owner_id@, supply, ausd_token@, now));
        }
        Ok(ledger)
    }

    /// The entry of `id`, if it has one.
    pub(crate) fn account_ref(&self, id: &String) -> (r: Option<&Account>)
        requires
            self.maps_wf(),
        ensures
            match r {
                Some(a) => self@.accounts.contains_key(id@) && a@ == self@.account(id@) && a.wf(),
                None => !self@.accounts.contains_key(id@),
            },
    {
        self.accounts.get(id)
    }

    /// The free balance of `id`.
    pub(crate) fn balance_of(&self, id: &String) -> (r: u128)
        requires
            self.maps_wf(),
        ensures
            r == self@.account(id@).balance,
    {
        match self.account_ref(id) {
            Some(a) => a.balance,
            None => 0,
        }
    }

    /// The staked balance of `id`.
    pub(crate) fn staked_of(&self, id: &String) -> (r: u128)
        requires
            self.maps_wf(),
        ensures
            r == self@.account(id@).staked_balance,
    {
        match self.account_ref(id) {
            Some(a) => a.staked_balance,
            None => 0,
        }
    }

    /// What `escrow_account_id` may spend from `owner_id`.
    pub(crate) fn allowance_of(&self, owner_id: &String, escrow_account_id: &String) -> (r: u128)
        requires
            self.maps_wf(),
        ensures
            r == self@.account(owner_id@).allowance(escrow_account_id@),
    {
        match self.account_ref(owner_id) {
            Some(a) => a.get_allowance(escrow_account_id),
            None => 0,
        }
    }

    /// Takes the entry of `id` out of the ledger, or makes an empty one. The
    /// caller changes it and hands it back with [`Art::put_account`].
    pub(crate) fn take_account(&mut self, id: &String) -> (a: Account)
        requires
            old(self).maps_wf(),
        ensures
            final(self).maps_wf(),
            a.wf(),
            a@ == old(self)@.account(id@),
            final(self)@ == (LedgerView {
                accounts: old(self)@.accounts.remove(id@),
                ..old(self)@
            }),
    {
        let taken = self.accounts.remove(id);
        assert(self@.accounts =~= old(self)@.accounts.remove(id@));
        match taken {
            Some(a) => a,
            None => Account::new(),
        }
    }

    /// Sets the entry of `id`.
    pub(crate) fn put_account(&mut self, id: String, account: Account)
        requires
            old(self).maps_wf(),
            account.wf(),
        ensures
            final(self).maps_wf(),
            final(self)@ == old(self)@.put(id@, account@),
    {
        self.accounts.insert(id, account);
        assert(self@.accounts =~= old(self)@.accounts.insert(id@, account@));
    }

    /// The price of `asset`; zero when none was submitted.
    pub(crate) fn _get_asset_price(&self, asset: &String) -> (r: u128)
        requires
            self.maps_wf(),
        ensures
            r == self@.asset_price(asset@),
    {
        match self.asset_prices.get(asset) {
            Some(v) => *v,
            None => 0,
        }
    }

    /// The balance that `account_id` holds of `asset`.
    pub(crate) fn _get_asset_balance(&self, account_id: &String, asset: &String) -> (r: u128)
        requires
            self.maps_wf(),
        ensures
            r == self@.account(account_id@).asset(asset@),
    {
        match self.account_ref(account_id) {
            Some(a) => a.get_asset_balance(asset),
            None => 0,
        }
    }

    /// Total supply of the token, in decimal.
    pub fn get_total_supply(&self) -> (r: String)
        ensures
            r@ == decimal(self@.total_supply as nat),
    {
        format_amount(self.total_supply)
    }

    /// Free and staked balance of `owner_id` together, in decimal.
    pub fn get_total_balance(&self, owner_id: String) -> (r: String)
        requires
            self.wf(),
        ensures
            r@ == decimal(self@.account(owner_id@).total()),
    {
        proof {
            lemma_account_bounds(self@, owner_id@);
        }
        match self.account_ref(&owner_id) {
            Some(a) => format_amount(a.total_balance()),
            None => format_amount(0),
        }
    }

    /// Free balance of `owner_id`, in decimal.
    pub fn get_unstaked_balance(&self, owner_id: String) -> (r: String)
        requires
            self.wf(),
        ensures
            r@ == decimal(self@.account(owner_id@).balance as nat),
    {
        format_amount(self.balance_of(&owner_id))
    }

    /// What `escrow_account_id` may still spend from `owner_id`, in decimal.
    pub fn get_allowance(&self, owner_id: String, escrow_account_id: String) -> (r: String)
        requires
            self.wf(),
        ensures
            r@ == decimal(self@.account(owner_id@).allowance(escrow_account_id@) as nat),
    {
        format_amount(self.allowance_of(&owner_id, &escrow_account_id))
    }

    /// Staked balance of `account_id`, in decimal.
    pub fn get_staked_balance(&self, account_id: String) -> (r: String)
        requires
            self.wf(),
        ensures
            r@ == decimal(self@.account(account_id@).staked_balance as nat),
    {
        format_amount(self.staked_of(&account_id))
    }

    /// Current price of the token, in decimal.
    pub fn get_price(&self) -> (r: String)
        ensures
            r@ == decimal(self@.price as nat),
    {
        format_amount(self.price)
    }

    /// Current price of `asset`, in decimal; zero when none was submitted.
    pub fn get_asset_price(&self, asset: String) -> (r: String)
        requires
            self.wf(),
        ensures
            r@ == decimal(self@.asset_price(asset@) as nat),
    {
        format_amount(self._get_asset_price(&asset))
    }

    /// What `account_id` holds of `asset`, in decimal.
    pub fn get_asset_balance(&self, account_id: String, asset: String) -> (r: String)
        requires
            self.wf(),
        ensures
            r@ == decimal(self@.account(account_id@).asset(asset@) as nat),
    {
        format_amount(self._get_asset_balance(&account_id, &asset))
    }

    /// The time up to which the staking reward of `account_id` is paid.
    pub fn get_reward_paid_at(&self, account_id: String) -> (r: u64)
        requires
            self.wf(),
        ensures
            r == self@.checkpoint(account_id@),
    {
        match self.reward_paid_at.get(&account_id) {
            Some(v) => *v,
            None => self.staking_reward_enabled_at,
        }
    }

    /// The owner replaces the price of the token. The value is taken as it
    /// is: nothing checks it against the previous price.
    pub fn submit_price(&mut self, caller: String, price: String) -> (r: Result<(), LedgerError>)
        requires
            old(self).wf(),
        ensures
            final(self).wf(),
            match old(self)@.submit_price(caller@, price@) {
                Ok(s) => r is Ok && final(self)@ == s,
                Err(e) => r == Err::<(), LedgerError>(e) && *final(self) == *old(self),
            },
    {
        if caller != self.owner {
            return Err(LedgerError::Unauthorized);
        }
        match parse_amount(&price) {
            Ok(value) => {
                self.price = value;
                Ok(())
            },
            Err(e) => Err(e),
        }
    }

    /// The owner sets the price of `asset`.
    pub fn submit_asset_price(&mut self, caller: String, asset: String, price: String) -> (r: Result<
        (),
        LedgerError,
    >)
        requires
            old(self).wf(),
        ensures
            final(self).wf(),
            match old(self)@.submit_asset_price(caller@, asset@, price@) {
                Ok(s) => r is Ok && final(self)@ == s,
                Err(e) => r == Err::<(), LedgerError>(e) && *final(self) == *old(self),
            },
    {
        if caller != self.owner {
            return Err(LedgerError::Unauthorized);
        }
        match parse_amount(&price) {
            Ok(value) => {
                self.asset_prices.insert(asset, value);
                Ok(())
            },
            Err(e) => Err(e),
        }
    }

    /// Lets `escrow_account_id` spend up to `allowance` of the caller's free
    /// balance. An allowance of zero removes the grant.
    pub fn set_allowance(&mut self, caller: String, escrow_account_id: String, allowance: String) -> (r:
        Result<(), LedgerError>)
        requires
            old(self).wf(),
        ensures
            final(self).wf(),
            match old(self)@.set_allowance(caller@, escrow_account_id@, allowance@) {
                Ok(s) => r is Ok && final(self)@ == s,
                Err(e) => r == Err::<(), LedgerError>(e) && *final(self) == *old(self),
            },
    {
        let value = match parse_amount(&allowance) {
            Ok(v) => v,
            Err(e) => {
                return Err(e);
            },
        };
        if escrow_account_id == caller {
            return Err(LedgerError::SelfAllowance);
        }
        let mut account = self.take_account(&caller);
        account.set_allowance(&escrow_account_id, value);
        proof {
            lemma_put_same_balances(old(self)@, caller@, account@);
        }
        self.put_account(caller, account);
        assert(self@.accounts =~= old(self)@.put(
            caller@,
            old(self)@.account(caller@).with_allowance(escrow_account_id@, value),
        ).accounts);
        Ok(())
    }
}

} // verus!
