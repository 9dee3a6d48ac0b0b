//! One account of the ledger: free and staked balance, escrow allowances and
//! secondary asset balances.

use crate::str_map::StrMap;
use vstd::prelude::*;

verus! {

/// What one account holds, as plain mathematics.
#[verifier::ext_equal]
pub struct AccountView {
    /// Unstaked balance: free to transfer or to stake.
    pub balance: u128,
    /// Balance locked as collateral for minted stablecoin.
    pub staked_balance: u128,
    /// Spending limits granted to escrow accounts. A missing entry is a limit
    /// of zero.
    pub allowances: Map<Seq<char>, u128>,
    /// Balances of secondary assets. A missing entry is a balance of zero.
    pub assets: Map<Seq<char>, u128>,
}

impl AccountView {
    /// The account that holds nothing and has granted nothing.
    pub open spec fn empty() -> AccountView {
        AccountView {
            balance: 0,
            staked_balance: 0,
            allowances: Map::empty(),
            assets: Map::empty(),
        }
    }

    /// Free and staked balance together.
    pub open spec fn total(self) -> nat {
        (self.balance + self.staked_balance) as nat
    }

    /// The spending limit of `escrow` on this account.
    pub open spec fn allowance(self, escrow: Seq<char>) -> u128 {
        if self.allowances.contains_key(escrow) {
            self.allowances[escrow]
        } else {
            0
        }
    }

    /// The balance of the asset `name`.
    pub open spec fn asset(self, name: Seq<char>) -> u128 {
        if self.assets.contains_key(name) {
            self.assets[name]
        } else {
            0
        }
    }

    /// This account with the limit of `escrow` set to `allowance`. A limit of
    /// zero is stored as no entry.
    pub open spec fn with_allowance(self, escrow: Seq<char>, allowance: u128) -> AccountView {
        AccountView {
            allowances: if allowance > 0 {
                self.allowances.insert(escrow, allowance)
            } else {
                self.allowances.remove(escrow)
            },
            ..self
        }
    }

    /// This account with the balance of asset `name` set to `amount`.
    pub open spec fn with_asset(self, name: Seq<char>, amount: u128) -> AccountView {
        AccountView { assets: self.assets.insert(name, amount), ..self }
    }

    /// This account with the given free balance.
    pub open spec fn with_balance(self, balance: u128) -> AccountView {
        AccountView { balance, ..self }
    }

    /// This account with the given staked balance.
    pub open spec fn with_staked(self, staked_balance: u128) -> AccountView {
        AccountView { staked_balance, ..self }
    }
}

/// One account of the ledger.
pub struct Account {
    /// Current unstaked balance.
    pub balance: u128,
    /// Escrow account to the amount it may spend.
    pub allowances: StrMap<u128>,
    /// Current staked balance.
    pub staked_balance: u128,
    /// Asset name to the balance held of it.
    pub assets: StrMap<u128>,
}

impl View for Account {
    type V = AccountView;

    open spec fn view(&self) -> AccountView {
        AccountView {
            balance: self.balance,
            staked_balance: self.staked_balance,
            allowances: self.allowances@,
            assets: self.assets@,
        }
    }
}

impl Default for Account {
    fn default() -> (a: Account)
        ensures
            a.wf(),
            a@ == AccountView::empty(),
    {
        Account::new()
    }
}

impl Account {
    /// Both maps of the account are well formed.
    pub open spec fn wf(&self) -> bool {
        self.allowances.wf() && self.assets.wf()
    }

    /// An account with no balance, no allowance and no asset.
    pub fn new() -> (a: Account)
        ensures
            a.wf(),
            a@ == AccountView::empty(),
    {
        Account { balance: 0, allowances: StrMap::new(), staked_balance: 0, assets: StrMap::new() }
    }

    /// Sets the amount that `escrow_account_id` may spend from this account.
    /// An allowance of zero removes the entry.
    pub fn set_allowance(&mut self, escrow_account_id: &String, allowance: u128)
        requires
            old(self).wf(),
        ensures
            final(self).wf(),
            final(self)@ == old(self)@.with_allowance(escrow_account_id@, allowance),
    {
        if allowance > 0 {
            self.allowances.insert(escrow_account_id.clone(), allowance);
        } else {
            let _ = self.allowances.remove(escrow_account_id);
        }
    }

    /// The amount that `escrow_account_id` may spend from this account.
    pub fn get_allowance(&self, escrow_account_id: &String) -> (allowance: u128)
        requires
            self.wf(),
        ensures
            allowance == self@.allowance(escrow_account_id@),
    {
        match self.allowances.get(escrow_account_id) {
            Some(v) => *v,
            None => 0,
        }
    }

    /// Sets the balance of the asset `name`.
    pub fn set_asset_balance(&mut self, name: &String, amount: u128)
        requires
            old(self).wf(),
        ensures
            final(self).wf(),
            final(self)@ == old(self)@.with_asset(name@, amount),
    {
        self.assets.insert(name.clone(), amount);
    }

    /// The balance held of the asset `name`.
    pub fn get_asset_balance(&self, name: &String) -> (amount: u128)
        requires
            self.wf(),
        ensures
            amount == self@.asset(name@),
    {
        match self.assets.get(name) {
            Some(v) => *v,
            None => 0,
        }
    }

    /// Replaces the staked balance.
    pub fn set_staked_balance(&mut self, staked_balance: u128)
        ensures
            final(self).wf() == old(self).wf(),
            final(self)@ == old(self)@.with_staked(staked_balance),
            final(self).allowances == old(self).allowances,
            final(self).assets == old(self).assets,
    {
        self.staked_balance = staked_balance;
    }

    /// The staked balance.
    pub fn get_staked_balance(&self) -> (staked: u128)
        ensures
            staked == self@.staked_balance,
    {
        self.staked_balance
    }

    /// Free and staked balance together.
    pub fn total_balance(&self) -> (total: u128)
        requires
            self@.total() <= u128::MAX,
        ensures
            total == self@.total(),
    {
        self.balance + self.staked_balance
    }
}

} // verus!
