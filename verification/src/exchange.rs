//! Exchanges between collateral, stablecoin, secondary assets and the
//! native currency, at oracle prices.

use crate::art::Art;
use crate::decimal::parse_amount;
use crate::error::LedgerError;
use crate::laws::{lemma_move, lemma_put_same_balances};
use crate::model::{native_asset, PeerCall};
use crate::pricing::{
    compute_collateral_for_native, compute_collateral_for_stable, compute_stable_for_collateral,
    compute_value_at,
};
use vstd::prelude::*;
use vstd::string::StringExecFns;

verus! {

/// The name under which the oracle reports the price of the native currency.
pub fn native_asset_name() -> (name: String)
    ensures
        name@ == native_asset(),
{
    String::from_str("aNEAR")
}

impl Art {
    /// Buys collateral from the owner's free balance with `deposit` of the
    /// native currency, at the ratio of the two oracle prices.
    pub fn buy_art_with_near(&mut self, caller: String, deposit: u128) -> (r: Result<
        (),
        LedgerError,
    >)
        requires
            old(self).wf(),
        ensures
            final(self).wf(),
            match old(self)@.buy_art_with_near(caller@, deposit) {
                Ok(s) => r is Ok && final(self)@ == s,
                Err(e) => r == Err::<(), LedgerError>(e) && *final(self) == *old(self),
            },
    {
        if deposit == 0 {
            return Err(LedgerError::ZeroAmount);
        }
        let native_price = self._get_asset_price(&native_asset_name());
        if native_price == 0 || self.price == 0 {
            return Err(LedgerError::OraclePriceMissing);
        }
        let bought = match compute_collateral_for_native(native_price, self.price, deposit) {
            Some(b) => b,
            None => {
                return Err(LedgerError::Overflow);
            },
        };
        if self.balance_of(&caller).checked_add(bought).is_none() {
            return Err(LedgerError::Overflow);
        }
        if self.balance_of(&self.owner) < bought {
            return Err(LedgerError::Underflow);
        }
        proof {
            lemma_move(self@, self.owner@, self.owner@, caller@, bought);
        }
        let owner = self.owner.clone();
        self.debit(&owner, owner.clone(), bought);
        self.credit(caller, bought);
        Ok(())
    }

    /// Returns the call that hands the caller the stablecoin bought with
    /// `deposit` of the native currency. The ledger does not change.
    pub fn buy_ausd_with_near(&self, caller: String, deposit: u128) -> (r: Result<
        PeerCall,
        LedgerError,
    >)
        requires
            self.wf(),
        ensures
            match self@.buy_ausd_with_near(caller@, deposit) {
                Ok(call) => r is Ok && r->Ok_0@ == call,
                Err(e) => r is Err && r->Err_0 == e,
            },
    {
        if deposit == 0 {
            return Err(LedgerError::ZeroAmount);
        }
        let native_price = self._get_asset_price(&native_asset_name());
        if native_price == 0 || self.price == 0 {
            return Err(LedgerError::OraclePriceMissing);
        }
        match compute_value_at(native_price, deposit) {
            Some(bought) => Ok(PeerCall::BuyAusd { new_owner_id: caller, amount: bought }),
            None => Err(LedgerError::Overflow),
        }
    }

    /// Sells `amount` of the caller's free collateral to the owner and
    /// returns the call that pays the caller in stablecoin, less the fee.
    pub fn exchange_art_to_ausd(&mut self, caller: String, amount: String) -> (r: Result<
        PeerCall,
        LedgerError,
    >)
        requires
            old(self).wf(),
        ensures
            final(self).wf(),
            match old(self)@.exchange_art_to_ausd(caller@, amount@) {
                Ok((s, call)) => r is Ok && r->Ok_0@ == call && final(self)@ == s,
                Err(e) => r is Err && r->Err_0 == e && *final(self) == *old(self),
            },
    {
        if self.price == 0 {
            return Err(LedgerError::OraclePriceMissing);
        }
        let value = match parse_amount(&amount) {
            Ok(v) => v,
            Err(e) => {
                return Err(e);
            },
        };
        let paid = match compute_stable_for_collateral(self.price, value) {
            Some(p) => p,
            None => {
                return Err(LedgerError::Overflow);
            },
        };
        if self.balance_of(&caller) < value {
            return Err(LedgerError::Underflow);
        }
        if self.balance_of(&self.owner).checked_add(value).is_none() {
            return Err(LedgerError::Overflow);
        }
        proof {
            lemma_move(self@, caller@, caller@, self.owner@, value);
        }
        let owner = self.owner.clone();
        self.debit(&caller, caller.clone(), value);
        self.credit(owner, value);
        Ok(PeerCall::BuyAusd { new_owner_id: caller, amount: paid })
    }

    /// Buys collateral from the owner's free balance for `ausd_amount` of
    /// stablecoin, less the fee, and returns the call that collects the
    /// stablecoin from the caller.
    pub fn exchange_ausd_to_art(&mut self, caller: String, ausd_amount: String) -> (r: Result<
        PeerCall,
        LedgerError,
    >)
        requires
            old(self).wf(),
        ensures
            final(self).wf(),
            match old(self)@.exchange_ausd_to_art(caller@, ausd_amount@) {
                Ok((s, call)) => r is Ok && r->Ok_0@ == call && final(self)@ == s,
                Err(e) => r is Err && r->Err_0 == e && *final(self) == *old(self),
            },
    {
        if self.price == 0 {
            return Err(LedgerError::OraclePriceMissing);
        }
        let value = match parse_amount(&ausd_amount) {
            Ok(v) => v,
            Err(e) => {
                return Err(e);
            },
        };
        let bought = match compute_collateral_for_stable(self.price, value) {
            Some(b) => b,
            None => {
                return Err(LedgerError::Overflow);
            },
        };
        if self.balance_of(&caller).checked_add(bought).is_none() {
            return Err(LedgerError::Overflow);
        }
        if self.balance_of(&self.owner) < bought {
            return Err(LedgerError::Underflow);
        }
        proof {
            lemma_move(self@, self.owner@, self.owner@, caller@, bought);
        }
        let owner = self.owner.clone();
        self.debit(&owner, owner.clone(), bought);
        self.credit(caller.clone(), bought);
        Ok(PeerCall::SellAusd { seller_id: caller, amount: value })
    }

    /// Selling collateral for the native currency is not offered: the call
    /// changes nothing.
    pub fn sell_art_to_near(&mut self)
        ensures
            *final(self) == *old(self),
    {
    }

    /// Selling stablecoin for the native currency is not offered: the call
    /// changes nothing.
    pub fn sell_ausd_to_near(&mut self)
        ensures
            *final(self) == *old(self),
    {
    }

    /// Gives up `asset_amount` of the caller's `asset` and returns the call
    /// that mints the stablecoin it is worth at the asset's price.
    ///
    /// The asset is gone once this returns: it is not given back when the
    /// mint fails on the paired ledger.
    pub fn sell_asset_to_ausd(&mut self, caller: String, asset: String, asset_amount: String) -> (r:
        Result<PeerCall, LedgerError>)
        requires
            old(self).wf(),
        ensures
            final(self).wf(),
            match old(self)@.sell_asset_to_ausd(caller@, asset@, asset_amount@) {
                Ok((s, call)) => r is Ok && r->Ok_0@ == call && final(self)@ == s,
                Err(e) => r is Err && r->Err_0 == e && *final(self) == *old(self),
            },
    {
        let asset_price = self._get_asset_price(&asset);
        if asset_price == 0 {
            return Err(LedgerError::OraclePriceMissing);
        }
        let value = match parse_amount(&asset_amount) {
            Ok(v) => v,
            Err(e) => {
                return Err(e);
            },
        };
        let balance = self._get_asset_balance(&caller, &asset);
        if balance < value {
            return Err(LedgerError::Underflow);
        }
        let minted = match compute_value_at(asset_price, value) {
            Some(m) => m,
            None => {
                return Err(LedgerError::Overflow);
            },
        };
        let mut account = self.take_account(&caller);
        account.set_asset_balance(&asset, balance - value);
        proof {
            lemma_put_same_balances(old(self)@, caller@, account@);
        }
        self.put_account(caller.clone(), account);
        assert(self@.accounts =~= old(self)@.put(
            caller@,
            old(self)@.account(caller@).with_asset(asset@, (balance - value) as u128),
        ).accounts);
        Ok(PeerCall::Mint { account_id: caller, amount: minted })
    }

    /// Returns the call that burns the stablecoin that `asset_amount` of
    /// `asset` costs at the asset's price.
    ///
    /// Nothing is credited here. The paired ledger burns first and then calls
    /// [`Art::buy_asset_callback`].
    pub fn buy_asset_with_ausd(&self, caller: String, asset: String, asset_amount: String) -> (r:
        Result<PeerCall, LedgerError>)
        requires
            self.wf(),
        ensures
            match self@.buy_asset_with_ausd(caller@, asset@, asset_amount@) {
                Ok(call) => r is Ok && r->Ok_0@ == call,
                Err(e) => r is Err && r->Err_0 == e,
            },
    {
        let asset_price = self._get_asset_price(&asset);
        if asset_price == 0 {
            return Err(LedgerError::OraclePriceMissing);
        }
        let value = match parse_amount(&asset_amount) {
            Ok(v) => v,
            Err(e) => {
                return Err(e);
            },
        };
        match compute_value_at(asset_price, value) {
            Some(burned) => Ok(
                PeerCall::BurnToBuyAsset {
                    account_id: caller,
                    burn_amount: burned,
                    asset,
                    asset_amount: value,
                },
            ),
            None => Err(LedgerError::Overflow),
        }
    }

    /// Credits `asset_amount` of `asset` to `account_id`: the callback of the
    /// paired ledger after it has burned the stablecoin. Only the paired
    /// ledger may call.
    pub fn buy_asset_callback(
        &mut self,
        caller: String,
        account_id: String,
        asset: String,
        asset_amount: u128,
    ) -> (r: Result<(), LedgerError>)
        requires
            old(self).wf(),
        ensures
            final(self).wf(),
            match old(self)@.buy_asset_callback(caller@, account_id@, asset@, asset_amount) {
                Ok(s) => r is Ok && final(self)@ == s,
                Err(e) => r == Err::<(), LedgerError>(e) && *final(self) == *old(self),
            },
    {
        if caller != self.ausd_token {
            return Err(LedgerError::Unauthorized);
        }
        let balance = self._get_asset_balance(&account_id, &asset);
        let new_balance = match balance.checked_add(asset_amount) {
            Some(b) => b,
            None => {
                return Err(LedgerError::Overflow);
            },
        };
        let mut account = self.take_account(&account_id);
        account.set_asset_balance(&asset, new_balance);
        proof {
            lemma_put_same_balances(old(self)@, account_id@, account@);
        }
        self.put_account(account_id, account);
        assert(self@.accounts =~= old(self)@.put(
            account_id@,
            old(self)@.account(account_id@).with_asset(asset@, new_balance),
        ).accounts);
        Ok(())
    }
}

} // verus!
