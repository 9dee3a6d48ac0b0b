//! Staking and unstaking of collateral, with the reward that is paid on
//! the way, and the calls that mint and burn the stablecoin it backs.

use crate::art::Art;
use crate::decimal::parse_amount;
use crate::error::LedgerError;
use crate::laws::{lemma_lock, lemma_refresh_reward, lemma_unlock};
use crate::model::PeerCall;
use crate::pricing::compute_stable_for_stake;
use crate::reward::{accrue, lemma_accrue_grows, Accrual};
use vstd::prelude::*;

verus! {

impl Art {
    /// The reward due to `id` at `now`, without paying it.
    fn reward_due(&self, id: &String, now: u64) -> (r: Result<Option<Accrual>, LedgerError>)
        requires
            self.maps_wf(),
        ensures
            r == self@.reward_due(id@, now),
    {
        let staked = self.staked_of(id);
        if staked == 0 {
            return Ok(None);
        }
        let paid_at = match self.reward_paid_at.get(id) {
            Some(v) => *v,
            None => self.staking_reward_enabled_at,
        };
        if now < paid_at {
            return Err(LedgerError::Underflow);
        }
        let accrual = match accrue(staked, now - paid_at, paid_at) {
            Ok(a) => a,
            Err(e) => {
                return Err(e);
            },
        };
        if !accrual.applied {
            return Ok(None);
        }
        proof {
            lemma_accrue_grows(staked, (now - paid_at) as u64, paid_at);
        }
        let reward = accrual.principal - staked;
        if self.total_supply.checked_add(reward).is_none() || self.total_staked.checked_add(
            reward,
        ).is_none() {
            return Err(LedgerError::Overflow);
        }
        Ok(Some(accrual))
    }

    /// Pays `accrual` to `id`.
    fn pay_reward(&mut self, id: String, accrual: Accrual)
        requires
            old(self).maps_wf(),
            accrual.principal >= old(self)@.account(id@).staked_balance,
            old(self).total_supply + (accrual.principal - old(self)@.account(id@).staked_balance)
                <= u128::MAX,
            old(self).total_staked + (accrual.principal - old(self)@.account(id@).staked_balance)
                <= u128::MAX,
        ensures
            final(self).maps_wf(),
            final(self)@ == old(self)@.pay_reward(id@, accrual),
    {
        let mut account = self.take_account(&id);
        let reward = accrual.principal - account.staked_balance;
        account.set_staked_balance(accrual.principal);
        self.total_supply = self.total_supply + reward;
        self.total_staked = self.total_staked + reward;
        self.reward_paid_at.insert(id.clone(), accrual.checkpoint);
        self.put_account(id, account);
        assert(self@.accounts =~= old(self)@.pay_reward(id@, accrual).accounts);
    }

    /// Pays the caller the staking reward that is due at `now`.
    ///
    /// Returns `false`, with nothing changed, when the caller has nothing
    /// staked or when less than a day has passed since its checkpoint.
    /// Otherwise the staked balance grows by the compounded reward, the
    /// supply and the total stake grow with it, and the checkpoint moves
    /// forward by the whole days that were paid.
    pub fn refresh_reward(&mut self, caller: String, now: u64) -> (r: Result<bool, LedgerError>)
        requires
            old(self).wf(),
        ensures
            final(self).wf(),
            match old(self)@.refresh_reward(caller@, now) {
                Ok((s, paid)) => r == Ok::<bool, LedgerError>(paid) && final(self)@ == s,
                Err(e) => r == Err::<bool, LedgerError>(e) && *final(self) == *old(self),
            },
            final(self)@.account(caller@).staked_balance >= old(self)@.account(
                caller@,
            ).staked_balance,
    {
        proof {
            lemma_refresh_reward(self@, caller@, now);
        }
        match self.reward_due(&caller, now) {
            Err(e) => Err(e),
            Ok(None) => Ok(false),
            Ok(Some(accrual)) => {
                proof {
                    let staked = self@.account(caller@).staked_balance;
                    let paid_at = self@.checkpoint(caller@);
                    lemma_accrue_grows(staked, (now - paid_at) as u64, paid_at);
                }
                self.pay_reward(caller, accrual);
                Ok(true)
            },
        }
    }

    /// Moves `amount` of `id` from free to staked.
    fn lock(&mut self, id: String, amount: u128, now: u64)
        requires
            old(self).wf(),
            old(self)@.account(id@).balance >= amount,
            old(self).total_staked + amount <= u128::MAX,
        ensures
            final(self).wf(),
            final(self)@ == old(self)@.lock(id@, amount, now),
    {
        proof {
            lemma_lock(self@, id@, amount, now);
        }
        let mut account = self.take_account(&id);
        account.balance = account.balance - amount;
        account.staked_balance = account.staked_balance + amount;
        self.total_staked = self.total_staked + amount;
        self.reward_paid_at.insert(id.clone(), now);
        self.put_account(id, account);
        assert(self@.accounts =~= old(self)@.lock(id@, amount, now).accounts);
    }

    /// Decides whether `caller` can stake `value` at `now`, and which reward
    /// is paid on the way. Changes nothing.
    fn stake_plan(&self, caller: &String, now: u64, value: u128) -> (r: Result<
        Option<Accrual>,
        LedgerError,
    >)
        requires
            self.wf(),
        ensures
            match self@.stake_value(caller@, now, value) {
                Ok(_) => r is Ok && self@.reward_due(caller@, now) == Ok::<
                    Option<Accrual>,
                    LedgerError,
                >(r->Ok_0),
                Err(e) => r == Err::<Option<Accrual>, LedgerError>(e),
            },
    {
        if value == 0 {
            return Err(LedgerError::ZeroAmount);
        }
        let due = match self.reward_due(caller, now) {
            Ok(d) => d,
            Err(e) => {
                return Err(e);
            },
        };
        if self.balance_of(caller) < value {
            return Err(LedgerError::InsufficientBalance);
        }
        let reward: u128 = match due {
            Some(accrual) => {
                proof {
                    let staked = self@.account(caller@).staked_balance;
                    let paid_at = self@.checkpoint(caller@);
                    lemma_accrue_grows(staked, (now - paid_at) as u64, paid_at);
                }
                accrual.principal - self.staked_of(caller)
            },
            None => 0,
        };
        if (self.total_staked + reward).checked_add(value).is_none() {
            return Err(LedgerError::Overflow);
        }
        Ok(due)
    }

    /// Carries out a stake that [`Art::stake_plan`] has accepted.
    fn stake_commit(&mut self, caller: String, now: u64, value: u128, due: Option<Accrual>)
        requires
            old(self).wf(),
            old(self)@.stake_value(caller@, now, value) is Ok,
            old(self)@.reward_due(caller@, now) == Ok::<Option<Accrual>, LedgerError>(due),
        ensures
            final(self).wf(),
            final(self)@ == old(self)@.stake_value(caller@, now, value)->Ok_0,
    {
        proof {
            lemma_refresh_reward(self@, caller@, now);
        }
        match due {
            Some(accrual) => {
                proof {
                    let staked = self@.account(caller@).staked_balance;
                    let paid_at = self@.checkpoint(caller@);
                    lemma_accrue_grows(staked, (now - paid_at) as u64, paid_at);
                }
                self.pay_reward(caller.clone(), accrual);
            },
            None => {},
        }
        self.lock(caller, value, now);
    }

    /// Stakes `stake_amount` of the caller's free balance.
    ///
    /// The reward that is due is paid first, so the new stake earns nothing
    /// for the time before `now`; then the caller's reward clock restarts at
    /// `now`. Returns the amount staked.
    pub fn stake(&mut self, caller: String, now: u64, stake_amount: String) -> (r: Result<
        u128,
        LedgerError,
    >)
        requires
            old(self).wf(),
        ensures
            final(self).wf(),
            match old(self)@.stake(caller@, now, stake_amount@) {
                Ok((s, staked)) => r == Ok::<u128, LedgerError>(staked) && final(self)@ == s,
                Err(e) => r == Err::<u128, LedgerError>(e) && *final(self) == *old(self),
            },
    {
        let value = match parse_amount(&stake_amount) {
            Ok(v) => v,
            Err(e) => {
                return Err(e);
            },
        };
        match self.stake_plan(&caller, now, value) {
            Ok(due) => {
                self.stake_commit(caller, now, value, due);
                Ok(value)
            },
            Err(e) => Err(e),
        }
    }

    /// Stakes `stake` of the caller's free balance and returns the call that
    /// mints the stablecoin it backs: a fifth of the stake at the current
    /// price.
    ///
    /// The stake is final once this returns: it is not undone when the mint
    /// fails on the paired ledger.
    pub fn stake_and_mint(&mut self, caller: String, now: u64, stake: String) -> (r: Result<
        PeerCall,
        LedgerError,
    >)
        requires
            old(self).wf(),
        ensures
            final(self).wf(),
            match old(self)@.stake_and_mint(caller@, now, stake@) {
                Ok((s, call)) => r is Ok && r->Ok_0@ == call && final(self)@ == s,
                Err(e) => r is Err && r->Err_0 == e && *final(self) == *old(self),
            },
    {
        if self.price == 0 {
            return Err(LedgerError::OraclePriceMissing);
        }
        let value = match parse_amount(&stake) {
            Ok(v) => v,
            Err(e) => {
                return Err(e);
            },
        };
        let due = match self.stake_plan(&caller, now, value) {
            Ok(d) => d,
            Err(e) => {
                return Err(e);
            },
        };
        let minted = match compute_stable_for_stake(value, self.price) {
            Some(m) => m,
            None => {
                return Err(LedgerError::Overflow);
            },
        };
        self.stake_commit(caller.clone(), now, value, due);
        Ok(PeerCall::Mint { account_id: caller, amount: minted })
    }

    /// Returns the call that burns the stablecoin backing `unstake_amount`
    /// of stake: a fifth of the amount at the current price.
    ///
    /// Nothing is unlocked here. The paired ledger burns first and then calls
    /// [`Art::unstake`], so a burn that fails leaves the stake in place.
    pub fn burn_to_unstake(&self, caller: String, unstake_amount: String) -> (r: Result<
        PeerCall,
        LedgerError,
    >)
        ensures
            match self@.burn_to_unstake(caller@, unstake_amount@) {
                Ok(call) => r is Ok && r->Ok_0@ == call,
                Err(e) => r is Err && r->Err_0 == e,
            },
    {
        if self.price == 0 {
            return Err(LedgerError::OraclePriceMissing);
        }
        let value = match parse_amount(&unstake_amount) {
            Ok(v) => v,
            Err(e) => {
                return Err(e);
            },
        };
        match compute_stable_for_stake(value, self.price) {
            Some(burned) => Ok(
                PeerCall::BurnToUnstake {
                    account_id: caller,
                    burn_amount: burned,
                    unstake_amount: value,
                },
            ),
            None => Err(LedgerError::Overflow),
        }
    }

    /// Moves `amount` of `id` from staked to free.
    fn unlock(&mut self, id: String, amount: u128)
        requires
            old(self).wf(),
            old(self)@.account(id@).staked_balance >= amount,
        ensures
            final(self).wf(),
            final(self)@ == old(self)@.unlock(id@, amount),
    {
        proof {
            lemma_unlock(self@, id@, amount);
        }
        let mut account = self.take_account(&id);
        account.staked_balance = account.staked_balance - amount;
        account.balance = account.balance + amount;
        self.total_staked = self.total_staked - amount;
        self.put_account(id, account);
        assert(self@.accounts =~= old(self)@.unlock(id@, amount).accounts);
    }

    /// Unlocks `unstake_amount` of the stake of `account_id`: the callback of
    /// the paired ledger after it has burned the stablecoin.
    ///
    /// Only the paired ledger may call. The reward due to the caller itself
    /// is paid first; the reward clock of `account_id` is not touched.
    pub fn unstake(&mut self, caller: String, now: u64, account_id: String, unstake_amount: u128) -> (r:
        Result<(), LedgerError>)
        requires
            old(self).wf(),
        ensures
            final(self).wf(),
            match old(self)@.unstake(caller@, now, account_id@, unstake_amount) {
                Ok(s) => r is Ok && final(self)@ == s,
                Err(e) => r == Err::<(), LedgerError>(e) && *final(self) == *old(self),
            },
    {
        if caller != self.ausd_token {
            return Err(LedgerError::Unauthorized);
        }
        if unstake_amount == 0 {
            return Err(LedgerError::ZeroAmount);
        }
        proof {
            lemma_refresh_reward(self@, caller@, now);
        }
        let due = match self.reward_due(&caller, now) {
            Ok(d) => d,
            Err(e) => {
                return Err(e);
            },
        };
        let staked_after: u128 = match due {
            Some(accrual) => if account_id == caller {
                accrual.principal
            } else {
                self.staked_of(&account_id)
            },
            None => self.staked_of(&account_id),
        };
        if staked_after < unstake_amount {
            return Err(LedgerError::InsufficientBalance);
        }
        match due {
            Some(accrual) => {
                proof {
                    let staked = self@.account(caller@).staked_balance;
                    let paid_at = self@.checkpoint(caller@);
                    lemma_accrue_grows(staked, (now - paid_at) as u64, paid_at);
                }
                self.pay_reward(caller, accrual);
            },
            None => {},
        }
        self.unlock(account_id, unstake_amount);
        Ok(())
    }
}

} // verus!
