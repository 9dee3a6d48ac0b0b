//! Registration of accounts, and deposits, withdrawals and transfers
//! between registered accounts.

use crate::account::Account;
use crate::art::Art;
use crate::error::LedgerError;
use crate::laws::{
    lemma_account_bounds, lemma_deposit, lemma_register, lemma_transfer_registered,
    lemma_unregister, lemma_withdraw,
};
use vstd::prelude::*;

verus! {

impl Art {
    /// Registers `account_id` with an account that holds nothing.
    pub fn internal_register_account(&mut self, account_id: &String) -> (r: Result<
        (),
        LedgerError,
    >)
        requires
            old(self).wf(),
        ensures
            final(self).wf(),
            match old(self)@.register(account_id@) {
                Ok(s) => r is Ok && final(self)@ == s,
                Err(e) => r == Err::<(), LedgerError>(e) && *final(self) == *old(self),
            },
    {
        if self.accounts.contains_key(account_id) {
            return Err(LedgerError::AccountAlreadyRegistered);
        }
        proof {
            lemma_register(self@, account_id@);
        }
        self.put_account(account_id.clone(), Account::new());
        Ok(())
    }

    /// The free balance of a registered account.
    pub fn internal_unwrap_balance_of(&self, account_id: &String) -> (r: Result<u128, LedgerError>)
        requires
            self.wf(),
        ensures
            r == self@.registered_balance(account_id@),
    {
        match self.account_ref(account_id) {
            Some(account) => Ok(account.balance),
            None => Err(LedgerError::AccountNotRegistered),
        }
    }

    /// Carries out a deposit that is known to succeed.
    fn apply_deposit(&mut self, account_id: &String, amount: u128)
        requires
            old(self).wf(),
            old(self)@.deposit(account_id@, amount) is Ok,
        ensures
            final(self).wf(),
            final(self)@ == old(self)@.deposit(account_id@, amount)->Ok_0,
    {
        proof {
            lemma_deposit(self@, account_id@, amount);
        }
        self.credit(account_id.clone(), amount);
        self.total_supply = self.total_supply + amount;
    }

    /// Carries out a withdrawal that is known to succeed.
    fn apply_withdraw(&mut self, account_id: &String, amount: u128)
        requires
            old(self).wf(),
            old(self)@.withdraw(account_id@, amount) is Ok,
        ensures
            final(self).wf(),
            final(self)@ == old(self)@.withdraw(account_id@, amount)->Ok_0,
    {
        proof {
            lemma_withdraw(self@, account_id@, amount);
        }
        self.debit(account_id, account_id.clone(), amount);
        self.total_supply = self.total_supply - amount;
    }

    /// Creates `amount` of new supply in the free balance of a registered
    /// account.
    pub fn internal_deposit(&mut self, account_id: &String, amount: u128) -> (r: Result<
        (),
        LedgerError,
    >)
        requires
            old(self).wf(),
        ensures
            final(self).wf(),
            match old(self)@.deposit(account_id@, amount) {
                Ok(s) => r is Ok && final(self)@ == s,
                Err(e) => r == Err::<(), LedgerError>(e) && *final(self) == *old(self),
            },
    {
        if !self.accounts.contains_key(account_id) {
            return Err(LedgerError::AccountNotRegistered);
        }
        if self.total_supply.checked_add(amount).is_none() {
            return Err(LedgerError::Overflow);
        }
        self.apply_deposit(account_id, amount);
        Ok(())
    }

    /// Destroys `amount` of supply from the free balance of a registered
    /// account.
    pub fn internal_withdraw(&mut self, account_id: &String, amount: u128) -> (r: Result<
        (),
        LedgerError,
    >)
        requires
            old(self).wf(),
        ensures
            final(self).wf(),
            match old(self)@.withdraw(account_id@, amount) {
                Ok(s) => r is Ok && final(self)@ == s,
                Err(e) => r == Err::<(), LedgerError>(e) && *final(self) == *old(self),
            },
    {
        let balance = match self.account_ref(account_id) {
            Some(account) => account.balance,
            None => {
                return Err(LedgerError::AccountNotRegistered);
            },
        };
        if balance < amount {
            return Err(LedgerError::InsufficientBalance);
        }
        self.apply_withdraw(account_id, amount);
        Ok(())
    }

    /// Moves `amount` from the free balance of one registered account to
    /// that of another. The memo is not recorded.
    pub fn internal_transfer(
        &mut self,
        sender_id: &String,
        receiver_id: &String,
        amount: u128,
        memo: Option<String>,
    ) -> (r: Result<(), LedgerError>)
        requires
            old(self).wf(),
        ensures
            final(self).wf(),
            match old(self)@.transfer_registered(sender_id@, receiver_id@, amount) {
                Ok(s) => r is Ok && final(self)@ == s,
                Err(e) => r == Err::<(), LedgerError>(e) && *final(self) == *old(self),
            },
    {
        if *sender_id == *receiver_id {
            return Err(LedgerError::SelfTransfer);
        }
        if amount == 0 {
            return Err(LedgerError::ZeroAmount);
        }
        let balance = match self.account_ref(sender_id) {
            Some(account) => account.balance,
            None => {
                return Err(LedgerError::AccountNotRegistered);
            },
        };
        if balance < amount {
            return Err(LedgerError::InsufficientBalance);
        }
        if !self.accounts.contains_key(receiver_id) {
            return Err(LedgerError::AccountNotRegistered);
        }
        proof {
            lemma_transfer_registered(self@, sender_id@, receiver_id@, amount);
        }
        self.apply_withdraw(sender_id, amount);
        self.apply_deposit(receiver_id, amount);
        Ok(())
    }

    /// Removes the caller's account and takes what it held out of the
    /// supply.
    ///
    /// An account that still holds tokens is removed only when `force` is
    /// `Some(true)`. Returns the account and what it held, or `None` when the
    /// caller has no account.
    pub fn internal_storage_unregister(&mut self, caller: String, force: Option<bool>) -> (r: Result<
        Option<(String, u128)>,
        LedgerError,
    >)
        requires
            old(self).wf(),
        ensures
            final(self).wf(),
            match old(self)@.unregister(caller@, force == Some(true)) {
                Ok((s, removed)) => {
                    &&& r is Ok
                    &&& final(self)@ == s
                    &&& match removed {
                        Some(balance) => r->Ok_0 is Some && r->Ok_0->Some_0.0@ == caller@
                            && r->Ok_0->Some_0.1 == balance,
                        None => r->Ok_0 is None,
                    }
                },
                Err(e) => r is Err && r->Err_0 == e && *final(self) == *old(self),
            },
    {
        let forced = match force {
            Some(f) => f,
            None => false,
        };
        proof {
            lemma_unregister(self@, caller@, forced);
            lemma_account_bounds(self@, caller@);
        }
        let balance = match self.account_ref(&caller) {
            Some(account) => account.total_balance(),
            None => {
                return Ok(None);
            },
        };
        if balance != 0 && !forced {
            return Err(LedgerError::PositiveBalance);
        }
        let _ = self.accounts.remove(&caller);
        self.total_supply = self.total_supply - balance;
        assert(self@.accounts =~= old(self)@.accounts.remove(caller@));
        Ok(Some((caller, balance)))
    }
}

} // verus!
