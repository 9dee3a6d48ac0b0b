//! Transfers of free balance, by the owner or by an escrow within its
//! allowance.

use crate::art::Art;
use crate::decimal::parse_amount;
use crate::error::LedgerError;
use crate::laws::lemma_move;
use vstd::prelude::*;

verus! {

impl Art {
    /// Takes `amount` from the free balance of `from`, and from the
    /// allowance of `spender` where the two differ.
    pub(crate) fn debit(&mut self, spender: &String, from: String, amount: u128)
        requires
            old(self).maps_wf(),
            old(self)@.account(from@).balance >= amount,
            spender@ != from@ ==> old(self)@.account(from@).allowance(spender@) >= amount,
        ensures
            final(self).maps_wf(),
            final(self)@ == old(self)@.debit(spender@, from@, amount),
    {
        let mut account = self.take_account(&from);
        account.balance = account.balance - amount;
        if *spender != from {
            let allowance = account.get_allowance(spender);
            account.set_allowance(spender, allowance - amount);
        }
        self.put_account(from, account);
        assert(self@.accounts =~= old(self)@.debit(spender@, from@, amount).accounts);
    }

    /// Adds `amount` to the free balance of `to`.
    pub(crate) fn credit(&mut self, to: String, amount: u128)
        requires
            old(self).maps_wf(),
            old(self)@.account(to@).balance + amount <= u128::MAX,
        ensures
            final(self).maps_wf(),
            final(self)@ == old(self)@.credit(to@, amount),
    {
        let mut account = self.take_account(&to);
        account.balance = account.balance + amount;
        self.put_account(to, account);
        assert(self@.accounts =~= old(self)@.credit(to@, amount).accounts);
    }

    /// Moves `amount` from the free balance of `owner_id` to that of
    /// `new_owner_id`.
    ///
    /// A caller other than the owner spends its allowance, which shrinks by
    /// `amount`; an allowance that reaches zero is removed. Staked balances
    /// are never touched.
    pub fn transfer_from(
        &mut self,
        caller: String,
        owner_id: String,
        new_owner_id: String,
        amount: String,
    ) -> (r: Result<(), LedgerError>)
        requires
            old(self).wf(),
        ensures
            final(self).wf(),
            match old(self)@.transfer_from(caller@, owner_id@, new_owner_id@, amount@) {
                Ok(s) => r is Ok && final(self)@ == s,
                Err(e) => r == Err::<(), LedgerError>(e) && *final(self) == *old(self),
            },
    {
        let value = match parse_amount(&amount) {
            Ok(v) => v,
            Err(e) => {
                return Err(e);
            },
        };
        if value == 0 {
            return Err(LedgerError::ZeroAmount);
        }
        if self.balance_of(&owner_id) < value {
            return Err(LedgerError::InsufficientBalance);
        }
        if caller != owner_id && self.allowance_of(&owner_id, &caller) < value {
            return Err(LedgerError::InsufficientAllowance);
        }
        proof {
            lemma_move(self@, caller@, owner_id@, new_owner_id@, value);
        }
        self.debit(&caller, owner_id, value);
        self.credit(new_owner_id, value);
        Ok(())
    }

    /// Moves `amount` from the caller's free balance to that of
    /// `new_owner_id`.
    pub fn transfer(&mut self, caller: String, new_owner_id: String, amount: String) -> (r: Result<
        (),
        LedgerError,
    >)
        requires
            old(self).wf(),
        ensures
            final(self).wf(),
            match old(self)@.transfer(caller@, new_owner_id@, amount@) {
                Ok(s) => r is Ok && final(self)@ == s,
                Err(e) => r == Err::<(), LedgerError>(e) && *final(self) == *old(self),
            },
    {
        let owner_id = caller.clone();
        self.transfer_from(caller, owner_id, new_owner_id, amount)
    }
}

} // verus!
