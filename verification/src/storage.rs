//! Bookkeeping of the storage that accounts pay for, and the plain balance
//! queries of a fungible token.

use crate::art::Art;
use crate::error::LedgerError;
use crate::laws::lemma_unregister;
use crate::model::LedgerView;
use vstd::prelude::*;

verus! {

/// What an account has paid for its storage.
#[derive(Debug, Clone, Copy, PartialEq, Eq, Structural)]
pub struct StorageBalance {
    /// All that was paid and kept.
    pub total: u128,
    /// The part that can be asked back.
    pub available: u128,
}

/// The least and the most that an account may pay for its storage.
#[derive(Debug, Clone, Copy, PartialEq, Eq, Structural)]
pub struct StorageBalanceBounds {
    pub min: u128,
    pub max: Option<u128>,
}

/// Outcome of a storage deposit.
#[derive(Debug, Clone, Copy, PartialEq, Eq, Structural)]
pub struct StorageDeposit {
    /// The storage balance of the account after the deposit.
    pub balance: StorageBalance,
    /// The part of the deposit that goes back to the payer.
    pub refund: u128,
}

/// The storage balance of every registered account: the fixed price of one
/// account, none of which can be asked back.
pub open spec fn registered_storage(min_balance: u128) -> StorageBalance {
    StorageBalance { total: min_balance, available: 0 }
}

impl LedgerView {
    /// The storage balance of `id`; `None` when it has no entry.
    pub open spec fn storage_balance_of(self, id: Seq<char>, min_balance: u128) -> Option<
        StorageBalance,
    > {
        if self.accounts.contains_key(id) {
            Some(registered_storage(min_balance))
        } else {
            None
        }
    }

    /// A deposit of `deposit` for the storage of `id`. An account that has an
    /// entry gets the whole deposit back; a new one is registered and gets
    /// back what exceeds the price of one account.
    pub open spec fn storage_deposit(self, id: Seq<char>, deposit: u128, min_balance: u128) -> Result<
        (LedgerView, StorageDeposit),
        LedgerError,
    > {
        if self.accounts.contains_key(id) {
            Ok((self, StorageDeposit { balance: registered_storage(min_balance), refund: deposit }))
        } else if deposit < min_balance {
            Err(LedgerError::DepositTooSmall)
        } else {
            Ok(
                (
                    self.register(id)->Ok_0,
                    StorageDeposit {
                        balance: registered_storage(min_balance),
                        refund: (deposit - min_balance) as u128,
                    },
                ),
            )
        }
    }

    /// A request of `caller` to get `amount` of its storage balance back.
    /// Nothing of it is ever available.
    pub open spec fn storage_withdraw(
        self,
        caller: Seq<char>,
        amount: Option<u128>,
        min_balance: u128,
    ) -> Result<StorageBalance, LedgerError> {
        if !self.accounts.contains_key(caller) {
            Err(LedgerError::AccountNotRegistered)
        } else if amount is Some && amount->Some_0 > 0 {
            Err(LedgerError::StorageUnavailable)
        } else {
            Ok(registered_storage(min_balance))
        }
    }
}

/// The price of the storage of one account: its size in bytes times the cost
/// of a byte. Least and most are the same.
pub fn storage_balance_bounds(account_storage_usage: u64, byte_cost: u128) -> (r: Result<
    StorageBalanceBounds,
    LedgerError,
>)
    ensures
        r == if account_storage_usage * byte_cost <= u128::MAX {
            Ok::<StorageBalanceBounds, LedgerError>(
                StorageBalanceBounds {
                    min: (account_storage_usage * byte_cost) as u128,
                    max: Some((account_storage_usage * byte_cost) as u128),
                },
            )
        } else {
            Err(LedgerError::Overflow)
        },
{
    match (account_storage_usage as u128).checked_mul(byte_cost) {
        Some(required) => Ok(StorageBalanceBounds { min: required, max: Some(required) }),
        None => Err(LedgerError::Overflow),
    }
}

impl Art {
    /// All collateral tokens in existence.
    pub fn ft_total_supply(&self) -> (r: u128)
        ensures
            r == self@.total_supply,
    {
        self.total_supply
    }

    /// The free balance of `account_id`; zero when it has no entry.
    pub fn ft_balance_of(&self, account_id: &String) -> (r: u128)
        requires
            self.wf(),
        ensures
            r == self@.account(account_id@).balance,
    {
        self.balance_of(account_id)
    }

    /// The storage balance of `account_id`, where `min_balance` is the price
    /// of one account; `None` when the account is not registered.
    pub fn storage_balance_of(&self, account_id: &String, min_balance: u128) -> (r: Option<
        StorageBalance,
    >)
        requires
            self.wf(),
        ensures
            r == self@.storage_balance_of(account_id@, min_balance),
    {
        if self.accounts.contains_key(account_id) {
            Some(StorageBalance { total: min_balance, available: 0 })
        } else {
            None
        }
    }

    /// Takes a deposit of `deposit` for the storage of `account_id`, where
    /// `min_balance` is the price of one account.
    ///
    /// A registered account gets the whole deposit back. A new account is
    /// registered when the deposit covers the price, and gets back the rest.
    pub fn storage_deposit(&mut self, account_id: String, deposit: u128, min_balance: u128) -> (r:
        Result<StorageDeposit, LedgerError>)
        requires
            old(self).wf(),
        ensures
            final(self).wf(),
            match old(self)@.storage_deposit(account_id@, deposit, min_balance) {
                Ok((s, outcome)) => r == Ok::<StorageDeposit, LedgerError>(outcome)
                    && final(self)@ == s,
                Err(e) => r == Err::<StorageDeposit, LedgerError>(e) && *final(self) == *old(self),
            },
    {
        let balance = StorageBalance { total: min_balance, available: 0 };
        if self.accounts.contains_key(&account_id) {
            return Ok(StorageDeposit { balance, refund: deposit });
        }
        if deposit < min_balance {
            return Err(LedgerError::DepositTooSmall);
        }
        match self.internal_register_account(&account_id) {
            Ok(()) => Ok(StorageDeposit { balance, refund: deposit - min_balance }),
            Err(e) => Err(e),
        }
    }

    /// Answers a request of `caller` to get `amount` of its storage balance
    /// back. Nothing is ever available, so only a request for nothing is
    /// granted; it returns the storage balance.
    pub fn storage_withdraw(&self, caller: &String, amount: Option<u128>, min_balance: u128) -> (r:
        Result<StorageBalance, LedgerError>)
        requires
            self.wf(),
        ensures
            r == self@.storage_withdraw(caller@, amount, min_balance),
    {
        if !self.accounts.contains_key(caller) {
            return Err(LedgerError::AccountNotRegistered);
        }
        match amount {
            Some(a) => if a > 0 {
                return Err(LedgerError::StorageUnavailable);
            },
            None => {},
        }
        Ok(StorageBalance { total: min_balance, available: 0 })
    }

    /// Removes the caller's account as [`Art::internal_storage_unregister`]
    /// does, and tells whether there was one to remove.
    pub fn storage_unregister(&mut self, caller: String, force: Option<bool>) -> (r: Result<
        bool,
        LedgerError,
    >)
        requires
            old(self).wf(),
        ensures
            final(self).wf(),
            match old(self)@.unregister(caller@, force == Some(true)) {
                Ok((s, removed)) => r == Ok::<bool, LedgerError>(removed is Some) && final(self)@
                    == s,
                Err(e) => r == Err::<bool, LedgerError>(e) && *final(self) == *old(self),
            },
    {
        proof {
            lemma_unregister(self@, caller@, force == Some(true));
        }
        match self.internal_storage_unregister(caller, force) {
            Ok(removed) => Ok(removed.is_some()),
            Err(e) => Err(e),
        }
    }
}

} // verus!
