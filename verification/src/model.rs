//! The ledger as plain mathematics: its state and, for every operation, the
//! function from the state before to the result and the state after.

use crate::account::AccountView;
use crate::decimal::parse_spec;
use crate::error::LedgerError;
use crate::pricing::{
    collateral_for_native, collateral_for_stable, stable_for_collateral, stable_for_stake,
    value_at,
};
use crate::reward::{accrue_spec, Accrual};
use crate::sums::map_sum;
use vstd::prelude::*;

verus! {

/// A call that the ledger asks its driver to send to the paired stablecoin
/// ledger. The ledger itself never waits for the answer.
#[derive(Debug, PartialEq, Eq)]
pub enum PeerCall {
    /// Credit `amount` of stablecoin to `account_id`.
    Mint { account_id: String, amount: u128 },
    /// Burn `burn_amount` of stablecoin of `account_id`; when that succeeds,
    /// the paired ledger calls back to unstake `unstake_amount`.
    BurnToUnstake { account_id: String, burn_amount: u128, unstake_amount: u128 },
    /// Burn `burn_amount` of stablecoin of `account_id`; when that succeeds,
    /// the paired ledger calls back to credit `asset_amount` of `asset`.
    BurnToBuyAsset { account_id: String, burn_amount: u128, asset: String, asset_amount: u128 },
    /// Hand `amount` of stablecoin to `new_owner_id` for collateral or native
    /// currency received.
    BuyAusd { new_owner_id: String, amount: u128 },
    /// Take `amount` of stablecoin from `seller_id` for collateral paid out.
    SellAusd { seller_id: String, amount: u128 },
}

/// A [`PeerCall`] with its account and asset names as character sequences.
pub enum PeerCallView {
    Mint { account_id: Seq<char>, amount: u128 },
    BurnToUnstake { account_id: Seq<char>, burn_amount: u128, unstake_amount: u128 },
    BurnToBuyAsset {
        account_id: Seq<char>,
        burn_amount: u128,
        asset: Seq<char>,
        asset_amount: u128,
    },
    BuyAusd { new_owner_id: Seq<char>, amount: u128 },
    SellAusd { seller_id: Seq<char>, amount: u128 },
}

impl View for PeerCall {
    type V = PeerCallView;

    open spec fn view(&self) -> PeerCallView {
        match *self {
            PeerCall::Mint { account_id, amount } => PeerCallView::Mint {
                account_id: account_id@,
                amount,
            },
            PeerCall::BurnToUnstake {
                account_id,
                burn_amount,
                unstake_amount,
            } => PeerCallView::BurnToUnstake { account_id: account_id@, burn_amount, unstake_amount },
            PeerCall::BurnToBuyAsset {
                account_id,
                burn_amount,
                asset,
                asset_amount,
            } => PeerCallView::BurnToBuyAsset {
                account_id: account_id@,
                burn_amount,
                asset: asset@,
                asset_amount,
            },
            PeerCall::BuyAusd { new_owner_id, amount } => PeerCallView::BuyAusd {
                new_owner_id: new_owner_id@,
                amount,
            },
            PeerCall::SellAusd { seller_id, amount } => PeerCallView::SellAusd {
                seller_id: seller_id@,
                amount,
            },
        }
    }
}

/// Name under which the oracle reports the price of the native currency.
pub open spec fn native_asset() -> Seq<char> {
    "aNEAR"@
}

/// The free and staked balance of an account, as summed over the ledger.
pub open spec fn total_of() -> spec_fn(AccountView) -> nat {
    |a: AccountView| a.total()
}

/// The staked balance of an account, as summed over the ledger.
pub open spec fn staked_of() -> spec_fn(AccountView) -> nat {
    |a: AccountView| a.staked_balance as nat
}

/// Reads an amount, or reports that the text is none.
pub open spec fn parsed(text: Seq<char>) -> Result<u128, LedgerError> {
    match parse_spec(text) {
        Some(v) => Ok(v),
        None => Err(LedgerError::ParseError),
    }
}

/// The whole state of the ledger, as plain mathematics. Every operation of
/// the ledger is a function from one such state to the next.
#[verifier::ext_equal]
pub struct LedgerView {
    /// Account identifier to what the account holds. An identifier without an
    /// entry stands for an account that holds nothing.
    pub accounts: Map<Seq<char>, AccountView>,
    /// All collateral tokens in existence, free and staked.
    pub total_supply: u128,
    /// Price of the collateral token, with eight implied decimals. Zero until
    /// the first submission.
    pub price: u128,
    /// The only account that may submit prices.
    pub owner: Seq<char>,
    /// The paired stablecoin ledger: the only caller of settlement callbacks.
    pub ausd_token: Seq<char>,
    /// Running total of staked collateral.
    pub total_staked: u128,
    /// Asset name to its price, with eight implied decimals.
    pub asset_prices: Map<Seq<char>, u128>,
    /// Account identifier to the time up to which its reward is paid.
    pub reward_paid_at: Map<Seq<char>, u64>,
    /// Checkpoint of every account that has none of its own.
    pub staking_reward_enabled_at: u64,
}

impl LedgerView {
    /// What `id` holds; nothing when it has no entry.
    pub open spec fn account(self, id: Seq<char>) -> AccountView {
        if self.accounts.contains_key(id) {
            self.accounts[id]
        } else {
            AccountView::empty()
        }
    }

    /// The price of asset `name`; zero when none was submitted.
    pub open spec fn asset_price(self, name: Seq<char>) -> u128 {
        if self.asset_prices.contains_key(name) {
            self.asset_prices[name]
        } else {
            0
        }
    }

    /// The time up to which the reward of `id` is paid.
    pub open spec fn checkpoint(self, id: Seq<char>) -> u64 {
        if self.reward_paid_at.contains_key(id) {
            self.reward_paid_at[id]
        } else {
            self.staking_reward_enabled_at
        }
    }

    /// Free and staked balances of all accounts together.
    pub open spec fn held(self) -> nat {
        map_sum(self.accounts, total_of())
    }

    /// Staked balances of all accounts together.
    pub open spec fn locked(self) -> nat {
        map_sum(self.accounts, staked_of())
    }

    /// The ledger's invariant: finitely many accounts, which together hold
    /// exactly the total supply, and whose stakes are covered by the running
    /// total of staked collateral.
    pub open spec fn wf(self) -> bool {
        &&& self.accounts.dom().finite()
        &&& self.held() == self.total_supply
        &&& self.locked() <= self.total_staked
    }

    /// This ledger with the entry of `id` set to `account`.
    pub open spec fn put(self, id: Seq<char>, account: AccountView) -> LedgerView {
        LedgerView { accounts: self.accounts.insert(id, account), ..self }
    }

    /// The ledger at deployment: the owner holds the whole supply, unstaked.
    pub open spec fn genesis(
        owner: Seq<char>,
        total_supply: u128,
        ausd_token: Seq<char>,
        now: u64,
    ) -> LedgerView {
        LedgerView {
            accounts: Map::empty().insert(owner, AccountView::empty().with_balance(total_supply)),
            total_supply,
            price: 0,
            owner,
            ausd_token,
            total_staked: 0,
            asset_prices: Map::empty(),
            reward_paid_at: Map::empty(),
            staking_reward_enabled_at: now,
        }
    }

    /// Deployment from a supply given as text.
    pub open spec fn create(
        owner: Seq<char>,
        total_supply: Seq<char>,
        ausd_token: Seq<char>,
        now: u64,
    ) -> Result<LedgerView, LedgerError> {
        match parsed(total_supply) {
            Err(e) => Err(e),
            Ok(supply) => Ok(Self::genesis(owner, supply, ausd_token, now)),
        }
    }

    /// The reward that is due to `id` at time `now`: `None` when nothing is
    /// staked or less than a day has passed since the checkpoint.
    pub open spec fn reward_due(self, id: Seq<char>, now: u64) -> Result<
        Option<Accrual>,
        LedgerError,
    > {
        let staked = self.account(id).staked_balance;
        let paid_at = self.checkpoint(id);
        if staked == 0 {
            Ok(None)
        } else if now < paid_at {
            Err(LedgerError::Underflow)
        } else {
            match accrue_spec(staked, (now - paid_at) as u64, paid_at) {
                Err(e) => Err(e),
                Ok(accrual) => if !accrual.applied {
                    Ok(None)
                } else if self.total_supply + (accrual.principal - staked) > u128::MAX
                    || self.total_staked + (accrual.principal - staked) > u128::MAX {
                    Err(LedgerError::Overflow)
                } else {
                    Ok(Some(accrual))
                },
            }
        }
    }

    /// This ledger with `accrual` paid to `id`: the reward is new supply.
    pub open spec fn pay_reward(self, id: Seq<char>, accrual: Accrual) -> LedgerView {
        let account = self.account(id);
        let reward = accrual.principal - account.staked_balance;
        LedgerView {
            accounts: self.accounts.insert(id, account.with_staked(accrual.principal)),
            total_supply: (self.total_supply + reward) as u128,
            total_staked: (self.total_staked + reward) as u128,
            reward_paid_at: self.reward_paid_at.insert(id, accrual.checkpoint),
            ..self
        }
    }

    /// Pays `id` the reward that is due, and tells whether one was.
    pub open spec fn refresh_reward(self, id: Seq<char>, now: u64) -> Result<
        (LedgerView, bool),
        LedgerError,
    > {
        match self.reward_due(id, now) {
            Err(e) => Err(e),
            Ok(None) => Ok((self, false)),
            Ok(Some(accrual)) => Ok((self.pay_reward(id, accrual), true)),
        }
    }

    /// The owner replaces the collateral price.
    pub open spec fn submit_price(self, caller: Seq<char>, price: Seq<char>) -> Result<
        LedgerView,
        LedgerError,
    > {
        if caller != self.owner {
            Err(LedgerError::Unauthorized)
        } else {
            match parsed(price) {
                Err(e) => Err(e),
                Ok(value) => Ok(LedgerView { price: value, ..self }),
            }
        }
    }

    /// The owner sets the price of one asset.
    pub open spec fn submit_asset_price(
        self,
        caller: Seq<char>,
        asset: Seq<char>,
        price: Seq<char>,
    ) -> Result<LedgerView, LedgerError> {
        if caller != self.owner {
            Err(LedgerError::Unauthorized)
        } else {
            match parsed(price) {
                Err(e) => Err(e),
                Ok(value) => Ok(
                    LedgerView { asset_prices: self.asset_prices.insert(asset, value), ..self },
                ),
            }
        }
    }

    /// `caller` lets `escrow` spend up to `allowance` of its free balance.
    pub open spec fn set_allowance(
        self,
        caller: Seq<char>,
        escrow: Seq<char>,
        allowance: Seq<char>,
    ) -> Result<LedgerView, LedgerError> {
        match parsed(allowance) {
            Err(e) => Err(e),
            Ok(value) => if escrow == caller {
                Err(LedgerError::SelfAllowance)
            } else {
                Ok(self.put(caller, self.account(caller).with_allowance(escrow, value)))
            },
        }
    }

    /// Moves `amount` of `id` from free to staked and restarts its reward
    /// clock at `now`.
    pub open spec fn lock(self, id: Seq<char>, amount: u128, now: u64) -> LedgerView {
        let account = self.account(id);
        LedgerView {
            accounts: self.accounts.insert(
                id,
                AccountView {
                    balance: (account.balance - amount) as u128,
                    staked_balance: (account.staked_balance + amount) as u128,
                    ..account
                },
            ),
            total_staked: (self.total_staked + amount) as u128,
            reward_paid_at: self.reward_paid_at.insert(id, now),
            ..self
        }
    }

    /// `caller` stakes `value` of its free balance. The reward that is due is
    /// paid first, so the new stake earns nothing for the time before `now`.
    pub open spec fn stake_value(self, caller: Seq<char>, now: u64, value: u128) -> Result<
        LedgerView,
        LedgerError,
    > {
        if value == 0 {
            Err(LedgerError::ZeroAmount)
        } else {
            match self.refresh_reward(caller, now) {
                Err(e) => Err(e),
                Ok((paid, _)) => if paid.account(caller).balance < value {
                    Err(LedgerError::InsufficientBalance)
                } else if paid.total_staked + value > u128::MAX {
                    Err(LedgerError::Overflow)
                } else {
                    Ok(paid.lock(caller, value, now))
                },
            }
        }
    }

    /// `caller` stakes the amount that `amount` writes; the result carries
    /// the amount staked.
    pub open spec fn stake(self, caller: Seq<char>, now: u64, amount: Seq<char>) -> Result<
        (LedgerView, u128),
        LedgerError,
    > {
        match parsed(amount) {
            Err(e) => Err(e),
            Ok(value) => match self.stake_value(caller, now, value) {
                Err(e) => Err(e),
                Ok(staked) => Ok((staked, value)),
            },
        }
    }

    /// `caller` stakes and asks for the stablecoin that the stake backs.
    pub open spec fn stake_and_mint(self, caller: Seq<char>, now: u64, amount: Seq<char>) -> Result<
        (LedgerView, PeerCallView),
        LedgerError,
    > {
        if self.price == 0 {
            Err(LedgerError::OraclePriceMissing)
        } else {
            match self.stake(caller, now, amount) {
                Err(e) => Err(e),
                Ok((staked, value)) => match stable_for_stake(value, self.price) {
                    None => Err(LedgerError::Overflow),
                    Some(minted) => Ok(
                        (staked, PeerCallView::Mint { account_id: caller, amount: minted }),
                    ),
                },
            }
        }
    }

    /// `caller` asks to burn the stablecoin that backs `amount` of stake. The
    /// ledger does not change until the paired ledger calls back.
    pub open spec fn burn_to_unstake(self, caller: Seq<char>, amount: Seq<char>) -> Result<
        PeerCallView,
        LedgerError,
    > {
        if self.price == 0 {
            Err(LedgerError::OraclePriceMissing)
        } else {
            match parsed(amount) {
                Err(e) => Err(e),
                Ok(value) => match stable_for_stake(value, self.price) {
                    None => Err(LedgerError::Overflow),
                    Some(burned) => Ok(
                        PeerCallView::BurnToUnstake {
                            account_id: caller,
                            burn_amount: burned,
                            unstake_amount: value,
                        },
                    ),
                },
            }
        }
    }

    /// Moves `amount` of `id` from staked back to free.
    pub open spec fn unlock(self, id: Seq<char>, amount: u128) -> LedgerView {
        let account = self.account(id);
        LedgerView {
            accounts: self.accounts.insert(
                id,
                AccountView {
                    balance: (account.balance + amount) as u128,
                    staked_balance: (account.staked_balance - amount) as u128,
                    ..account
                },
            ),
            total_staked: (self.total_staked - amount) as u128,
            ..self
        }
    }

    /// The paired ledger, having burned the stablecoin, unlocks `amount` of
    /// the stake of `id`. The reward due to the caller itself is paid first.
    pub open spec fn unstake(self, caller: Seq<char>, now: u64, id: Seq<char>, amount: u128) -> Result<
        LedgerView,
        LedgerError,
    > {
        if caller != self.ausd_token {
            Err(LedgerError::Unauthorized)
        } else if amount == 0 {
            Err(LedgerError::ZeroAmount)
        } else {
            match self.refresh_reward(caller, now) {
                Err(e) => Err(e),
                Ok((paid, _)) => if paid.account(id).staked_balance < amount {
                    Err(LedgerError::InsufficientBalance)
                } else {
                    Ok(paid.unlock(id, amount))
                },
            }
        }
    }

    /// This ledger with `amount` taken from the free balance of `from`, and
    /// from the allowance of `spender` where the two differ.
    pub open spec fn debit(self, spender: Seq<char>, from: Seq<char>, amount: u128) -> LedgerView {
        let account = self.account(from);
        let debited = account.with_balance((account.balance - amount) as u128);
        self.put(
            from,
            if spender != from {
                debited.with_allowance(spender, (account.allowance(spender) - amount) as u128)
            } else {
                debited
            },
        )
    }

    /// This ledger with `amount` added to the free balance of `to`.
    pub open spec fn credit(self, to: Seq<char>, amount: u128) -> LedgerView {
        let account = self.account(to);
        self.put(to, account.with_balance((account.balance + amount) as u128))
    }

    /// `caller` moves `amount` from the free balance of `owner` to that of
    /// `new_owner`, spending its allowance unless it is the owner itself.
    pub open spec fn transfer_from(
        self,
        caller: Seq<char>,
        owner: Seq<char>,
        new_owner: Seq<char>,
        amount: Seq<char>,
    ) -> Result<LedgerView, LedgerError> {
        match parsed(amount) {
            Err(e) => Err(e),
            Ok(value) => if value == 0 {
                Err(LedgerError::ZeroAmount)
            } else if self.account(owner).balance < value {
                Err(LedgerError::InsufficientBalance)
            } else if caller != owner && self.account(owner).allowance(caller) < value {
                Err(LedgerError::InsufficientAllowance)
            } else {
                Ok(self.debit(caller, owner, value).credit(new_owner, value))
            },
        }
    }

    /// `caller` moves `amount` of its own free balance to `new_owner`.
    pub open spec fn transfer(self, caller: Seq<char>, new_owner: Seq<char>, amount: Seq<char>) -> Result<
        LedgerView,
        LedgerError,
    > {
        self.transfer_from(caller, caller, new_owner, amount)
    }

    /// `caller` buys collateral from the owner's free balance with `deposit`
    /// of the native currency.
    pub open spec fn buy_art_with_near(self, caller: Seq<char>, deposit: u128) -> Result<
        LedgerView,
        LedgerError,
    > {
        if deposit == 0 {
            Err(LedgerError::ZeroAmount)
        } else if self.asset_price(native_asset()) == 0 || self.price == 0 {
            Err(LedgerError::OraclePriceMissing)
        } else {
            match collateral_for_native(self.asset_price(native_asset()), self.price, deposit) {
                None => Err(LedgerError::Overflow),
                Some(bought) => if self.account(caller).balance + bought > u128::MAX {
                    Err(LedgerError::Overflow)
                } else if self.account(self.owner).balance < bought {
                    Err(LedgerError::Underflow)
                } else {
                    Ok(self.debit(self.owner, self.owner, bought).credit(caller, bought))
                },
            }
        }
    }

    /// `caller` asks for the stablecoin that `deposit` of the native currency
    /// buys. The ledger does not change.
    pub open spec fn buy_ausd_with_near(self, caller: Seq<char>, deposit: u128) -> Result<
        PeerCallView,
        LedgerError,
    > {
        if deposit == 0 {
            Err(LedgerError::ZeroAmount)
        } else if self.asset_price(native_asset()) == 0 || self.price == 0 {
            Err(LedgerError::OraclePriceMissing)
        } else {
            match value_at(self.asset_price(native_asset()), deposit) {
                None => Err(LedgerError::Overflow),
                Some(bought) => Ok(PeerCallView::BuyAusd { new_owner_id: caller, amount: bought }),
            }
        }
    }

    /// `caller` sells `amount` of collateral to the owner for stablecoin.
    pub open spec fn exchange_art_to_ausd(self, caller: Seq<char>, amount: Seq<char>) -> Result<
        (LedgerView, PeerCallView),
        LedgerError,
    > {
        if self.price == 0 {
            Err(LedgerError::OraclePriceMissing)
        } else {
            match parsed(amount) {
                Err(e) => Err(e),
                Ok(value) => match stable_for_collateral(self.price, value) {
                    None => Err(LedgerError::Overflow),
                    Some(paid) => if self.account(caller).balance < value {
                        Err(LedgerError::Underflow)
                    } else if self.account(self.owner).balance + value > u128::MAX {
                        Err(LedgerError::Overflow)
                    } else {
                        Ok(
                            (
                                self.debit(caller, caller, value).credit(self.owner, value),
                                PeerCallView::BuyAusd { new_owner_id: caller, amount: paid },
                            ),
                        )
                    },
                },
            }
        }
    }

    /// `caller` buys collateral from the owner for `amount` of stablecoin.
    pub open spec fn exchange_ausd_to_art(self, caller: Seq<char>, amount: Seq<char>) -> Result<
        (LedgerView, PeerCallView),
        LedgerError,
    > {
        if self.price == 0 {
            Err(LedgerError::OraclePriceMissing)
        } else {
            match parsed(amount) {
                Err(e) => Err(e),
                Ok(value) => match collateral_for_stable(self.price, value) {
                    None => Err(LedgerError::Overflow),
                    Some(bought) => if self.account(caller).balance + bought > u128::MAX {
                        Err(LedgerError::Overflow)
                    } else if self.account(self.owner).balance < bought {
                        Err(LedgerError::Underflow)
                    } else {
                        Ok(
                            (
                                self.debit(self.owner, self.owner, bought).credit(caller, bought),
                                PeerCallView::SellAusd { seller_id: caller, amount: value },
                            ),
                        )
                    },
                },
            }
        }
    }

    /// `caller` gives up `amount` of `asset` and asks for the stablecoin it is
    /// worth.
    pub open spec fn sell_asset_to_ausd(
        self,
        caller: Seq<char>,
        asset: Seq<char>,
        amount: Seq<char>,
    ) -> Result<(LedgerView, PeerCallView), LedgerError> {
        if self.asset_price(asset) == 0 {
            Err(LedgerError::OraclePriceMissing)
        } else {
            match parsed(amount) {
                Err(e) => Err(e),
                Ok(value) => if self.account(caller).asset(asset) < value {
                    Err(LedgerError::Underflow)
                } else {
                    match value_at(self.asset_price(asset), value) {
                        None => Err(LedgerError::Overflow),
                        Some(minted) => Ok(
                            (
                                self.put(
                                    caller,
                                    self.account(caller).with_asset(
                                        asset,
                                        (self.account(caller).asset(asset) - value) as u128,
                                    ),
                                ),
                                PeerCallView::Mint { account_id: caller, amount: minted },
                            ),
                        ),
                    }
                },
            }
        }
    }

    /// `caller` asks to burn the stablecoin that `amount` of `asset` costs.
    /// The ledger does not change until the paired ledger calls back.
    pub open spec fn buy_asset_with_ausd(
        self,
        caller: Seq<char>,
        asset: Seq<char>,
        amount: Seq<char>,
    ) -> Result<PeerCallView, LedgerError> {
        if self.asset_price(asset) == 0 {
            Err(LedgerError::OraclePriceMissing)
        } else {
            match parsed(amount) {
                Err(e) => Err(e),
                Ok(value) => match value_at(self.asset_price(asset), value) {
                    None => Err(LedgerError::Overflow),
                    Some(burned) => Ok(
                        PeerCallView::BurnToBuyAsset {
                            account_id: caller,
                            burn_amount: burned,
                            asset,
                            asset_amount: value,
                        },
                    ),
                },
            }
        }
    }

    /// The paired ledger, having burned the stablecoin, credits `amount` of
    /// `asset` to `id`.
    pub open spec fn buy_asset_callback(
        self,
        caller: Seq<char>,
        id: Seq<char>,
        asset: Seq<char>,
        amount: u128,
    ) -> Result<LedgerView, LedgerError> {
        if caller != self.ausd_token {
            Err(LedgerError::Unauthorized)
        } else if self.account(id).asset(asset) + amount > u128::MAX {
            Err(LedgerError::Overflow)
        } else {
            Ok(
                self.put(
                    id,
                    self.account(id).with_asset(
                        asset,
                        (self.account(id).asset(asset) + amount) as u128,
                    ),
                ),
            )
        }
    }

    /// Gives `id` an entry that holds nothing.
    pub open spec fn register(self, id: Seq<char>) -> Result<LedgerView, LedgerError> {
        if self.accounts.contains_key(id) {
            Err(LedgerError::AccountAlreadyRegistered)
        } else {
            Ok(self.put(id, AccountView::empty()))
        }
    }

    /// The free balance of a registered account.
    pub open spec fn registered_balance(self, id: Seq<char>) -> Result<u128, LedgerError> {
        if self.accounts.contains_key(id) {
            Ok(self.accounts[id].balance)
        } else {
            Err(LedgerError::AccountNotRegistered)
        }
    }

    /// Creates `amount` of new supply in the free balance of a registered
    /// account. No balance exceeds the supply, so the supply alone decides
    /// whether the amount fits.
    pub open spec fn deposit(self, id: Seq<char>, amount: u128) -> Result<LedgerView, LedgerError> {
        if !self.accounts.contains_key(id) {
            Err(LedgerError::AccountNotRegistered)
        } else if self.total_supply + amount > u128::MAX {
            Err(LedgerError::Overflow)
        } else {
            Ok(
                LedgerView {
                    total_supply: (self.total_supply + amount) as u128,
                    ..self.credit(id, amount)
                },
            )
        }
    }

    /// Destroys `amount` of supply from the free balance of a registered
    /// account.
    pub open spec fn withdraw(self, id: Seq<char>, amount: u128) -> Result<LedgerView, LedgerError> {
        if !self.accounts.contains_key(id) {
            Err(LedgerError::AccountNotRegistered)
        } else if self.accounts[id].balance < amount {
            Err(LedgerError::InsufficientBalance)
        } else {
            Ok(
                LedgerView {
                    total_supply: (self.total_supply - amount) as u128,
                    ..self.debit(id, id, amount)
                },
            )
        }
    }

    /// Moves `amount` between the free balances of two registered accounts.
    pub open spec fn transfer_registered(
        self,
        sender: Seq<char>,
        receiver: Seq<char>,
        amount: u128,
    ) -> Result<LedgerView, LedgerError> {
        if sender == receiver {
            Err(LedgerError::SelfTransfer)
        } else if amount == 0 {
            Err(LedgerError::ZeroAmount)
        } else {
            match self.withdraw(sender, amount) {
                Err(e) => Err(e),
                Ok(withdrawn) => withdrawn.deposit(receiver, amount),
            }
        }
    }

    /// Removes the entry of `id` and takes what it held out of the supply.
    /// An account that still holds tokens is removed only by force. Returns
    /// what the account held, or `None` when it had no entry.
    pub open spec fn unregister(self, id: Seq<char>, force: bool) -> Result<
        (LedgerView, Option<u128>),
        LedgerError,
    > {
        if !self.accounts.contains_key(id) {
            Ok((self, None))
        } else if self.accounts[id].total() != 0 && !force {
            Err(LedgerError::PositiveBalance)
        } else {
            Ok(
                (
                    LedgerView {
                        accounts: self.accounts.remove(id),
                        total_supply: (self.total_supply - self.accounts[id].total()) as u128,
                        ..self
                    },
                    Some(self.accounts[id].total() as u128),
                ),
            )
        }
    }
}

} // verus!
