//! The reasons for which the ledger rejects an operation.

use vstd::prelude::*;

verus! {

/// Why an operation on the ledger was rejected. A rejected operation leaves
/// the ledger unchanged.
#[derive(Debug, Clone, Copy, PartialEq, Eq, Structural)]
pub enum LedgerError {
    /// The caller is neither the owner (for price submissions) nor the paired
    /// stablecoin ledger (for settlement callbacks).
    Unauthorized,
    /// The price the operation depends on was never submitted.
    OraclePriceMissing,
    /// The free, staked or asset balance is smaller than the amount.
    InsufficientBalance,
    /// The escrow's allowance is smaller than the amount.
    InsufficientAllowance,
    /// The amount is zero.
    ZeroAmount,
    /// The text is not a decimal number that fits 128 bits.
    ParseError,
    /// A balance, a supply or a converted amount would exceed 128 bits.
    Overflow,
    /// A subtraction would go below zero: the clock reads earlier than a
    /// reward checkpoint, or an exchange takes more than a balance holds.
    Underflow,
    /// An account tried to grant itself an allowance.
    SelfAllowance,
    /// Sender and receiver of a transfer between registered accounts are the
    /// same account.
    SelfTransfer,
    /// The account has no entry in the ledger.
    AccountNotRegistered,
    /// The account already has an entry in the ledger.
    AccountAlreadyRegistered,
    /// The account still holds tokens and removal was not forced.
    PositiveBalance,
    /// The elapsed time falls outside the compounding tables.
    RewardPeriodUnsupported,
    /// The deposit does not cover the storage of one account.
    DepositTooSmall,
    /// More storage balance was asked back than is available.
    StorageUnavailable,
}

impl LedgerError {
    /// A short description of the error.
    pub fn message(&self) -> (text: &'static str)
        ensures
            text@ == Self::message_of(*self),
    {
        match self {
            LedgerError::Unauthorized => "caller is not authorized",
            LedgerError::OraclePriceMissing => "no price data from oracle",
            LedgerError::InsufficientBalance => "not enough balance",
            LedgerError::InsufficientAllowance => "not enough allowance",
            LedgerError::ZeroAmount => "amount is zero",
            LedgerError::ParseError => "failed to parse amount",
            LedgerError::Overflow => "arithmetic overflow",
            LedgerError::Underflow => "arithmetic underflow",
            LedgerError::SelfAllowance => "can't set allowance for yourself",
            LedgerError::SelfTransfer => "sender and receiver should be different",
            LedgerError::AccountNotRegistered => "the account is not registered",
            LedgerError::AccountAlreadyRegistered => "the account is already registered",
            LedgerError::PositiveBalance => "can't unregister an account with a positive balance without force",
            LedgerError::RewardPeriodUnsupported => "elapsed time is outside the reward tables",
            LedgerError::DepositTooSmall => "the attached deposit is less than the minimum storage balance",
            LedgerError::StorageUnavailable => "the amount is greater than the available storage balance",
        }
    }

    /// The text that [`LedgerError::message`] returns.
    pub open spec fn message_of(e: LedgerError) -> Seq<char> {
        match e {
            LedgerError::Unauthorized => "caller is not authorized"@,
            LedgerError::OraclePriceMissing => "no price data from oracle"@,
            LedgerError::InsufficientBalance => "not enough balance"@,
            LedgerError::InsufficientAllowance => "not enough allowance"@,
            LedgerError::ZeroAmount => "amount is zero"@,
            LedgerError::ParseError => "failed to parse amount"@,
            LedgerError::Overflow => "arithmetic overflow"@,
            LedgerError::Underflow => "arithmetic underflow"@,
            LedgerError::SelfAllowance => "can't set allowance for yourself"@,
            LedgerError::SelfTransfer => "sender and receiver should be different"@,
            LedgerError::AccountNotRegistered => "the account is not registered"@,
            LedgerError::AccountAlreadyRegistered => "the account is already registered"@,
            LedgerError::PositiveBalance => "can't unregister an account with a positive balance without force"@,
            LedgerError::RewardPeriodUnsupported => "elapsed time is outside the reward tables"@,
            LedgerError::DepositTooSmall => "the attached deposit is less than the minimum storage balance"@,
            LedgerError::StorageUnavailable => "the amount is greater than the available storage balance"@,
        }
    }
}

} // verus!
