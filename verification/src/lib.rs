//! A collateral-token ledger for a stablecoin protocol.
//!
//! The ledger keeps free and staked balances per account, an owner-fed price
//! oracle, escrow allowances and secondary asset balances. Staking collateral
//! yields a request to mint stablecoin on the paired ledger; unstaking is
//! finalised only when the paired ledger calls back after burning. Every
//! operation is a verified transition on an explicit state: it either returns
//! an error and leaves the state as it was, or applies exactly the change its
//! contract describes.
//!
//! The ledger reads neither a clock nor the identity of its caller: both are
//! arguments. Calls to the paired ledger are returned as [`PeerCall`] values
//! for the driver to send.

pub mod account;
pub mod art;
pub mod audit;
pub mod decimal;
pub mod error;
pub mod exchange;
pub mod laws;
pub mod model;
pub mod pricing;
pub mod ratio;
pub mod registry;
pub mod reward;
pub mod staking;
pub mod storage;
pub mod str_map;
pub mod sums;
pub mod transfer;

pub use account::{Account, AccountView};
pub use art::Art;
pub use error::LedgerError;
pub use model::{LedgerView, PeerCall, PeerCallView};
pub use ratio::Fraction;
pub use reward::{accrue, Accrual, DAY_INTEREST, MONTH_INTEREST, NANOS_PER_DAY, YEAR_INTEREST};
pub use storage::{StorageBalance, StorageBalanceBounds, StorageDeposit};
pub use str_map::StrMap;
