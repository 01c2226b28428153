//! A ledger replayer: applies deposits, withdrawals and their corrections
//! (dispute, resolve, chargeback) to per-client accounts.

pub mod account;
pub mod amount;
pub mod laws;
pub mod output;
pub mod payments;
pub mod transaction;

pub use account::Account;
pub use amount::Amount;
pub use output::OutputRow;
pub use payments::Payments;
pub use transaction::{
    Action, ActionKind, ActionStatus, ParseError, Transaction, TransactionKind,
};
