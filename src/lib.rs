//! A single-pass ledger: deposits, withdrawals and the dispute lifecycle of
//! stored transactions, applied in order to per-client accounts.
pub mod account;
pub mod amount;
pub mod bank;
pub mod errors;
pub mod laws;
pub mod transaction;

pub use account::Account;
pub use amount::Amount;
pub use bank::Bank;
pub use errors::BankingError;
pub use transaction::{Transaction, TransactionType};
