use vstd::prelude::*;

verus! {

/// Why a record was not applied. A record that fails leaves the ledger as it was.
#[derive(Clone, Copy, Debug, PartialEq, Eq, Structural)]
pub enum BankingError {
    /// A deposit or withdrawal without an amount, or with an amount that is not above zero;
    /// or a dispute, resolve or chargeback that refers to a transaction other than a deposit.
    InvalidTransaction,
    /// Anything but a deposit on a client that has no account yet.
    NoSuchAccount,
    /// A dispute, resolve or chargeback that refers to a transaction that was never stored.
    NoSuchTransaction,
    /// A withdrawal of more than is available.
    InsufficientFunds,
    /// A dispute, resolve or chargeback whose client differs from that of the referenced
    /// transaction.
    ClientMismatch,
    /// A resolve or chargeback of a transaction that is not under dispute.
    UndisputedTransaction,
    /// A deposit or withdrawal whose transaction id was already stored.
    DuplicateTransactionId,
    /// A dispute of a transaction that is already under dispute.
    DuplicateDisputeRequest,
    /// Any change to an account that a chargeback has locked.
    AccountLocked,
}

} // verus!
