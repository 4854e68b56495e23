use crate::amount::{Amount, DECIMAL_PLACES};
use crate::errors::BankingError;
use vstd::prelude::*;

verus! {

/// The kinds of record the ledger accepts.
#[derive(Clone, Copy, Debug, PartialEq, Eq, Structural)]
pub enum TransactionType {
    /// Credits the client's account, creating it if needed.
    Deposit,
    /// Debits the client's account, where enough is available.
    Withdrawal,
    /// A claim that a deposit was erroneous: its amount is held but not yet reversed.
    Dispute,
    /// Ends a dispute in the client's favour, releasing the held amount.
    Resolve,
    /// Ends a dispute by reversing the deposit; the account is locked.
    Chargeback,
}

/// One record of the stream. Deposits and withdrawals carry an amount and are stored under
/// their `tx`; disputes, resolves and chargebacks refer to a stored transaction by its `tx`.
#[derive(Clone, Copy, Debug, PartialEq, Eq, Structural)]
pub struct Transaction {
    pub kind: TransactionType,
    pub client: u16,
    pub tx: u32,
    pub amount: Option<Amount>,
    pub under_dispute: bool,
}

impl Transaction {
    /// Deposits and withdrawals: the kinds that carry an amount and are stored.
    pub open spec fn moves_funds(self) -> bool {
        self.kind is Deposit || self.kind is Withdrawal
    }

    pub open spec fn has_positive_amount(self) -> bool {
        self.amount matches Some(a) && a@.mantissa > 0
    }

    /// The record with its amount, if any, rounded to `dp` fractional digits.
    pub open spec fn rounded_to(self, dp: nat) -> Transaction {
        Transaction {
            amount: match self.amount {
                Some(a) => Some(a.rounded(dp)),
                None => None,
            },
            ..self
        }
    }

    /// Shape check: a deposit or withdrawal needs an amount above zero.
    pub open spec fn shape_check(self) -> Result<(), BankingError> {
        if self.moves_funds() && !self.has_positive_amount() {
            Err(BankingError::InvalidTransaction)
        } else {
            Ok(())
        }
    }

    /// Check of a dispute, resolve or chargeback against the transaction it refers to:
    /// only deposits of the same client can be disputed, a dispute needs a transaction
    /// not under dispute, a resolve or chargeback one under dispute.
    pub open spec fn check_against(self, stored: Transaction) -> Result<(), BankingError> {
        match self.kind {
            TransactionType::Dispute => {
                if !(stored.kind is Deposit) {
                    Err(BankingError::InvalidTransaction)
                } else if self.client != stored.client {
                    Err(BankingError::ClientMismatch)
                } else if stored.under_dispute {
                    Err(BankingError::DuplicateDisputeRequest)
                } else {
                    Ok(())
                }
            },
            TransactionType::Resolve | TransactionType::Chargeback => {
                if !(stored.kind is Deposit) {
                    Err(BankingError::InvalidTransaction)
                } else if self.client != stored.client {
                    Err(BankingError::ClientMismatch)
                } else if !stored.under_dispute {
                    Err(BankingError::UndisputedTransaction)
                } else {
                    Ok(())
                }
            },
            _ => Ok(()),
        }
    }

    /// Rounds the amount, if any, to `decimal_places` fractional digits.
    pub fn round_to(&mut self, decimal_places: u32)
        ensures
            *final(self) == old(self).rounded_to(decimal_places as nat),
            final(self).amount matches Some(a) ==> a@.scale <= decimal_places
                && Amount::representable(a@),
    {
        if let Some(amount) = self.amount {
            self.amount = Some(amount.round_dp(decimal_places));
        }
    }

    /// Checks the record's shape and, where it passes, rounds its amount to four
    /// fractional digits. A failed record is left as it was.
    pub fn validate(&mut self) -> (r: Result<(), BankingError>)
        ensures
            r == old(self).shape_check(),
            r is Ok ==> *final(self) == old(self).rounded_to(DECIMAL_PLACES as nat),
            r is Ok ==> (final(self).amount matches Some(a) ==> a@.scale <= DECIMAL_PLACES
                && Amount::representable(a@)),
            r is Err ==> *final(self) == *old(self),
    {
        match self.kind {
            TransactionType::Deposit | TransactionType::Withdrawal => {
                match self.amount {
                    Some(amount) => {
                        if !amount.is_positive() {
                            return Err(BankingError::InvalidTransaction);
                        }
                    },
                    None => {
                        return Err(BankingError::InvalidTransaction);
                    },
                }
            },
            _ => {},
        }
        self.round_to(DECIMAL_PLACES);
        Ok(())
    }

    /// Checks a dispute, resolve or chargeback against the stored transaction it refers
    /// to; any other kind passes. Neither record is changed.
    pub fn validate_against_stored(&mut self, stored_transaction: &mut Transaction) -> (r: Result<
        (),
        BankingError,
    >)
        ensures
            r == old(self).check_against(*old(stored_transaction)),
            *final(self) == *old(self),
            *final(stored_transaction) == *old(stored_transaction),
    {
        match self.kind {
            TransactionType::Dispute => {
                if stored_transaction.kind != TransactionType::Deposit {
                    return Err(BankingError::InvalidTransaction);
                }
                if self.client != stored_transaction.client {
                    return Err(BankingError::ClientMismatch);
                }
                if stored_transaction.under_dispute {
                    return Err(BankingError::DuplicateDisputeRequest);
                }
            },
            TransactionType::Resolve | TransactionType::Chargeback => {
                if stored_transaction.kind != TransactionType::Deposit {
                    return Err(BankingError::InvalidTransaction);
                }
                if self.client != stored_transaction.client {
                    return Err(BankingError::ClientMismatch);
                }
                if !stored_transaction.under_dispute {
                    return Err(BankingError::UndisputedTransaction);
                }
            },
            _ => {},
        }
        Ok(())
    }
}

} // verus!
