//! Properties of the ledger that hold across records, stated over the model of one step.
use crate::account::Account;
use crate::amount::{lemma_units_bound, Amount, DECIMAL_PLACES};
use crate::bank::{amount_units, BankModel};
use crate::errors::BankingError;
use crate::transaction::{Transaction, TransactionType};
use vstd::prelude::*;

verus! {

/// The amount of a record, if any, is one that a decimal can hold.
pub open spec fn amount_representable(t: Transaction) -> bool {
    t.amount matches Some(a) ==> Amount::representable(a@)
}

/// A deposit or withdrawal record as it arrives: not under dispute.
pub open spec fn record(
    kind: TransactionType,
    client: u16,
    tx: u32,
    amount: Option<Amount>,
) -> Transaction {
    Transaction { kind, client, tx, amount, under_dispute: false }
}

/// The amount of a record, once rounded, lies within `MAX_UNITS` ledger units.
proof fn lemma_rounded_units_bound(t: Transaction)
    requires
        amount_representable(t),
    ensures
        t.rounded_to(DECIMAL_PLACES as nat).amount matches Some(a) ==> a@.scale <= DECIMAL_PLACES
            && Amount::representable(a@),
        -crate::amount::MAX_UNITS <= amount_units(t.rounded_to(DECIMAL_PLACES as nat))
            <= crate::amount::MAX_UNITS,
{
    if let Some(a) = t.amount {
        a.lemma_rounded(DECIMAL_PLACES as nat);
        lemma_units_bound(a.rounded(DECIMAL_PLACES as nat)@);
    }
}

/// Every record keeps the ledger well formed: in particular each account's total stays
/// equal to its available plus its held balance, after any record and whatever its
/// outcome, disputes included.
pub proof fn lemma_step_keeps_wf(s: BankModel, t: Transaction)
    requires
        s.wf(),
        s.has_room(t.client),
        amount_representable(t),
    ensures
        s.step(t).0.wf(),
        forall|c: u16| #[trigger]
            s.step(t).0.accounts.contains_key(c) ==> s.step(t).0.accounts[c].total == s.step(
                t,
            ).0.accounts[c].available + s.step(t).0.accounts[c].held,
{
    lemma_rounded_units_bound(t);
    if s.transactions.contains_key(t.tx) {
        let stored = s.transactions[t.tx];
        lemma_units_bound(stored.amount->Some_0@);
    }
}

/// Deposits and withdrawals keep an account's total equal to its available plus its held
/// balance, and leave its held balance alone; so does every other ledger operation for
/// the identity.
pub proof fn lemma_operations_keep_balance_identity(a: Account, amount: int)
    requires
        a.total == a.available + a.held,
        a.has_room_for(amount),
    ensures
        a.deposited(amount).total == a.deposited(amount).available + a.deposited(amount).held,
        a.deposited(amount).held == a.held,
        a.withdrawn(amount).total == a.withdrawn(amount).available + a.withdrawn(amount).held,
        a.withdrawn(amount).held == a.held,
        a.disputed(amount).total == a.disputed(amount).available + a.disputed(amount).held,
        a.resolved(amount).total == a.resolved(amount).available + a.resolved(amount).held,
        a.charged_back(amount).total == a.charged_back(amount).available + a.charged_back(
            amount,
        ).held,
{
}

/// Depositing an amount and then withdrawing it gives the account back as it was; a new
/// account ends with every balance at zero.
pub proof fn lemma_account_deposit_then_withdraw(a: Account, amount: int)
    requires
        a.has_room_for(amount),
    ensures
        a.deposited(amount).withdrawn(amount) == a,
        Account::empty(a.client).has_room_for(amount) ==> Account::empty(a.client).deposited(
            amount,
        ).withdrawn(amount) == Account::empty(a.client),
{
}

/// A deposit of an amount followed by a withdrawal of the same amount, under two new
/// transaction ids, on an unlocked account whose available balance is not below zero:
/// both succeed and leave the account's balances as they were; an account that the
/// deposit created ends with available and total at zero.
pub proof fn lemma_deposit_then_withdraw(
    s: BankModel,
    client: u16,
    tx1: u32,
    tx2: u32,
    amount: Amount,
)
    requires
        s.wf(),
        s.has_room(client),
        Amount::representable(amount@),
        amount@.mantissa > 0,
        tx1 != tx2,
        !s.transactions.contains_key(tx1),
        !s.transactions.contains_key(tx2),
        !s.account_or_empty(client).locked,
        s.account_or_empty(client).available >= 0,
    ensures
        ({
            let first = s.step(record(TransactionType::Deposit, client, tx1, Some(amount)));
            let second = first.0.step(
                record(TransactionType::Withdrawal, client, tx2, Some(amount)),
            );
            let before = s.account_or_empty(client);
            let after = second.0.accounts[client];
            &&& first.1 is Ok
            &&& second.1 is Ok
            &&& second.0.accounts.contains_key(client)
            &&& after.available == before.available
            &&& after.total == before.total
            &&& after.held == before.held
            &&& !s.accounts.contains_key(client) ==> after.available == 0 && after.total == 0
        }),
{
    let d = record(TransactionType::Deposit, client, tx1, Some(amount));
    let w = record(TransactionType::Withdrawal, client, tx2, Some(amount));
    lemma_rounded_units_bound(d);
    amount.lemma_rounded(DECIMAL_PLACES as nat);
    let units = amount_units(d.rounded_to(DECIMAL_PLACES as nat));
    assert(amount_units(w.rounded_to(DECIMAL_PLACES as nat)) == units);
    let mid = s.step(d).0;
    assert(mid.accounts[client] == s.account_or_empty(client).deposited(units));
    assert(!mid.transactions.contains_key(tx2));
}

/// A withdrawal of more than the account has available fails with `InsufficientFunds`
/// and changes nothing.
pub proof fn lemma_overdraw_rejected(s: BankModel, t: Transaction)
    requires
        t.kind is Withdrawal,
        t.has_positive_amount(),
        !s.transactions.contains_key(t.tx),
        s.accounts.contains_key(t.client),
        !s.accounts[t.client].locked,
        s.accounts[t.client].available < amount_units(t.rounded_to(DECIMAL_PLACES as nat)),
    ensures
        s.step(t) == (s, Err::<(), BankingError>(BankingError::InsufficientFunds)),
{
}

/// Once a deposit or withdrawal has been stored, a later deposit or withdrawal with the
/// same transaction id and a valid amount fails with `DuplicateTransactionId` and changes
/// nothing.
pub proof fn lemma_duplicate_id_rejected(s: BankModel, first: Transaction, second: Transaction)
    requires
        first.moves_funds(),
        s.step(first).1 is Ok,
        second.moves_funds(),
        second.has_positive_amount(),
        second.tx == first.tx,
    ensures
        s.step(first).0.step(second) == (
            s.step(first).0,
            Err::<(), BankingError>(BankingError::DuplicateTransactionId),
        ),
{
}

/// A deposit or withdrawal that succeeds is stored not under dispute, whatever flag it
/// arrived with; a resolve or chargeback of the same client right after it fails with
/// `UndisputedTransaction` when it is a deposit.
pub proof fn lemma_new_transaction_stored_undisputed(s: BankModel, t: Transaction, u: Transaction)
    requires
        t.moves_funds(),
        s.step(t).1 is Ok,
        u.kind is Resolve || u.kind is Chargeback,
        u.tx == t.tx,
        u.client == t.client,
    ensures
        s.step(t).0.transactions.contains_key(t.tx),
        !s.step(t).0.transactions[t.tx].under_dispute,
        t.kind is Deposit ==> s.step(t).0.step(u) == (
            s.step(t).0,
            Err::<(), BankingError>(BankingError::UndisputedTransaction),
        ),
{
}

/// A dispute of a transaction that was never stored fails with `NoSuchTransaction` and
/// changes nothing.
pub proof fn lemma_dispute_unknown_rejected(s: BankModel, t: Transaction)
    requires
        t.kind is Dispute,
        !s.transactions.contains_key(t.tx),
    ensures
        s.step(t) == (s, Err::<(), BankingError>(BankingError::NoSuchTransaction)),
{
}

/// A dispute repeated after it succeeded fails with `DuplicateDisputeRequest` and changes
/// neither the account nor the transaction.
pub proof fn lemma_dispute_twice_rejected(s: BankModel, t: Transaction)
    requires
        t.kind is Dispute,
        s.step(t).1 is Ok,
    ensures
        s.step(t).0.step(t) == (
            s.step(t).0,
            Err::<(), BankingError>(BankingError::DuplicateDisputeRequest),
        ),
{
}

/// A resolve or chargeback of a stored deposit of the same client that is not under
/// dispute fails with `UndisputedTransaction` and changes nothing.
pub proof fn lemma_settle_undisputed_rejected(s: BankModel, t: Transaction)
    requires
        t.kind is Resolve || t.kind is Chargeback,
        s.transactions.contains_key(t.tx),
        s.transactions[t.tx].kind is Deposit,
        s.transactions[t.tx].client == t.client,
        !s.transactions[t.tx].under_dispute,
    ensures
        s.step(t) == (s, Err::<(), BankingError>(BankingError::UndisputedTransaction)),
{
}

/// A dispute of a stored withdrawal fails with `InvalidTransaction` and changes nothing.
pub proof fn lemma_dispute_withdrawal_rejected(s: BankModel, t: Transaction)
    requires
        t.kind is Dispute,
        s.transactions.contains_key(t.tx),
        s.transactions[t.tx].kind is Withdrawal,
    ensures
        s.step(t) == (s, Err::<(), BankingError>(BankingError::InvalidTransaction)),
{
}

} // verus!
