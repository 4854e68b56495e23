use payment_engine::amount::{MAX_MANTISSA, UNITS_PER_WHOLE};
use payment_engine::{Account, Amount, Bank, BankingError, Transaction, TransactionType};

fn amount(mantissa: i128, scale: u32) -> Amount {
    Amount::new(mantissa, scale).unwrap()
}

fn funds(kind: TransactionType, client: u16, tx: u32, value: Amount) -> Transaction {
    Transaction { kind, client, tx, amount: Some(value), under_dispute: false }
}

fn deposit(client: u16, tx: u32, whole: i128) -> Transaction {
    funds(TransactionType::Deposit, client, tx, amount(whole, 0))
}

fn withdrawal(client: u16, tx: u32, whole: i128) -> Transaction {
    funds(TransactionType::Withdrawal, client, tx, amount(whole, 0))
}

fn reference(kind: TransactionType, client: u16, tx: u32) -> Transaction {
    Transaction { kind, client, tx, amount: None, under_dispute: false }
}

fn account(client: u16, available: i128, held: i128, total: i128, locked: bool) -> Account {
    Account {
        client,
        available: available * UNITS_PER_WHOLE,
        held: held * UNITS_PER_WHOLE,
        total: total * UNITS_PER_WHOLE,
        locked,
    }
}

#[test]
fn amount_new_rejects_values_a_decimal_cannot_hold() {
    assert!(Amount::new(MAX_MANTISSA, 28).is_some());
    assert!(Amount::new(MAX_MANTISSA + 1, 0).is_none());
    assert!(Amount::new(-MAX_MANTISSA - 1, 0).is_none());
    assert!(Amount::new(1, 29).is_none());
}

#[test]
fn round_dp_rounds_half_to_even() {
    assert_eq!(amount(123456, 5).round_dp(4), amount(12346, 4));
    assert_eq!(amount(123445, 5).round_dp(4), amount(12344, 4));
    assert_eq!(amount(123455, 5).round_dp(4), amount(12346, 4));
    assert_eq!(amount(-123455, 5).round_dp(4), amount(-12346, 4));
    assert_eq!(amount(65, 1).round_dp(0), amount(6, 0));
    assert_eq!(amount(75, 1).round_dp(0), amount(8, 0));
    assert_eq!(amount(1, 5).round_dp(4), amount(0, 4));
    assert_eq!(amount(125, 2).round_dp(4), amount(125, 2));
}

#[test]
fn round_to_rounds_the_record_amount() {
    let mut t = funds(TransactionType::Deposit, 1, 1, amount(123456, 5));
    t.round_to(4);
    assert_eq!(t.amount, Some(amount(12346, 4)));
    let mut r = reference(TransactionType::Dispute, 1, 1);
    r.round_to(4);
    assert_eq!(r.amount, None);
}

#[test]
fn units_scale_to_ten_thousandths() {
    assert_eq!(amount(5, 0).units(), 50000);
    assert_eq!(amount(12346, 4).units(), 12346);
    assert_eq!(amount(-15, 1).units(), -15000);
}

#[test]
fn deposit_amount_is_rounded_before_it_is_stored_and_applied() {
    let mut bank = Bank::new();
    let t = funds(TransactionType::Deposit, 1, 1, amount(123456, 5));
    assert_eq!(bank.process_transaction(t), Ok(()));
    assert_eq!(bank.transaction(1).unwrap().amount, Some(amount(12346, 4)));
    let a = bank.account(1).unwrap();
    assert_eq!(a.available, 12346);
    assert_eq!(a.total, 12346);
}

#[test]
fn deposit_then_withdraw_same_amount_leaves_zero() {
    let mut bank = Bank::new();
    let a = amount(7250, 3);
    assert_eq!(bank.process_transaction(funds(TransactionType::Deposit, 4, 10, a)), Ok(()));
    assert_eq!(bank.process_transaction(funds(TransactionType::Withdrawal, 4, 11, a)), Ok(()));
    assert_eq!(bank.account(4).unwrap(), account(4, 0, 0, 0, false));
}

#[test]
fn overdraw_is_rejected_and_changes_nothing() {
    let mut bank = Bank::new();
    bank.process_transaction(deposit(1, 1, 3)).unwrap();
    let before = bank.account(1).unwrap();
    let over = funds(TransactionType::Withdrawal, 1, 2, amount(30001, 4));
    assert_eq!(bank.process_transaction(over), Err(BankingError::InsufficientFunds));
    assert_eq!(bank.account(1).unwrap(), before);
    assert_eq!(bank.transaction(2), None);
}

#[test]
fn withdrawal_of_exactly_the_available_balance_succeeds() {
    let mut bank = Bank::new();
    bank.process_transaction(deposit(1, 1, 3)).unwrap();
    assert_eq!(bank.process_transaction(withdrawal(1, 2, 3)), Ok(()));
    assert_eq!(bank.account(1).unwrap(), account(1, 0, 0, 0, false));
}

#[test]
fn reused_transaction_id_after_withdrawal_is_rejected() {
    let mut bank = Bank::new();
    bank.process_transaction(deposit(1, 1, 10)).unwrap();
    bank.process_transaction(withdrawal(1, 2, 4)).unwrap();
    assert_eq!(bank.process_transaction(deposit(1, 2, 1)), Err(BankingError::DuplicateTransactionId));
    assert_eq!(bank.process_transaction(withdrawal(1, 2, 1)), Err(BankingError::DuplicateTransactionId));
    assert_eq!(bank.account(1).unwrap(), account(1, 6, 0, 6, false));
}

#[test]
fn invalid_amount_takes_precedence_over_duplicate_id() {
    let mut bank = Bank::new();
    bank.process_transaction(deposit(1, 1, 10)).unwrap();
    let zero = funds(TransactionType::Deposit, 1, 1, amount(0, 0));
    assert_eq!(bank.process_transaction(zero), Err(BankingError::InvalidTransaction));
    let missing = reference(TransactionType::Withdrawal, 1, 1);
    assert_eq!(bank.process_transaction(missing), Err(BankingError::InvalidTransaction));
}

#[test]
fn deposit_without_amount_is_invalid() {
    let mut bank = Bank::new();
    let t = reference(TransactionType::Deposit, 1, 1);
    assert_eq!(bank.process_transaction(t), Err(BankingError::InvalidTransaction));
    assert_eq!(bank.account(1), None);
}

#[test]
fn dispute_twice_leaves_state_of_first_dispute() {
    let mut bank = Bank::new();
    bank.process_transaction(deposit(1, 1, 5)).unwrap();
    assert_eq!(bank.process_transaction(reference(TransactionType::Dispute, 1, 1)), Ok(()));
    let account_after_first = bank.account(1).unwrap();
    let stored_after_first = bank.transaction(1).unwrap();
    assert_eq!(
        bank.process_transaction(reference(TransactionType::Dispute, 1, 1)),
        Err(BankingError::DuplicateDisputeRequest)
    );
    assert_eq!(bank.account(1).unwrap(), account_after_first);
    assert_eq!(bank.transaction(1).unwrap(), stored_after_first);
}

#[test]
fn dispute_unknown_transaction_on_existing_account() {
    let mut bank = Bank::new();
    bank.process_transaction(deposit(1, 1, 5)).unwrap();
    assert_eq!(
        bank.process_transaction(reference(TransactionType::Dispute, 1, 9)),
        Err(BankingError::NoSuchTransaction)
    );
    assert_eq!(bank.account(1).unwrap(), account(1, 5, 0, 5, false));
}

#[test]
fn chargeback_of_undisputed_deposit_is_rejected() {
    let mut bank = Bank::new();
    bank.process_transaction(deposit(1, 1, 5)).unwrap();
    assert_eq!(
        bank.process_transaction(reference(TransactionType::Chargeback, 1, 1)),
        Err(BankingError::UndisputedTransaction)
    );
    assert_eq!(bank.account(1).unwrap(), account(1, 5, 0, 5, false));
}

#[test]
fn resolve_after_resolve_is_rejected() {
    let mut bank = Bank::new();
    bank.process_transaction(deposit(1, 1, 5)).unwrap();
    bank.process_transaction(reference(TransactionType::Dispute, 1, 1)).unwrap();
    bank.process_transaction(reference(TransactionType::Resolve, 1, 1)).unwrap();
    assert_eq!(
        bank.process_transaction(reference(TransactionType::Resolve, 1, 1)),
        Err(BankingError::UndisputedTransaction)
    );
    assert_eq!(bank.account(1).unwrap(), account(1, 5, 0, 5, false));
}

#[test]
fn resolve_of_withdrawal_is_invalid() {
    let mut bank = Bank::new();
    bank.process_transaction(deposit(1, 1, 5)).unwrap();
    bank.process_transaction(withdrawal(1, 2, 2)).unwrap();
    assert_eq!(
        bank.process_transaction(reference(TransactionType::Resolve, 1, 2)),
        Err(BankingError::InvalidTransaction)
    );
}

#[test]
fn chargeback_by_other_client_is_a_mismatch() {
    let mut bank = Bank::new();
    bank.process_transaction(deposit(1, 1, 5)).unwrap();
    bank.process_transaction(reference(TransactionType::Dispute, 1, 1)).unwrap();
    assert_eq!(
        bank.process_transaction(reference(TransactionType::Chargeback, 2, 1)),
        Err(BankingError::ClientMismatch)
    );
    assert_eq!(bank.account(1).unwrap(), account(1, 0, 5, 5, false));
}

#[test]
fn dispute_on_another_deposit_of_a_locked_account_is_locked() {
    let mut bank = Bank::new();
    bank.process_transaction(deposit(1, 1, 5)).unwrap();
    bank.process_transaction(deposit(1, 2, 3)).unwrap();
    bank.process_transaction(reference(TransactionType::Dispute, 1, 1)).unwrap();
    bank.process_transaction(reference(TransactionType::Chargeback, 1, 1)).unwrap();
    assert_eq!(bank.account(1).unwrap(), account(1, 3, 0, 3, true));
    assert_eq!(
        bank.process_transaction(reference(TransactionType::Dispute, 1, 2)),
        Err(BankingError::AccountLocked)
    );
    assert_eq!(bank.process_transaction(withdrawal(1, 3, 1)), Err(BankingError::AccountLocked));
    assert_eq!(bank.account(1).unwrap(), account(1, 3, 0, 3, true));
    assert_eq!(bank.transaction(3), None);
}

#[test]
fn scenario_dispute_then_resolve_then_dispute_again() {
    let mut bank = Bank::new();
    bank.process_transaction(deposit(1, 1, 5)).unwrap();
    bank.process_transaction(reference(TransactionType::Dispute, 1, 1)).unwrap();
    assert_eq!(bank.account(1).unwrap(), account(1, 0, 5, 5, false));
    assert!(bank.transaction(1).unwrap().under_dispute);
    bank.process_transaction(reference(TransactionType::Resolve, 1, 1)).unwrap();
    assert_eq!(bank.account(1).unwrap(), account(1, 5, 0, 5, false));
    assert!(!bank.transaction(1).unwrap().under_dispute);
    assert_eq!(bank.process_transaction(reference(TransactionType::Dispute, 1, 1)), Ok(()));
    assert_eq!(bank.account(1).unwrap(), account(1, 0, 5, 5, false));
}

#[test]
fn balance_identity_holds_through_a_mixed_stream() {
    let mut bank = Bank::new();
    let records = vec![
        deposit(1, 1, 10),
        deposit(2, 2, 4),
        withdrawal(1, 3, 7),
        reference(TransactionType::Dispute, 1, 1),
        reference(TransactionType::Dispute, 2, 2),
        reference(TransactionType::Resolve, 2, 2),
        reference(TransactionType::Chargeback, 1, 1),
        withdrawal(2, 4, 5),
    ];
    for t in records {
        let _ = bank.process_transaction(t);
        for a in bank.accounts() {
            assert_eq!(a.total, a.available + a.held);
        }
    }
    assert_eq!(bank.account(1).unwrap(), account(1, -7, 0, -7, true));
    assert_eq!(bank.account(2).unwrap(), account(2, 4, 0, 4, false));
}

#[test]
fn process_record_set_reports_each_outcome_in_order() {
    let mut bank = Bank::new();
    let records = vec![
        deposit(1, 1, 5),
        withdrawal(2, 2, 1),
        reference(TransactionType::Dispute, 1, 1),
        reference(TransactionType::Dispute, 1, 1),
        reference(TransactionType::Chargeback, 1, 1),
        deposit(1, 3, 1),
    ];
    let outcomes = bank.process_record_set(&records);
    assert_eq!(
        outcomes,
        vec![
            Ok(()),
            Err(BankingError::NoSuchAccount),
            Ok(()),
            Err(BankingError::DuplicateDisputeRequest),
            Ok(()),
            Err(BankingError::AccountLocked),
        ]
    );
    assert_eq!(bank.account(1).unwrap(), account(1, 0, 0, 0, true));
    assert_eq!(bank.account(2), None);
}

#[test]
fn process_record_set_of_nothing_changes_nothing() {
    let mut bank = Bank::new();
    assert_eq!(bank.process_record_set(&Vec::new()), Vec::new());
    assert!(bank.accounts().is_empty());
}

#[test]
fn accounts_are_listed_by_client_id() {
    let mut bank = Bank::new();
    bank.process_transaction(deposit(9, 1, 1)).unwrap();
    bank.process_transaction(deposit(u16::MAX, 2, 2)).unwrap();
    bank.process_transaction(deposit(0, 3, 3)).unwrap();
    let clients: Vec<u16> = bank.accounts().iter().map(|a| a.client).collect();
    assert_eq!(clients, vec![0, 9, u16::MAX]);
    assert_eq!(bank.accounts()[2], account(u16::MAX, 2, 0, 2, false));
}

#[test]
fn record_set_stops_at_an_account_beyond_the_balance_bound() {
    let mut bank = Bank::new();
    let big = amount(MAX_MANTISSA, 0);
    let mut records = Vec::new();
    for tx in 0..215_000u32 {
        records.push(funds(TransactionType::Deposit, 1, tx, big));
    }
    let outcomes = bank.process_record_set(&records);
    assert!(outcomes.len() < records.len());
    assert!(outcomes.iter().all(|o| o.is_ok()));
    assert!(!bank.has_room(1));
    assert!(bank.has_room(2));
    let a = bank.account(1).unwrap();
    assert_eq!(a.total, big.units() * outcomes.len() as i128);
}

#[test]
fn deposit_arriving_flagged_is_stored_undisputed() {
    let mut bank = Bank::new();
    let flagged = Transaction {
        kind: TransactionType::Deposit,
        client: 1,
        tx: 1,
        amount: Some(amount(5, 0)),
        under_dispute: true,
    };
    assert_eq!(bank.process_transaction(flagged), Ok(()));
    assert!(!bank.transaction(1).unwrap().under_dispute);
    assert_eq!(
        bank.process_transaction(reference(TransactionType::Chargeback, 1, 1)),
        Err(BankingError::UndisputedTransaction)
    );
    assert_eq!(
        bank.process_transaction(reference(TransactionType::Resolve, 1, 1)),
        Err(BankingError::UndisputedTransaction)
    );
    assert_eq!(bank.account(1).unwrap(), account(1, 5, 0, 5, false));
}

#[test]
fn withdrawal_arriving_flagged_is_stored_undisputed() {
    let mut bank = Bank::new();
    bank.process_transaction(deposit(1, 1, 5)).unwrap();
    let mut flagged = withdrawal(1, 2, 2);
    flagged.under_dispute = true;
    assert_eq!(bank.process_transaction(flagged), Ok(()));
    assert!(!bank.transaction(2).unwrap().under_dispute);
}

#[test]
fn rounding_an_amount_with_few_digits_returns_it_unchanged() {
    let a = amount(125, 2);
    assert_eq!(a.round_dp(4), a);
    assert_eq!(a.round_dp(2), a);
}
