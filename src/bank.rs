use crate::account::Account;
use crate::amount::{units_of, Amount, DECIMAL_PLACES, MAX_UNITS};
use crate::errors::BankingError;
use crate::transaction::{Transaction, TransactionType};
use std::collections::HashMap;
use vstd::prelude::*;

verus! {

broadcast use vstd::std_specs::hash::group_hash_axioms;

/// Largest balance magnitude at which any amount can still be applied without leaving
/// `i128`: `i128::MAX - MAX_UNITS`.
pub const BALANCE_BOUND: i128 = 170140391178844089088311368276380755727;

/// What a bank holds: the accounts by client and the stored transactions by id.
pub struct BankModel {
    pub accounts: Map<u16, Account>,
    pub transactions: Map<u32, Transaction>,
}

/// The amount of a stored transaction in ledger units; a missing amount counts as zero.
pub open spec fn amount_units(t: Transaction) -> int {
    match t.amount {
        Some(a) => units_of(a@),
        None => 0,
    }
}

pub open spec fn within_bound(x: i128) -> bool {
    -BALANCE_BOUND <= x <= BALANCE_BOUND
}

impl BankModel {
    pub open spec fn empty() -> BankModel {
        BankModel { accounts: Map::empty(), transactions: Map::empty() }
    }

    /// Each account sits under its own client id and its total is its available plus its
    /// held balance; each stored transaction sits under its own id, is a deposit or a
    /// withdrawal, and carries an amount of at most four fractional digits.
    pub open spec fn wf(self) -> bool {
        &&& forall|c: u16| #[trigger]
            self.accounts.contains_key(c) ==> {
                let a = self.accounts[c];
                a.client == c && a.total == a.available + a.held
            }
        &&& forall|id: u32| #[trigger]
            self.transactions.contains_key(id) ==> {
                let t = self.transactions[id];
                &&& t.tx == id
                &&& t.moves_funds()
                &&& t.amount matches Some(a) && a@.scale <= DECIMAL_PLACES && Amount::representable(
                    a@,
                )
            }
    }

    /// The account of `client`, if there is one, has every balance within `BALANCE_BOUND`,
    /// so that any amount can be applied to it.
    pub open spec fn has_room(self, client: u16) -> bool {
        self.accounts.contains_key(client) ==> {
            let a = self.accounts[client];
            within_bound(a.available) && within_bound(a.held) && within_bound(a.total)
        }
    }

    /// The account that a deposit for `client` goes to.
    pub open spec fn account_or_empty(self, client: u16) -> Account {
        if self.accounts.contains_key(client) {
            self.accounts[client]
        } else {
            Account::empty(client)
        }
    }

    /// The state after one record, and the outcome of that record. A deposit or withdrawal
    /// is stored with its amount rounded and not under dispute, whatever flag it arrived with.
    pub open spec fn step(self, t: Transaction) -> (BankModel, Result<(), BankingError>) {
        match t.kind {
            TransactionType::Deposit => {
                let v = t.rounded_to(DECIMAL_PLACES as nat);
                let acct = self.account_or_empty(t.client);
                if t.shape_check() is Err {
                    (self, Err(BankingError::InvalidTransaction))
                } else if self.transactions.contains_key(t.tx) {
                    (self, Err(BankingError::DuplicateTransactionId))
                } else if acct.locked {
                    (self, Err(BankingError::AccountLocked))
                } else {
                    (
                        BankModel {
                            accounts: self.accounts.insert(
                                t.client,
                                acct.deposited(amount_units(v)),
                            ),
                            transactions: self.transactions.insert(
                                t.tx,
                                Transaction { under_dispute: false, ..v },
                            ),
                        },
                        Ok(()),
                    )
                }
            },
            TransactionType::Withdrawal => {
                let v = t.rounded_to(DECIMAL_PLACES as nat);
                let acct = self.accounts[t.client];
                if t.shape_check() is Err {
                    (self, Err(BankingError::InvalidTransaction))
                } else if self.transactions.contains_key(t.tx) {
                    (self, Err(BankingError::DuplicateTransactionId))
                } else if !self.accounts.contains_key(t.client) {
                    (self, Err(BankingError::NoSuchAccount))
                } else if acct.locked {
                    (self, Err(BankingError::AccountLocked))
                } else if acct.available < amount_units(v) {
                    (self, Err(BankingError::InsufficientFunds))
                } else {
                    (
                        BankModel {
                            accounts: self.accounts.insert(
                                t.client,
                                acct.withdrawn(amount_units(v)),
                            ),
                            transactions: self.transactions.insert(
                                t.tx,
                                Transaction { under_dispute: false, ..v },
                            ),
                        },
                        Ok(()),
                    )
                }
            },
            _ => {
                let stored = self.transactions[t.tx];
                let acct = self.accounts[t.client];
                let amount = amount_units(stored);
                if !self.transactions.contains_key(t.tx) {
                    (self, Err(BankingError::NoSuchTransaction))
                } else if t.check_against(stored) is Err {
                    (self, t.check_against(stored))
                } else if !self.accounts.contains_key(t.client) {
                    (self, Err(BankingError::NoSuchAccount))
                } else if acct.locked {
                    (self, Err(BankingError::AccountLocked))
                } else {
                    let changed = if t.kind is Dispute {
                        acct.disputed(amount)
                    } else if t.kind is Resolve {
                        acct.resolved(amount)
                    } else {
                        acct.charged_back(amount)
                    };
                    (
                        BankModel {
                            accounts: self.accounts.insert(t.client, changed),
                            transactions: self.transactions.insert(
                                t.tx,
                                Transaction { under_dispute: t.kind is Dispute, ..stored },
                            ),
                        },
                        Ok(()),
                    )
                }
            },
        }
    }

    /// The records applied in order: the state after the last, and each record's outcome.
    pub open spec fn run(self, records: Seq<Transaction>) -> (BankModel, Seq<
        Result<(), BankingError>,
    >)
        decreases records.len(),
    {
        if records.len() == 0 {
            (self, Seq::empty())
        } else {
            let before = self.run(records.drop_last());
            let after = before.0.step(records.last());
            (after.0, before.1.push(after.1))
        }
    }
}

/// The ledger: one account per client, one stored record per deposit or withdrawal.
pub struct Bank {
    accounts: HashMap<u16, Account>,
    transactions: HashMap<u32, Transaction>,
}

impl View for Bank {
    type V = BankModel;

    closed spec fn view(&self) -> BankModel {
        BankModel { accounts: self.accounts@, transactions: self.transactions@ }
    }
}

impl Bank {
    /// A bank with no accounts and no stored transactions.
    pub fn new() -> (r: Bank)
        ensures
            r@ == BankModel::empty(),
            r@.wf(),
    {
        let r = Bank { accounts: HashMap::new(), transactions: HashMap::new() };
        assert(r@.accounts =~= Map::empty());
        assert(r@.transactions =~= Map::empty());
        r
    }

    /// The account of `client`, if it exists.
    pub fn account(&self, client: u16) -> (r: Option<Account>)
        ensures
            r == (if self@.accounts.contains_key(client) {
                Some(self@.accounts[client])
            } else {
                None
            }),
    {
        match self.accounts.get(&client) {
            Some(a) => Some(*a),
            None => None,
        }
    }

    /// The stored transaction `tx`, if there is one.
    pub fn transaction(&self, tx: u32) -> (r: Option<Transaction>)
        ensures
            r == (if self@.transactions.contains_key(tx) {
                Some(self@.transactions[tx])
            } else {
                None
            }),
    {
        match self.transactions.get(&tx) {
            Some(t) => Some(*t),
            None => None,
        }
    }

    /// Whether any record for `client` can be applied without a balance leaving `i128`.
    pub fn has_room(&self, client: u16) -> (r: bool)
        ensures
            r == self@.has_room(client),
    {
        match self.accounts.get(&client) {
            Some(a) => {
                -BALANCE_BOUND <= a.available && a.available <= BALANCE_BOUND && -BALANCE_BOUND
                    <= a.held && a.held <= BALANCE_BOUND && -BALANCE_BOUND <= a.total && a.total
                    <= BALANCE_BOUND
            },
            None => true,
        }
    }

    /// The account of `client`; when `create` is set, a missing one is first created empty.
    fn retrieve_account(client: u16, accounts: &mut HashMap<u16, Account>, create: bool) -> (r:
        Result<Account, BankingError>)
        ensures
            final(accounts)@ == (if create && !old(accounts)@.contains_key(client) {
                old(accounts)@.insert(client, Account::empty(client))
            } else {
                old(accounts)@
            }),
            r == (if final(accounts)@.contains_key(client) {
                Ok(final(accounts)@[client])
            } else {
                Err(BankingError::NoSuchAccount)
            }),
    {
        if create {
            if !accounts.contains_key(&client) {
                accounts.insert(client, Account::new(client));
            }
        }
        match accounts.get(&client) {
            Some(account) => Ok(*account),
            None => Err(BankingError::NoSuchAccount),
        }
    }

    /// The stored transaction `tx_id`.
    fn retrieve_transaction(tx_id: u32, transactions: &HashMap<u32, Transaction>) -> (r: Result<
        Transaction,
        BankingError,
    >)
        ensures
            r == (if transactions@.contains_key(tx_id) {
                Ok(transactions@[tx_id])
            } else {
                Err(BankingError::NoSuchTransaction)
            }),
    {
        match transactions.get(&tx_id) {
            Some(t) => Ok(*t),
            None => Err(BankingError::NoSuchTransaction),
        }
    }
    /// The amount of a stored transaction in ledger units; a missing amount counts as zero.
    fn stored_units(t: &Transaction) -> (r: i128)
        requires
            t.amount matches Some(a) ==> a@.scale <= DECIMAL_PLACES,
        ensures
            r == amount_units(*t),
            -MAX_UNITS <= r <= MAX_UNITS,
    {
        match t.amount {
            Some(a) => a.units(),
            None => 0,
        }
    }

    /// Applies one record: validates it, routes it by kind, changes the account it names and
    /// stores or updates the transaction it concerns. A record that fails changes nothing.
    pub fn process_transaction(&mut self, transaction: Transaction) -> (r: Result<(), BankingError>)
        requires
            old(self)@.wf(),
            old(self)@.has_room(transaction.client),
        ensures
            (final(self)@, r) == old(self)@.step(transaction),
            final(self)@.wf(),
    {
        let ghost pre = self@;
        let ghost original = transaction;
        let mut transaction = transaction;
        match transaction.kind {
            TransactionType::Deposit => {
                if let Err(e) = transaction.validate() {
                    return Err(e);
                }
                if self.transactions.contains_key(&transaction.tx) {
                    return Err(BankingError::DuplicateTransactionId);
                }
                let mut account = match Bank::retrieve_account(
                    transaction.client,
                    &mut self.accounts,
                    true,
                ) {
                    Ok(account) => account,
                    Err(e) => return Err(e),
                };
                let amount = Bank::stored_units(&transaction);
                if let Err(e) = account.deposit(amount) {
                    return Err(e);
                }
                self.accounts.insert(transaction.client, account);
                transaction.under_dispute = false;
                self.transactions.insert(transaction.tx, transaction);
                proof {
                    assert(self@.accounts =~= pre.step(original).0.accounts);
                    assert(self@.transactions =~= pre.step(original).0.transactions);
                }
                Ok(())
            },
            TransactionType::Withdrawal => {
                if let Err(e) = transaction.validate() {
                    return Err(e);
                }
                if self.transactions.contains_key(&transaction.tx) {
                    return Err(BankingError::DuplicateTransactionId);
                }
                let mut account = match Bank::retrieve_account(
                    transaction.client,
                    &mut self.accounts,
                    false,
                ) {
                    Ok(account) => account,
                    Err(e) => return Err(e),
                };
                let amount = Bank::stored_units(&transaction);
                if let Err(e) = account.withdraw(amount) {
                    return Err(e);
                }
                self.accounts.insert(transaction.client, account);
                transaction.under_dispute = false;
                self.transactions.insert(transaction.tx, transaction);
                Ok(())
            },
            TransactionType::Dispute | TransactionType::Resolve | TransactionType::Chargeback => {
                let mut stored = match Bank::retrieve_transaction(
                    transaction.tx,
                    &self.transactions,
                ) {
                    Ok(stored) => stored,
                    Err(e) => return Err(e),
                };
                if let Err(e) = transaction.validate_against_stored(&mut stored) {
                    return Err(e);
                }
                let mut account = match Bank::retrieve_account(
                    transaction.client,
                    &mut self.accounts,
                    false,
                ) {
                    Ok(account) => account,
                    Err(e) => return Err(e),
                };
                let amount = Bank::stored_units(&stored);
                let outcome = match transaction.kind {
                    TransactionType::Dispute => account.dispute(amount),
                    TransactionType::Resolve => account.resolve(amount),
                    _ => account.chargeback(amount),
                };
                if let Err(e) = outcome {
                    return Err(e);
                }
                stored.under_dispute = transaction.kind == TransactionType::Dispute;
                self.accounts.insert(transaction.client, account);
                self.transactions.insert(transaction.tx, stored);
                Ok(())
            },
        }
    }
    /// Applies the records in order and returns the outcome of each. It stops before a
    /// record whose account has a balance beyond `BALANCE_BOUND`; the outcomes then cover
    /// the records before it.
    pub fn process_record_set(&mut self, records: &Vec<Transaction>) -> (r: Vec<
        Result<(), BankingError>,
    >)
        requires
            old(self)@.wf(),
        ensures
            final(self)@.wf(),
            r.len() <= records.len(),
            (final(self)@, r@) == old(self)@.run(records@.take(r.len() as int)),
            r.len() < records.len() ==> !final(self)@.has_room(records[r.len() as int].client),
    {
        let mut outcomes: Vec<Result<(), BankingError>> = Vec::new();
        let mut i: usize = 0;
        proof {
            assert(records@.take(0) =~= Seq::<Transaction>::empty());
        }
        while i < records.len()
            invariant
                self@.wf(),
                i <= records.len(),
                outcomes.len() == i,
                (self@, outcomes@) == old(self)@.run(records@.take(i as int)),
            decreases records.len() - i,
        {
            let record = records[i];
            if !self.has_room(record.client) {
                return outcomes;
            }
            let outcome = self.process_transaction(record);
            outcomes.push(outcome);
            proof {
                assert(records@.take(i + 1).drop_last() =~= records@.take(i as int));
            }
            i = i + 1;
        }
        outcomes
    }

    /// Every account, in increasing order of client id.
    pub fn accounts(&self) -> (r: Vec<Account>)
        requires
            self@.wf(),
        ensures
            forall|i: int|
                0 <= i < r.len() ==> self@.accounts.contains_key(#[trigger] r[i].client)
                    && r[i] == self@.accounts[r[i].client],
            forall|i: int, j: int| 0 <= i < j < r.len() ==> r[i].client < r[j].client,
            forall|c: u16| #[trigger]
                self@.accounts.contains_key(c) ==> r@.contains(self@.accounts[c]),
    {
        let mut r: Vec<Account> = Vec::new();
        let mut c: u32 = 0;
        while c <= 65535
            invariant
                self@.wf(),
                c <= 65536,
                forall|i: int|
                    0 <= i < r.len() ==> self@.accounts.contains_key(#[trigger] r[i].client)
                        && r[i] == self@.accounts[r[i].client] && r[i].client < c,
                forall|i: int, j: int| 0 <= i < j < r.len() ==> r[i].client < r[j].client,
                forall|k: u16| #[trigger]
                    self@.accounts.contains_key(k) && k < c ==> r@.contains(self@.accounts[k]),
            decreases 65536 - c,
        {
            let client = c as u16;
            if let Some(a) = self.accounts.get(&client) {
                proof {
                    let pushed = r@.push(*a);
                    assert forall|k: u16| #[trigger]
                        self@.accounts.contains_key(k) && k < c + 1 implies pushed.contains(
                        self@.accounts[k],
                    ) by {
                        if k < c {
                            let i = choose|i: int| 0 <= i < r.len() && r@[i] == self@.accounts[k];
                            assert(pushed[i] == self@.accounts[k]);
                        } else {
                            assert(pushed[r.len() as int] == self@.accounts[k]);
                        }
                    }
                }
                r.push(*a);
            }
            c = c + 1;
        }
        r
    }
}

} // verus!
