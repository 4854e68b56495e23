use crate::errors::BankingError;
use vstd::prelude::*;

verus! {

/// The balances of one client. Amounts are counted in ledger units, ten-thousandths of a
/// currency unit. `available` may go below zero when a deposit is disputed after its funds
/// were withdrawn.
#[derive(Clone, Copy, Debug, PartialEq, Eq, Structural)]
pub struct Account {
    pub client: u16,
    pub available: i128,
    pub held: i128,
    pub total: i128,
    pub locked: bool,
}

/// Whether `x` is a value of `i128`.
pub open spec fn fits_i128(x: int) -> bool {
    i128::MIN <= x <= i128::MAX
}

impl Account {
    /// An empty, unlocked account.
    pub open spec fn empty(client: u16) -> Account {
        Account { client, available: 0, held: 0, total: 0, locked: false }
    }

    /// Each balance can move by `amount` either way and stay an `i128`.
    pub open spec fn has_room_for(self, amount: int) -> bool {
        &&& fits_i128(self.available + amount) && fits_i128(self.available - amount)
        &&& fits_i128(self.held + amount) && fits_i128(self.held - amount)
        &&& fits_i128(self.total + amount) && fits_i128(self.total - amount)
    }

    pub open spec fn deposited(self, amount: int) -> Account {
        Account {
            available: (self.available + amount) as i128,
            total: (self.total + amount) as i128,
            ..self
        }
    }

    pub open spec fn withdrawn(self, amount: int) -> Account {
        Account {
            available: (self.available - amount) as i128,
            total: (self.total - amount) as i128,
            ..self
        }
    }

    pub open spec fn disputed(self, amount: int) -> Account {
        Account {
            available: (self.available - amount) as i128,
            held: (self.held + amount) as i128,
            ..self
        }
    }

    pub open spec fn resolved(self, amount: int) -> Account {
        Account {
            held: (self.held - amount) as i128,
            available: (self.available + amount) as i128,
            ..self
        }
    }

    pub open spec fn charged_back(self, amount: int) -> Account {
        Account {
            total: (self.total - amount) as i128,
            held: (self.held - amount) as i128,
            locked: true,
            ..self
        }
    }

    /// A new account for `client`, with every balance at zero.
    pub fn new(client: u16) -> (r: Account)
        ensures
            r == Account::empty(client),
    {
        Account { client, available: 0, held: 0, locked: false, total: 0 }
    }

    /// Adds `amount` to the available and total balances.
    pub fn deposit(&mut self, amount: i128) -> (r: Result<(), BankingError>)
        requires
            old(self).has_room_for(amount as int),
        ensures
            old(self).locked ==> r == Err::<(), BankingError>(BankingError::AccountLocked)
                && *final(self) == *old(self),
            !old(self).locked ==> r is Ok && *final(self) == old(self).deposited(amount as int),
    {
        if self.locked {
            return Err(BankingError::AccountLocked);
        }
        self.available = self.available + amount;
        self.total = self.total + amount;
        Ok(())
    }

    /// Takes `amount` from the available and total balances, where that much is available.
    pub fn withdraw(&mut self, amount: i128) -> (r: Result<(), BankingError>)
        requires
            old(self).has_room_for(amount as int),
        ensures
            old(self).locked ==> r == Err::<(), BankingError>(BankingError::AccountLocked)
                && *final(self) == *old(self),
            !old(self).locked && old(self).available < amount ==> r == Err::<
                (),
                BankingError,
            >(BankingError::InsufficientFunds) && *final(self) == *old(self),
            !old(self).locked && old(self).available >= amount ==> r is Ok && *final(self)
                == old(self).withdrawn(amount as int),
    {
        if self.locked {
            return Err(BankingError::AccountLocked);
        }
        if self.available < amount {
            return Err(BankingError::InsufficientFunds);
        }
        self.available = self.available - amount;
        self.total = self.total - amount;
        Ok(())
    }

    /// Moves `amount` from the available balance to the held one.
    pub fn dispute(&mut self, amount: i128) -> (r: Result<(), BankingError>)
        requires
            old(self).has_room_for(amount as int),
        ensures
            old(self).locked ==> r == Err::<(), BankingError>(BankingError::AccountLocked)
                && *final(self) == *old(self),
            !old(self).locked ==> r is Ok && *final(self) == old(self).disputed(amount as int),
    {
        if self.locked {
            return Err(BankingError::AccountLocked);
        }
        self.available = self.available - amount;
        self.held = self.held + amount;
        Ok(())
    }

    /// Moves `amount` from the held balance back to the available one.
    pub fn resolve(&mut self, amount: i128) -> (r: Result<(), BankingError>)
        requires
            old(self).has_room_for(amount as int),
        ensures
            old(self).locked ==> r == Err::<(), BankingError>(BankingError::AccountLocked)
                && *final(self) == *old(self),
            !old(self).locked ==> r is Ok && *final(self) == old(self).resolved(amount as int),
    {
        if self.locked {
            return Err(BankingError::AccountLocked);
        }
        self.held = self.held - amount;
        self.available = self.available + amount;
        Ok(())
    }

    /// Removes `amount` from the held and total balances and locks the account for good.
    pub fn chargeback(&mut self, amount: i128) -> (r: Result<(), BankingError>)
        requires
            old(self).has_room_for(amount as int),
        ensures
            old(self).locked ==> r == Err::<(), BankingError>(BankingError::AccountLocked)
                && *final(self) == *old(self),
            !old(self).locked ==> r is Ok && *final(self) == old(self).charged_back(
                amount as int,
            ),
    {
        if self.locked {
            return Err(BankingError::AccountLocked);
        }
        self.total = self.total - amount;
        self.held = self.held - amount;
        self.locked = true;
        Ok(())
    }
}

} // verus!
