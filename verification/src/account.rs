//! Per-client account state: available funds, held funds, and the permanent
//! lock a chargeback leaves behind. The balance operations here are raw
//! field updates; the account store is responsible for the lock and range
//! checks that make them safe.

use vstd::prelude::*;
use crate::amount::{fits_i64, Amount};

verus! {

/// Balance state for one client.
#[derive(Debug, Clone, Copy, PartialEq, Eq, Structural)]
pub struct Account {
    pub id: u16,
    pub available: i64,
    pub held: i64,
    pub locked: bool,
}

impl Account {
    /// A zeroed, unlocked account for `client_id`.
    pub open spec fn spec_new(client_id: u16) -> Account {
        Account { id: client_id, available: 0, held: 0, locked: false }
    }

    /// Total funds: available plus held. Never stored, always derived.
    pub open spec fn spec_total(self) -> int {
        self.available + self.held
    }

    /// Whether a hold of `amount` keeps both balances in the 64-bit range.
    /// The total is untouched by a hold.
    pub open spec fn spec_hold_fits(self, amount: i64) -> bool {
        fits_i64(self.available - amount) && fits_i64(self.held + amount)
    }

    /// Whether a release of `amount` keeps both balances in the 64-bit
    /// range. The total is untouched by a release.
    pub open spec fn spec_release_fits(self, amount: i64) -> bool {
        fits_i64(self.held - amount) && fits_i64(self.available + amount)
    }

    /// Whether a deposit of `amount` keeps the available balance and the
    /// derived total in the 64-bit range.
    pub open spec fn spec_deposit_fits(self, amount: i64) -> bool {
        fits_i64(self.available + amount) && fits_i64(self.spec_total() + amount)
    }

    /// Whether a withdrawal of `amount` keeps the available balance and the
    /// derived total in the 64-bit range.
    pub open spec fn spec_withdraw_fits(self, amount: i64) -> bool {
        fits_i64(self.available - amount) && fits_i64(self.spec_total() - amount)
    }

    /// Whether a chargeback of `amount` keeps the held balance and the
    /// derived total in the 64-bit range.
    pub open spec fn spec_withdraw_and_lock_fits(self, amount: i64) -> bool {
        fits_i64(self.held - amount) && fits_i64(self.spec_total() - amount)
    }

    /// The account after moving `amount` from available into held.
    pub open spec fn spec_hold(self, amount: i64) -> Account {
        Account {
            available: (self.available - amount) as i64,
            held: (self.held + amount) as i64,
            ..self
        }
    }

    /// The account after moving `amount` from held back into available.
    pub open spec fn spec_release(self, amount: i64) -> Account {
        Account {
            available: (self.available + amount) as i64,
            held: (self.held - amount) as i64,
            ..self
        }
    }

    /// The account after adding `amount` to available.
    pub open spec fn spec_deposit(self, amount: i64) -> Account {
        Account { available: (self.available + amount) as i64, ..self }
    }

    /// The account after removing `amount` from available.
    pub open spec fn spec_withdraw(self, amount: i64) -> Account {
        Account { available: (self.available - amount) as i64, ..self }
    }

    /// The account after removing `amount` from held and locking.
    pub open spec fn spec_withdraw_and_lock(self, amount: i64) -> Account {
        Account { held: (self.held - amount) as i64, locked: true, ..self }
    }

    pub fn new(client_id: u16) -> (r: Self)
        ensures
            r == Self::spec_new(client_id),
    {
        Self { id: client_id, available: 0, held: 0, locked: false }
    }

    pub fn is_locked(&self) -> (r: bool)
        ensures
            r == self.locked,
    {
        self.locked
    }

    pub fn get_client_id(&self) -> (r: u16)
        ensures
            r == self.id,
    {
        self.id
    }

    pub fn get_available(&self) -> (r: i64)
        ensures
            r == self.available,
    {
        self.available
    }

    pub fn get_total(&self) -> (r: i64)
        requires
            fits_i64(self.spec_total()),
        ensures
            r as int == self.spec_total(),
    {
        self.available + self.held
    }

    pub fn hold(&mut self, amount: i64)
        requires
            fits_i64(old(self).available - amount),
            fits_i64(old(self).held + amount),
        ensures
            *final(self) == old(self).spec_hold(amount),
    {
        self.available = self.available - amount;
        self.held = self.held + amount;
    }

    pub fn release(&mut self, amount: i64)
        requires
            fits_i64(old(self).held - amount),
            fits_i64(old(self).available + amount),
        ensures
            *final(self) == old(self).spec_release(amount),
    {
        self.held = self.held - amount;
        self.available = self.available + amount;
    }

    pub fn deposit(&mut self, amount: i64)
        requires
            fits_i64(old(self).available + amount),
        ensures
            *final(self) == old(self).spec_deposit(amount),
    {
        self.available = self.available + amount;
    }

    pub fn withdraw(&mut self, amount: i64)
        requires
            fits_i64(old(self).available - amount),
        ensures
            *final(self) == old(self).spec_withdraw(amount),
    {
        self.available = self.available - amount;
    }

    pub fn withdraw_and_lock(&mut self, amount: i64)
        requires
            fits_i64(old(self).held - amount),
        ensures
            *final(self) == old(self).spec_withdraw_and_lock(amount),
    {
        self.held = self.held - amount;
        self.locked = true;
    }
}

/// A read-only snapshot of one account, as reported to callers.
#[derive(Debug, Clone, Copy, PartialEq, Eq, Structural)]
pub struct AccountSummary {
    pub client: u16,
    pub available: Amount,
    pub held: Amount,
    pub total: Amount,
    pub locked: bool,
}

impl AccountSummary {
    /// The snapshot an account yields: `total` is derived as
    /// `available + held`, never carried independently.
    pub open spec fn spec_of(a: Account) -> AccountSummary {
        AccountSummary {
            client: a.id,
            available: Amount(a.available),
            held: Amount(a.held),
            total: Amount((a.available + a.held) as i64),
            locked: a.locked,
        }
    }

    /// Builds the snapshot of `a`.
    pub fn from_account(a: &Account) -> (r: AccountSummary)
        requires
            fits_i64(a.spec_total()),
        ensures
            r == AccountSummary::spec_of(*a),
            r.total@ == r.available@ + r.held@,
    {
        AccountSummary {
            client: a.id,
            available: Amount(a.available),
            held: Amount(a.held),
            total: Amount(a.available + a.held),
            locked: a.locked,
        }
    }
}

} // verus!
