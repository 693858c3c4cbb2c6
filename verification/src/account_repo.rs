//! The in-memory account store: exclusive owner of its account table.
//! Every mutation funnels through the `AccountRepository` operations, each
//! of which loads the account, checks the lock (and, where the operation
//! demands it, the funds and the 64-bit range), applies the balance
//! change, and persists.

use vstd::prelude::*;
use std::collections::HashMap;
use crate::account::{Account, AccountSummary};
use crate::amount::fits_i64;
use crate::errors::{LedgerError, LedgerErrorKind, LedgerResult};
use crate::repository::AccountRepository;

verus! {

broadcast use vstd::std_specs::hash::group_hash_axioms;

/// Whether every account in the table sits under its own client id with a
/// representable total.
pub open spec fn account_map_wf(m: Map<u16, Account>) -> bool {
    forall|c: u16| #[trigger]
        m.dom().contains(c) ==> m[c].id == c && fits_i64(m[c].spec_total())
}

/// The account table, plus the order in which clients were first seen (the
/// order summaries are reported in).
pub struct InMemoryAccountRepository {
    accounts: HashMap<u16, Account>,
    clients: Vec<u16>,
}

impl InMemoryAccountRepository {
    pub fn new() -> (r: Self)
        ensures
            r.repo_wf(),
            r.repo_view() == Map::<u16, Account>::empty(),
            r.repo_order() == Seq::<u16>::empty(),
    {
        let r = InMemoryAccountRepository { accounts: HashMap::new(), clients: Vec::new() };
        proof {
            assert(r.accounts@.dom() =~= Set::<u16>::empty());
        }
        r
    }

    /// Loads an account, failing with `DoesNotExist` when the client was
    /// never created.
    fn get_account(&self, client_id: u16) -> (r: LedgerResult<Account>)
        ensures
            self.accounts@.dom().contains(client_id) ==> (r matches Ok(a) && a
                == self.accounts@[client_id]),
            !self.accounts@.dom().contains(client_id) ==> (r matches Err(e) && (
            e.kind matches LedgerErrorKind::DoesNotExist(m) && m@ == "account does not exist"@)),
    {
        match self.accounts.get(&client_id) {
            Some(a) => Ok(*a),
            None => Err(LedgerError::doesnt_exist("account does not exist")),
        }
    }

    /// Stores `account` under `client_id`, keeping the client order in step.
    fn update_account(&mut self, client_id: u16, account: Account) -> (r: LedgerResult<()>)
        requires
            old(self).repo_wf(),
            old(self).accounts@.dom().contains(client_id),
            account.id == client_id,
            fits_i64(account.spec_total()),
        ensures
            final(self).repo_wf(),
            final(self).accounts@ == old(self).accounts@.insert(client_id, account),
            final(self).clients@ == old(self).clients@,
            r is Ok,
    {
        self.accounts.insert(client_id, account);
        Ok(())
    }
}

impl AccountRepository for InMemoryAccountRepository {
    closed spec fn repo_view(&self) -> Map<u16, Account> {
        self.accounts@
    }

    closed spec fn repo_wf(&self) -> bool {
        &&& account_map_wf(self.accounts@)
        &&& self.clients@.no_duplicates()
        &&& forall|c: u16| self.accounts@.dom().contains(c) <==> #[trigger] self.clients@.contains(
            c,
        )
    }

    closed spec fn repo_order(&self) -> Seq<u16> {
        self.clients@
    }

    fn get_or_create_account(&mut self, client_id: u16) -> (r: LedgerResult<Account>) {
        if self.accounts.contains_key(&client_id) {
            let a = *self.accounts.get(&client_id).unwrap();
            Ok(a)
        } else {
            let a = Account::new(client_id);
            self.accounts.insert(client_id, a);
            self.clients.push(client_id);
            proof {
                let oldc = old(self).clients@;
                let newc = self.clients@;
                assert(!oldc.contains(client_id));
                assert(newc.no_duplicates()) by {
                    assert(forall|i: int| 0 <= i < oldc.len() ==> newc[i] == oldc[i]);
                    assert(newc[oldc.len() as int] == client_id);
                    assert(forall|i: int|
                        0 <= i < oldc.len() ==> #[trigger] oldc[i] != client_id) by {
                        assert(forall|i: int|
                            0 <= i < oldc.len() ==> oldc.contains(#[trigger] oldc[i]));
                    }
                }
                assert(newc.contains(client_id)) by {
                    assert(newc.last() == client_id);
                }
                assert forall|c: u16| self.accounts@.dom().contains(c) implies #[trigger]
                newc.contains(c) by {
                    if c != client_id {
                        assert(oldc.contains(c));
                        let i = choose|i: int| 0 <= i < oldc.len() && oldc[i] == c;
                        assert(newc[i] == c);
                    }
                }
                assert forall|c: u16| #[trigger]
                newc.contains(c) implies self.accounts@.dom().contains(c) by {
                    if c != client_id {
                        let i = choose|i: int| 0 <= i < newc.len() && newc[i] == c;
                        assert(oldc[i] == c);
                        assert(oldc.contains(c));
                    }
                }
            }
            Ok(a)
        }
    }

    fn hold(&mut self, client_id: u16, amount: i64) -> (r: LedgerResult<()>) {
        let mut a = match self.get_account(client_id) {
            Ok(a) => a,
            Err(e) => return Err(e),
        };
        if a.is_locked() {
            return account_err("account is locked");
        }
        if !hold_in_range(&a, amount) {
            return account_err("amount out of range");
        }
        a.hold(amount);
        self.update_account(client_id, a)
    }

    fn release(&mut self, client_id: u16, amount: i64) -> (r: LedgerResult<()>) {
        let mut a = match self.get_account(client_id) {
            Ok(a) => a,
            Err(e) => return Err(e),
        };
        if a.is_locked() {
            return account_err("account is locked");
        }
        if !release_in_range(&a, amount) {
            return account_err("amount out of range");
        }
        a.release(amount);
        self.update_account(client_id, a)
    }

    fn deposit(&mut self, client_id: u16, amount: i64) -> (r: LedgerResult<()>) {
        let mut a = match self.get_account(client_id) {
            Ok(a) => a,
            Err(e) => return Err(e),
        };
        if a.is_locked() {
            return account_err("account is locked");
        }
        if !deposit_in_range(&a, amount) {
            return account_err("amount out of range");
        }
        a.deposit(amount);
        self.update_account(client_id, a)
    }

    fn withdraw(&mut self, client_id: u16, amount: i64) -> (r: LedgerResult<()>) {
        let mut a = match self.get_account(client_id) {
            Ok(a) => a,
            Err(e) => return Err(e),
        };
        if a.is_locked() {
            return account_err("account is locked");
        }
        if amount > a.get_available() {
            return account_err("insufficient funds");
        }
        if !withdraw_in_range(&a, amount) {
            return account_err("amount out of range");
        }
        a.withdraw(amount);
        self.update_account(client_id, a)
    }

    fn withdraw_and_lock(&mut self, client_id: u16, amount: i64) -> (r: LedgerResult<()>) {
        let mut a = match self.get_account(client_id) {
            Ok(a) => a,
            Err(e) => return Err(e),
        };
        if a.is_locked() {
            return account_err("account is locked");
        }
        if !withdraw_and_lock_in_range(&a, amount) {
            return account_err("amount out of range");
        }
        a.withdraw_and_lock(amount);
        self.update_account(client_id, a)
    }

    fn dump_accounts(&self) -> (r: LedgerResult<Vec<AccountSummary>>) {
        let mut v: Vec<AccountSummary> = Vec::new();
        let n = self.clients.len();
        let mut i: usize = 0;
        while i < n
            invariant
                self.repo_wf(),
                n == self.clients@.len(),
                0 <= i <= n,
                v@.len() == i as int,
                forall|j: int|
                    0 <= j < i as int ==> #[trigger] v@[j] == AccountSummary::spec_of(
                        self.accounts@[self.clients@[j]],
                    ),
            decreases n - i,
        {
            let c = self.clients[i];
            proof {
                assert(self.clients@.contains(self.clients@[i as int]));
            }
            let a = self.accounts.get(&c).unwrap();
            v.push(AccountSummary::from_account(a));
            i = i + 1;
        }
        proof {
            assert(forall|j: int|
                0 <= j < self.clients@.len() ==> self.accounts@.dom().contains(
                    #[trigger] self.clients@[j],
                )) by {
                assert(forall|j: int|
                    0 <= j < self.clients@.len() ==> self.clients@.contains(
                        #[trigger] self.clients@[j],
                    ));
            }
        }
        Ok(v)
    }
}

/// Whether a hold stays in range, decided executably.
fn hold_in_range(a: &Account, amount: i64) -> (r: bool)
    ensures
        r == a.spec_hold_fits(amount),
{
    a.available.checked_sub(amount).is_some() && a.held.checked_add(amount).is_some()
}

/// Whether a release stays in range, decided executably.
fn release_in_range(a: &Account, amount: i64) -> (r: bool)
    ensures
        r == a.spec_release_fits(amount),
{
    a.held.checked_sub(amount).is_some() && a.available.checked_add(amount).is_some()
}

/// Whether a deposit stays in range, decided executably.
fn deposit_in_range(a: &Account, amount: i64) -> (r: bool)
    ensures
        r == a.spec_deposit_fits(amount),
{
    a.available.checked_add(amount).is_some() && i128_fits_i64(
        a.available as i128 + a.held as i128 + amount as i128,
    )
}

/// Whether a withdrawal stays in range, decided executably.
fn withdraw_in_range(a: &Account, amount: i64) -> (r: bool)
    ensures
        r == a.spec_withdraw_fits(amount),
{
    a.available.checked_sub(amount).is_some() && i128_fits_i64(
        a.available as i128 + a.held as i128 - amount as i128,
    )
}

/// Whether a chargeback stays in range, decided executably.
fn withdraw_and_lock_in_range(a: &Account, amount: i64) -> (r: bool)
    ensures
        r == a.spec_withdraw_and_lock_fits(amount),
{
    a.held.checked_sub(amount).is_some() && i128_fits_i64(
        a.available as i128 + a.held as i128 - amount as i128,
    )
}

/// Whether a 128-bit value lies inside the 64-bit range.
fn i128_fits_i64(v: i128) -> (r: bool)
    ensures
        r == fits_i64(v as int),
{
    i64::MIN as i128 <= v && v <= i64::MAX as i128
}

/// An `Err` wrapping a repository error with `msg`.
fn account_err(msg: &str) -> (r: Result<(), LedgerError>)
    ensures
        (r matches Err(e) && (e.kind matches LedgerErrorKind::RepositoryError(m) && m@ == msg@)),
{
    Err(LedgerError::repository_error(msg))
}

} // verus!
