//! The store interface the transaction processor drives. An account store
//! is anything that owns an account table and serializes these operations
//! on it; the processor is verified against this contract alone, so an
//! alternative store can be substituted without touching the processor.

use vstd::prelude::*;
use crate::account::{Account, AccountSummary};
use crate::booking::Booking;
use crate::errors::{LedgerErrorKind, LedgerResult};
use crate::transition::{step, with_account, TxOutcome, outcome_message};
use crate::tx::Tx;

verus! {

/// Exclusive owner of an account table: get-or-create plus the five
/// balance operations and a read-only snapshot, each atomic with respect
/// to the others.
pub trait AccountRepository: Sized {
    /// The account table this store owns.
    spec fn repo_view(&self) -> Map<u16, Account>;

    /// The store's internal invariant.
    spec fn repo_wf(&self) -> bool;

    /// The clients of the table, each exactly once, in first-touch order.
    spec fn repo_order(&self) -> Seq<u16>;

    /// Returns the existing account for `client_id`, or inserts and
    /// returns a zeroed one. Never fails.
    fn get_or_create_account(&mut self, client_id: u16) -> (r: LedgerResult<Account>)
        requires
            old(self).repo_wf(),
        ensures
            final(self).repo_wf(),
            final(self).repo_view() == with_account(old(self).repo_view(), client_id),
            (r matches Ok(a) && a == final(self).repo_view()[client_id] && a.id == client_id),
            old(self).repo_view().dom().contains(client_id) ==> final(self).repo_order() == old(
                self,
            ).repo_order(),
            !old(self).repo_view().dom().contains(client_id) ==> final(self).repo_order() == old(
                self,
            ).repo_order().push(client_id),
    ;

    /// Moves `amount` from available into held (the dispute effect).
    fn hold(&mut self, client_id: u16, amount: i64) -> (r: LedgerResult<()>)
        requires
            old(self).repo_wf(),
        ensures
            final(self).repo_wf(),
            final(self).repo_order() == old(self).repo_order(),
            ({
                let m = old(self).repo_view();
                if !m.dom().contains(client_id) {
                    &&& final(self).repo_view() == m
                    &&& (r matches Err(e) && (
                    e.kind matches LedgerErrorKind::DoesNotExist(msg) && msg@
                        == "account does not exist"@))
                } else if m[client_id].locked {
                    &&& final(self).repo_view() == m
                    &&& (r matches Err(e) && (
                    e.kind matches LedgerErrorKind::RepositoryError(msg) && msg@
                        == "account is locked"@))
                } else if !m[client_id].spec_hold_fits(amount) {
                    &&& final(self).repo_view() == m
                    &&& (r matches Err(e) && (
                    e.kind matches LedgerErrorKind::RepositoryError(msg) && msg@
                        == "amount out of range"@))
                } else {
                    &&& final(self).repo_view() == m.insert(
                        client_id,
                        m[client_id].spec_hold(amount),
                    )
                    &&& r is Ok
                }
            }),
    ;

    /// Moves `amount` from held back into available (the resolve effect).
    fn release(&mut self, client_id: u16, amount: i64) -> (r: LedgerResult<()>)
        requires
            old(self).repo_wf(),
        ensures
            final(self).repo_wf(),
            final(self).repo_order() == old(self).repo_order(),
            ({
                let m = old(self).repo_view();
                if !m.dom().contains(client_id) {
                    &&& final(self).repo_view() == m
                    &&& (r matches Err(e) && (
                    e.kind matches LedgerErrorKind::DoesNotExist(msg) && msg@
                        == "account does not exist"@))
                } else if m[client_id].locked {
                    &&& final(self).repo_view() == m
                    &&& (r matches Err(e) && (
                    e.kind matches LedgerErrorKind::RepositoryError(msg) && msg@
                        == "account is locked"@))
                } else if !m[client_id].spec_release_fits(amount) {
                    &&& final(self).repo_view() == m
                    &&& (r matches Err(e) && (
                    e.kind matches LedgerErrorKind::RepositoryError(msg) && msg@
                        == "amount out of range"@))
                } else {
                    &&& final(self).repo_view() == m.insert(
                        client_id,
                        m[client_id].spec_release(amount),
                    )
                    &&& r is Ok
                }
            }),
    ;

    /// Adds `amount` to the available balance.
    fn deposit(&mut self, client_id: u16, amount: i64) -> (r: LedgerResult<()>)
        requires
            old(self).repo_wf(),
        ensures
            final(self).repo_wf(),
            final(self).repo_order() == old(self).repo_order(),
            ({
                let m = old(self).repo_view();
                if !m.dom().contains(client_id) {
                    &&& final(self).repo_view() == m
                    &&& (r matches Err(e) && (
                    e.kind matches LedgerErrorKind::DoesNotExist(msg) && msg@
                        == "account does not exist"@))
                } else if m[client_id].locked {
                    &&& final(self).repo_view() == m
                    &&& (r matches Err(e) && (
                    e.kind matches LedgerErrorKind::RepositoryError(msg) && msg@
                        == "account is locked"@))
                } else if !m[client_id].spec_deposit_fits(amount) {
                    &&& final(self).repo_view() == m
                    &&& (r matches Err(e) && (
                    e.kind matches LedgerErrorKind::RepositoryError(msg) && msg@
                        == "amount out of range"@))
                } else {
                    &&& final(self).repo_view() == m.insert(
                        client_id,
                        m[client_id].spec_deposit(amount),
                    )
                    &&& r is Ok
                }
            }),
    ;

    /// Removes `amount` from the available balance, refusing to go below
    /// the available funds.
    fn withdraw(&mut self, client_id: u16, amount: i64) -> (r: LedgerResult<()>)
        requires
            old(self).repo_wf(),
        ensures
            final(self).repo_wf(),
            final(self).repo_order() == old(self).repo_order(),
            ({
                let m = old(self).repo_view();
                if !m.dom().contains(client_id) {
                    &&& final(self).repo_view() == m
                    &&& (r matches Err(e) && (
                    e.kind matches LedgerErrorKind::DoesNotExist(msg) && msg@
                        == "account does not exist"@))
                } else if m[client_id].locked {
                    &&& final(self).repo_view() == m
                    &&& (r matches Err(e) && (
                    e.kind matches LedgerErrorKind::RepositoryError(msg) && msg@
                        == "account is locked"@))
                } else if amount > m[client_id].available {
                    &&& final(self).repo_view() == m
                    &&& (r matches Err(e) && (
                    e.kind matches LedgerErrorKind::RepositoryError(msg) && msg@
                        == "insufficient funds"@))
                } else if !m[client_id].spec_withdraw_fits(amount) {
                    &&& final(self).repo_view() == m
                    &&& (r matches Err(e) && (
                    e.kind matches LedgerErrorKind::RepositoryError(msg) && msg@
                        == "amount out of range"@))
                } else {
                    &&& final(self).repo_view() == m.insert(
                        client_id,
                        m[client_id].spec_withdraw(amount),
                    )
                    &&& r is Ok
                }
            }),
    ;

    /// Removes `amount` from the held balance and permanently locks the
    /// account (the chargeback effect). Deliberately allowed to leave a
    /// negative balance behind.
    fn withdraw_and_lock(&mut self, client_id: u16, amount: i64) -> (r: LedgerResult<()>)
        requires
            old(self).repo_wf(),
        ensures
            final(self).repo_wf(),
            final(self).repo_order() == old(self).repo_order(),
            ({
                let m = old(self).repo_view();
                if !m.dom().contains(client_id) {
                    &&& final(self).repo_view() == m
                    &&& (r matches Err(e) && (
                    e.kind matches LedgerErrorKind::DoesNotExist(msg) && msg@
                        == "account does not exist"@))
                } else if m[client_id].locked {
                    &&& final(self).repo_view() == m
                    &&& (r matches Err(e) && (
                    e.kind matches LedgerErrorKind::RepositoryError(msg) && msg@
                        == "account is locked"@))
                } else if !m[client_id].spec_withdraw_and_lock_fits(amount) {
                    &&& final(self).repo_view() == m
                    &&& (r matches Err(e) && (
                    e.kind matches LedgerErrorKind::RepositoryError(msg) && msg@
                        == "amount out of range"@))
                } else {
                    &&& final(self).repo_view() == m.insert(
                        client_id,
                        m[client_id].spec_withdraw_and_lock(amount),
                    )
                    &&& r is Ok
                }
            }),
    ;

    /// A read-only snapshot of every account ever touched, in first-touch
    /// order, one summary per client, each with `total = available + held`.
    fn dump_accounts(&self) -> (r: LedgerResult<Vec<AccountSummary>>)
        requires
            self.repo_wf(),
        ensures
            (r matches Ok(v) && {
                &&& v@.len() == self.repo_order().len()
                &&& forall|i: int|
                    0 <= i < v@.len() ==> #[trigger] v@[i] == AccountSummary::spec_of(
                        self.repo_view()[self.repo_order()[i]],
                    )
                &&& forall|i: int|
                    0 <= i < v@.len() ==> self.repo_view().dom().contains(
                        #[trigger] self.repo_order()[i],
                    )
                &&& self.repo_order().no_duplicates()
                &&& forall|c: u16|
                    self.repo_view().dom().contains(c) <==> #[trigger] self.repo_order().contains(
                        c,
                    )
            }),
    ;
}

/// Exclusive owner of a booking table, and the transaction processor over
/// it: one call takes a transaction end to end against any account store.
pub trait BookingRepository: Sized {
    /// The booking table this store owns.
    spec fn book_view(&self) -> Map<u32, Booking>;

    /// The store's internal invariant.
    spec fn book_wf(&self) -> bool;

    /// Processes one transaction end to end, exactly as the `step` model
    /// prescribes: the account is created on first touch and checked for
    /// its lock; the booking is created (validating the amount) or loaded
    /// and checked for its lock and owner; the transaction type is checked
    /// against the booking's state; then the one balance effect and the
    /// one booking update are applied. Any failure leaves every balance
    /// untouched.
    fn process_tx<A: AccountRepository>(&mut self, accounts: &mut A, tx: Tx) -> (r: LedgerResult<
        (),
    >)
        requires
            old(self).book_wf(),
            old(accounts).repo_wf(),
        ensures
            final(self).book_wf(),
            final(accounts).repo_wf(),
            final(accounts).repo_view() == step(
                old(accounts).repo_view(),
                old(self).book_view(),
                tx,
            ).accounts,
            final(self).book_view() == step(
                old(accounts).repo_view(),
                old(self).book_view(),
                tx,
            ).bookings,
            (r is Ok <==> step(old(accounts).repo_view(), old(self).book_view(), tx).outcome
                == TxOutcome::Accepted),
            (r matches Err(e) ==> (
            e.kind matches LedgerErrorKind::RepositoryError(msg) && msg@ == outcome_message(
                step(old(accounts).repo_view(), old(self).book_view(), tx).outcome,
            ))),
            old(accounts).repo_view().dom().contains(tx.client_id) ==> final(accounts).repo_order()
                == old(accounts).repo_order(),
            !old(accounts).repo_view().dom().contains(tx.client_id) ==> final(accounts).repo_order()
                == old(accounts).repo_order().push(tx.client_id),
    ;
}

} // verus!
