//! The ledger facade: owns the two stores and exposes exactly two
//! operations to external callers — process one transaction, and dump a
//! snapshot of every account ever touched.

use vstd::prelude::*;
use crate::account::{Account, AccountSummary};
use crate::account_repo::InMemoryAccountRepository;
use crate::repository::{AccountRepository, BookingRepository};
use crate::booking::Booking;
use crate::booking_repo::InMemoryBookingRepository;
use crate::errors::{LedgerErrorKind, LedgerResult};
use crate::transition::{step, TxOutcome, outcome_message};
use crate::tx::Tx;

verus! {

/// The transaction engine: the account store, the booking store, and the
/// processor wired together.
pub struct Ledger {
    account_repo: InMemoryAccountRepository,
    booking_repo: InMemoryBookingRepository,
}

impl Ledger {
    /// The account table.
    pub closed spec fn accounts(&self) -> Map<u16, Account> {
        self.account_repo.repo_view()
    }

    /// The booking table.
    pub closed spec fn bookings(&self) -> Map<u32, Booking> {
        self.booking_repo.book_view()
    }

    /// The clients of the account table in first-touch order.
    pub closed spec fn client_order(&self) -> Seq<u16> {
        self.account_repo.repo_order()
    }

    /// Both stores are well-formed.
    pub closed spec fn wf(&self) -> bool {
        self.account_repo.repo_wf() && self.booking_repo.book_wf()
    }

    /// Composes a ledger from its two stores.
    pub fn new(
        account_repo: InMemoryAccountRepository,
        booking_repo: InMemoryBookingRepository,
    ) -> (r: Self)
        requires
            account_repo.repo_wf(),
            booking_repo.book_wf(),
        ensures
            r.wf(),
            r.accounts() == account_repo.repo_view(),
            r.bookings() == booking_repo.book_view(),
            r.client_order() == account_repo.repo_order(),
    {
        Self { account_repo, booking_repo }
    }

    /// A ledger with two empty stores.
    pub fn new_in_memory() -> (r: Self)
        ensures
            r.wf(),
            r.accounts() == Map::<u16, Account>::empty(),
            r.bookings() == Map::<u32, Booking>::empty(),
            r.client_order() == Seq::<u16>::empty(),
    {
        Self {
            account_repo: InMemoryAccountRepository::new(),
            booking_repo: InMemoryBookingRepository::new(),
        }
    }

    /// Processes one transaction as the `step` model prescribes; a failure
    /// is returned to the caller and never aborts the run.
    pub fn process_tx(&mut self, tx: Tx) -> (r: LedgerResult<()>)
        requires
            old(self).wf(),
        ensures
            final(self).wf(),
            final(self).accounts() == step(old(self).accounts(), old(self).bookings(), tx).accounts,
            final(self).bookings() == step(old(self).accounts(), old(self).bookings(), tx).bookings,
            (r is Ok <==> step(old(self).accounts(), old(self).bookings(), tx).outcome
                == TxOutcome::Accepted),
            (r matches Err(e) ==> (
            e.kind matches LedgerErrorKind::RepositoryError(msg) && msg@ == outcome_message(
                step(old(self).accounts(), old(self).bookings(), tx).outcome,
            ))),
            old(self).accounts().dom().contains(tx.client_id) ==> final(self).client_order() == old(
                self,
            ).client_order(),
            !old(self).accounts().dom().contains(tx.client_id) ==> final(self).client_order()
                == old(self).client_order().push(tx.client_id),
    {
        self.booking_repo.process_tx(&mut self.account_repo, tx)
    }

    /// A read-only snapshot of every account ever touched, one summary per
    /// client in first-touch order, each with `total = available + held`.
    pub fn dump_accounts(&self) -> (r: LedgerResult<Vec<AccountSummary>>)
        requires
            self.wf(),
        ensures
            (r matches Ok(v) && {
                &&& v@.len() == self.client_order().len()
                &&& forall|i: int|
                    0 <= i < v@.len() ==> #[trigger] v@[i] == AccountSummary::spec_of(
                        self.accounts()[self.client_order()[i]],
                    )
                &&& forall|i: int|
                    0 <= i < v@.len() ==> self.accounts().dom().contains(
                        #[trigger] self.client_order()[i],
                    )
                &&& self.client_order().no_duplicates()
                &&& forall|c: u16|
                    self.accounts().dom().contains(c) <==> #[trigger] self.client_order().contains(
                        c,
                    )
            }),
    {
        self.account_repo.dump_accounts()
    }
}

} // verus!
