//! The in-memory booking store and the transaction processor. The
//! processor decides whether a transaction is legal against the current
//! account and booking state, applies exactly the balance effect its type
//! prescribes, and advances the booking's state — all verified against the
//! `step` model in `transition`.

use vstd::prelude::*;
use std::collections::HashMap;
use crate::booking::{Booking, BookingState};
use crate::errors::{LedgerError, LedgerErrorKind, LedgerResult};
use crate::repository::{AccountRepository, BookingRepository};
use crate::tx::{Tx, TxType};

verus! {

broadcast use vstd::std_specs::hash::group_hash_axioms;

/// Whether every booking in the table sits under its own transaction id
/// with the non-negative amount it was created with.
pub open spec fn booking_map_wf(m: Map<u32, Booking>) -> bool {
    forall|t: u32| #[trigger] m.dom().contains(t) ==> m[t].tx_id == t && m[t].amount >= 0
}

/// The booking table: exclusive owner of every booking ever created.
pub struct InMemoryBookingRepository {
    bookings: HashMap<u32, Booking>,
}

impl InMemoryBookingRepository {
    pub fn new() -> (r: Self)
        ensures
            r.book_wf(),
            r.book_view() == Map::<u32, Booking>::empty(),
    {
        let r = InMemoryBookingRepository { bookings: HashMap::new() };
        proof {
            assert(r.bookings@.dom() =~= Set::<u32>::empty());
        }
        r
    }

    /// Returns the booking stored under `tx.tx_id`, or validates the
    /// transaction's amount (present, non-negative), creates a `Pristine`
    /// booking from it and stores it. An existing booking is returned as
    /// it is; the supplied client and amount matter only at creation.
    pub fn get_or_create_booking(&mut self, tx: Tx) -> (r: LedgerResult<Booking>)
        requires
            old(self).book_wf(),
        ensures
            final(self).book_wf(),
            ({
                let m = old(self).book_view();
                if m.dom().contains(tx.tx_id) {
                    &&& final(self).book_view() == m
                    &&& (r matches Ok(b) && b == m[tx.tx_id])
                } else if tx.amount is None {
                    &&& final(self).book_view() == m
                    &&& (r matches Err(e) && (
                    e.kind matches LedgerErrorKind::RepositoryError(msg) && msg@
                        == "missing amount"@))
                } else if (tx.amount->Some_0).0 < 0 {
                    &&& final(self).book_view() == m
                    &&& (r matches Err(e) && (
                    e.kind matches LedgerErrorKind::RepositoryError(msg) && msg@
                        == "negative amount"@))
                } else {
                    &&& final(self).book_view() == m.insert(
                        tx.tx_id,
                        Booking::spec_new(tx.tx_id, tx.client_id, (tx.amount->Some_0).0),
                    )
                    &&& (r matches Ok(b) && b == Booking::spec_new(
                        tx.tx_id,
                        tx.client_id,
                        (tx.amount->Some_0).0,
                    ))
                }
            }),
    {
        if self.bookings.contains_key(&tx.tx_id) {
            Ok(*self.bookings.get(&tx.tx_id).unwrap())
        } else {
            let amount = match tx.amount {
                Some(a) => a.to_i64(),
                None => {
                    return Err(booking_err("missing amount"));
                },
            };
            if amount < 0 {
                return Err(booking_err("negative amount"));
            }
            let b = Booking::new(tx.tx_id, tx.client_id, amount);
            self.bookings.insert(tx.tx_id, b);
            Ok(b)
        }
    }

    /// Replaces the booking stored under `tx_id`.
    fn update_booking(&mut self, tx_id: u32, booking: Booking) -> (r: LedgerResult<()>)
        requires
            old(self).book_wf(),
            booking.tx_id == tx_id,
            booking.amount >= 0,
        ensures
            final(self).book_wf(),
            final(self).book_view() == old(self).book_view().insert(tx_id, booking),
            r is Ok,
    {
        self.bookings.insert(tx_id, booking);
        Ok(())
    }
}

impl BookingRepository for InMemoryBookingRepository {
    closed spec fn book_view(&self) -> Map<u32, Booking> {
        self.bookings@
    }

    closed spec fn book_wf(&self) -> bool {
        booking_map_wf(self.bookings@)
    }

    fn process_tx<A: AccountRepository>(&mut self, accounts: &mut A, tx: Tx) -> (r: LedgerResult<
        (),
    >) {
        // Check if the account exists; if not, create a new one.
        let account = match accounts.get_or_create_account(tx.client_id) {
            Ok(a) => a,
            Err(e) => {
                return Err(e);
            },
        };

        // A permanently locked account accepts nothing further.
        if account.is_locked() {
            return wrapped_booking_err("account is locked");
        }

        // Load or create the booking; a locked booking refuses everything.
        let mut booking = match self.get_or_create_booking(tx) {
            Ok(b) => b,
            Err(e) => {
                return Err(e);
            },
        };
        if booking.is_locked() {
            return wrapped_booking_err("booking is locked");
        }

        // A later transaction must not reuse a tx id under another client.
        if booking.get_client_id() != account.get_client_id() {
            return wrapped_booking_err("invalid transaction");
        }

        match tx.tx_type {
            // Deposit if the booking is pristine.
            TxType::Deposit => {
                if let Err(e) = is_allowed_state(booking, BookingState::Pristine) {
                    return Err(e);
                }
                if let Err(e) = accounts.deposit(booking.get_client_id(), booking.get_amount()) {
                    return Err(e);
                }
                booking.set_state(BookingState::Normal);
            },
            // The account store decides whether a withdrawal is possible.
            // A withdrawal locks its booking: it cannot be disputed.
            TxType::Withdrawal => {
                if let Err(e) = is_allowed_state(booking, BookingState::Pristine) {
                    return Err(e);
                }
                if let Err(e) = accounts.withdraw(booking.get_client_id(), booking.get_amount()) {
                    return Err(e);
                }
                booking.set_state_and_lock(BookingState::Normal);
            },
            // A dispute holds the booked funds.
            TxType::Dispute => {
                if let Err(e) = is_allowed_state(booking, BookingState::Normal) {
                    return Err(e);
                }
                if let Err(e) = accounts.hold(booking.get_client_id(), booking.get_amount()) {
                    return Err(e);
                }
                booking.set_state(BookingState::Disputed);
            },
            // A resolve releases the held funds and closes the booking.
            TxType::Resolve => {
                if let Err(e) = is_allowed_state(booking, BookingState::Disputed) {
                    return Err(e);
                }
                if let Err(e) = accounts.release(booking.get_client_id(), booking.get_amount()) {
                    return Err(e);
                }
                booking.set_state_and_lock(BookingState::Resolved);
            },
            // A chargeback removes the held funds and locks the account,
            // even when that leaves the balance negative.
            TxType::Chargeback => {
                if let Err(e) = is_allowed_state(booking, BookingState::Disputed) {
                    return Err(e);
                }
                if let Err(e) = accounts.withdraw_and_lock(
                    booking.get_client_id(),
                    booking.get_amount(),
                ) {
                    return Err(e);
                }
                booking.set_state_and_lock(BookingState::Chargeback);
            },
        }

        self.update_booking(tx.tx_id, booking)
    }
}

/// Checks that a booking occupies the state a transaction type demands.
fn is_allowed_state(current_booking: Booking, expected_state: BookingState) -> (r: LedgerResult<
    (),
>)
    ensures
        (r is Ok <==> current_booking.state == expected_state),
        (r matches Err(e) ==> (
        e.kind matches LedgerErrorKind::RepositoryError(msg) && msg@
            == "transaction is not allowed"@)),
{
    if current_booking.get_state() != expected_state {
        return wrapped_booking_err("transaction is not allowed");
    }
    Ok(())
}

/// A repository error carrying `msg`.
fn booking_err(msg: &str) -> (r: LedgerError)
    ensures
        (r.kind matches LedgerErrorKind::RepositoryError(m) && m@ == msg@),
{
    LedgerError::repository_error(msg)
}

/// An `Err` wrapping a repository error with `msg`.
fn wrapped_booking_err(msg: &str) -> (r: Result<(), LedgerError>)
    ensures
        (r matches Err(e) && (e.kind matches LedgerErrorKind::RepositoryError(m) && m@ == msg@)),
{
    Err(booking_err(msg))
}

} // verus!
