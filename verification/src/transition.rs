//! The mathematical model of transaction processing: given the account
//! table, the booking table, and one transaction, `step` says exactly which
//! outcome the processor reports and what both tables look like afterwards.
//! The executable stores and processor are verified against this model.

use vstd::prelude::*;
use crate::account::Account;
use crate::amount::fits_i64;
use crate::booking::{Booking, BookingState};
use crate::tx::{Tx, TxType};

verus! {

/// How processing one transaction ends.
#[derive(Debug, Clone, Copy, PartialEq, Eq, Structural)]
pub enum TxOutcome {
    /// The transaction was legal and its balance effect was applied.
    Accepted,
    /// The client's account was permanently locked by a prior chargeback.
    AccountLocked,
    /// A first-seen transaction id arrived without an amount.
    MissingAmount,
    /// A first-seen transaction id arrived with a negative amount.
    NegativeAmount,
    /// The booking was permanently locked by a prior transition.
    BookingLocked,
    /// The booking belongs to a different client than the transaction names.
    ClientMismatch,
    /// The booking's current state does not permit this transaction type.
    NotAllowed,
    /// A withdrawal asked for more than the available balance.
    InsufficientFunds,
    /// The balance effect would leave the 64-bit range.
    OutOfRange,
}

/// The two tables and the outcome after one processing step.
pub struct StepResult {
    pub accounts: Map<u16, Account>,
    pub bookings: Map<u32, Booking>,
    pub outcome: TxOutcome,
}

/// The account table once `client_id` is guaranteed present: untouched if
/// the client exists, otherwise extended with a zeroed account.
pub open spec fn with_account(accounts: Map<u16, Account>, client_id: u16) -> Map<u16, Account> {
    if accounts.dom().contains(client_id) {
        accounts
    } else {
        accounts.insert(client_id, Account::spec_new(client_id))
    }
}

/// The booking table once `tx.tx_id` is guaranteed present: untouched if
/// the booking exists, otherwise extended with a fresh `Pristine` booking
/// carrying the transaction's client and amount.
pub open spec fn with_booking(bookings: Map<u32, Booking>, tx: Tx) -> Map<u32, Booking> {
    if bookings.dom().contains(tx.tx_id) {
        bookings
    } else {
        bookings.insert(tx.tx_id, Booking::spec_new(tx.tx_id, tx.client_id, (tx.amount->Some_0).0))
    }
}

/// The booking state a transaction type must find in place.
pub open spec fn required_state(t: TxType) -> BookingState {
    match t {
        TxType::Deposit => BookingState::Pristine,
        TxType::Withdrawal => BookingState::Pristine,
        TxType::Dispute => BookingState::Normal,
        TxType::Resolve => BookingState::Disputed,
        TxType::Chargeback => BookingState::Disputed,
    }
}

/// Whether the balance effect of `t` for `amt` keeps every stored field and
/// the derived total inside the 64-bit range.
pub open spec fn effect_fits(a: Account, t: TxType, amt: i64) -> bool {
    match t {
        TxType::Deposit => a.spec_deposit_fits(amt),
        TxType::Withdrawal => a.spec_withdraw_fits(amt),
        TxType::Dispute => a.spec_hold_fits(amt),
        TxType::Resolve => a.spec_release_fits(amt),
        TxType::Chargeback => a.spec_withdraw_and_lock_fits(amt),
    }
}

/// The account after the balance effect of `t` for `amt`.
pub open spec fn apply_effect(a: Account, t: TxType, amt: i64) -> Account {
    match t {
        TxType::Deposit => a.spec_deposit(amt),
        TxType::Withdrawal => a.spec_withdraw(amt),
        TxType::Dispute => a.spec_hold(amt),
        TxType::Resolve => a.spec_release(amt),
        TxType::Chargeback => a.spec_withdraw_and_lock(amt),
    }
}

/// The booking after a successful transaction of type `t`: withdrawals,
/// resolves and chargebacks lock the booking for good.
pub open spec fn next_booking(b: Booking, t: TxType) -> Booking {
    match t {
        TxType::Deposit => b.spec_with_state(BookingState::Normal),
        TxType::Withdrawal => b.spec_with_state_locked(BookingState::Normal),
        TxType::Dispute => b.spec_with_state(BookingState::Disputed),
        TxType::Resolve => b.spec_with_state_locked(BookingState::Resolved),
        TxType::Chargeback => b.spec_with_state_locked(BookingState::Chargeback),
    }
}

/// One end-to-end processing step. The checks run in the processor's order:
/// account creation persists whatever happens later; booking creation
/// persists once the amount was validated; no failure applies any balance
/// effect; a success applies exactly one account mutation and one booking
/// update.
pub open spec fn step(accounts0: Map<u16, Account>, bookings0: Map<u32, Booking>, tx: Tx) -> StepResult {
    let accounts = with_account(accounts0, tx.client_id);
    let a = accounts[tx.client_id];
    if a.locked {
        StepResult { accounts, bookings: bookings0, outcome: TxOutcome::AccountLocked }
    } else if !bookings0.dom().contains(tx.tx_id) && tx.amount is None {
        StepResult { accounts, bookings: bookings0, outcome: TxOutcome::MissingAmount }
    } else if !bookings0.dom().contains(tx.tx_id) && (tx.amount->Some_0).0 < 0 {
        StepResult { accounts, bookings: bookings0, outcome: TxOutcome::NegativeAmount }
    } else {
        let bookings = with_booking(bookings0, tx);
        let b = bookings[tx.tx_id];
        if b.locked {
            StepResult { accounts, bookings, outcome: TxOutcome::BookingLocked }
        } else if b.client_id != a.id {
            StepResult { accounts, bookings, outcome: TxOutcome::ClientMismatch }
        } else if b.state != required_state(tx.tx_type) {
            StepResult { accounts, bookings, outcome: TxOutcome::NotAllowed }
        } else if tx.tx_type is Withdrawal && b.amount > a.available {
            StepResult { accounts, bookings, outcome: TxOutcome::InsufficientFunds }
        } else if !effect_fits(a, tx.tx_type, b.amount) {
            StepResult { accounts, bookings, outcome: TxOutcome::OutOfRange }
        } else {
            StepResult {
                accounts: accounts.insert(tx.client_id, apply_effect(a, tx.tx_type, b.amount)),
                bookings: bookings.insert(tx.tx_id, next_booking(b, tx.tx_type)),
                outcome: TxOutcome::Accepted,
            }
        }
    }
}

/// The message carried by the error a non-`Accepted` outcome turns into.
pub open spec fn outcome_message(o: TxOutcome) -> Seq<char> {
    match o {
        TxOutcome::Accepted => Seq::empty(),
        TxOutcome::AccountLocked => "account is locked"@,
        TxOutcome::MissingAmount => "missing amount"@,
        TxOutcome::NegativeAmount => "negative amount"@,
        TxOutcome::BookingLocked => "booking is locked"@,
        TxOutcome::ClientMismatch => "invalid transaction"@,
        TxOutcome::NotAllowed => "transaction is not allowed"@,
        TxOutcome::InsufficientFunds => "insufficient funds"@,
        TxOutcome::OutOfRange => "amount out of range"@,
    }
}

} // verus!
