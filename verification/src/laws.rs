//! The ledger's cross-cutting guarantees, proved once and for all over the
//! `step` model: locked accounts and locked bookings are inert, a dispute
//! holds funds at most once, a transaction never touches a stranger's
//! account, and every summary balances.

use vstd::prelude::*;
use crate::account::{Account, AccountSummary};
use crate::amount::fits_i64;
use crate::booking::{Booking, BookingState};
use crate::transition::{step, with_account, TxOutcome};
use crate::tx::{Tx, TxType};

verus! {

/// Every summary balances: the reported total is exactly the reported
/// available funds plus the reported held funds.
pub proof fn lemma_summary_balance(a: Account)
    requires
        fits_i64(a.spec_total()),
    ensures
        AccountSummary::spec_of(a).total@ == AccountSummary::spec_of(a).available@
            + AccountSummary::spec_of(a).held@,
{
}

/// Once an account's lock is set, a transaction naming that client is
/// rejected as `AccountLocked` and leaves every account and every booking
/// exactly as it was — the locked client's balances never change again.
pub proof fn lemma_locked_account_rejected(
    accounts: Map<u16, Account>,
    bookings: Map<u32, Booking>,
    tx: Tx,
)
    requires
        accounts.dom().contains(tx.client_id),
        accounts[tx.client_id].locked,
    ensures
        step(accounts, bookings, tx).outcome == TxOutcome::AccountLocked,
        step(accounts, bookings, tx).accounts == accounts,
        step(accounts, bookings, tx).bookings == bookings,
{
}

/// Once an account's lock is set, no transaction whatsoever changes that
/// account again: its available funds, held funds and total are exactly
/// as they were, whichever client and transaction id the transaction
/// names.
pub proof fn lemma_locked_account_never_changes(
    accounts: Map<u16, Account>,
    bookings: Map<u32, Booking>,
    tx: Tx,
    c: u16,
)
    requires
        accounts.dom().contains(c),
        accounts[c].locked,
    ensures
        step(accounts, bookings, tx).accounts.dom().contains(c),
        step(accounts, bookings, tx).accounts[c] == accounts[c],
{
    if c == tx.client_id {
        lemma_locked_account_rejected(accounts, bookings, tx);
    } else {
        lemma_step_accounts_frame(accounts, bookings, tx, c);
    }
}

/// A transaction can only ever touch the account of the client it names:
/// every other client's entry is exactly as it was.
pub proof fn lemma_step_accounts_frame(
    accounts: Map<u16, Account>,
    bookings: Map<u32, Booking>,
    tx: Tx,
    c: u16,
)
    requires
        c != tx.client_id,
    ensures
        step(accounts, bookings, tx).accounts.dom().contains(c) == accounts.dom().contains(c),
        accounts.dom().contains(c) ==> step(accounts, bookings, tx).accounts[c] == accounts[c],
{
}

/// A transaction can only ever touch the booking of the transaction id it
/// bears: every other booking is exactly as it was.
pub proof fn lemma_step_bookings_frame(
    accounts: Map<u16, Account>,
    bookings: Map<u32, Booking>,
    tx: Tx,
    t: u32,
)
    requires
        t != tx.tx_id,
    ensures
        step(accounts, bookings, tx).bookings.dom().contains(t) == bookings.dom().contains(t),
        bookings.dom().contains(t) ==> step(accounts, bookings, tx).bookings[t] == bookings[t],
{
}

/// Once a booking's lock is set, a transaction bearing that transaction id
/// changes no account state: no balance moves and no existing account is
/// touched — at most the named client's zeroed account springs into
/// existence — and the booking table is exactly as it was.
pub proof fn lemma_locked_booking_rejected(
    accounts: Map<u16, Account>,
    bookings: Map<u32, Booking>,
    tx: Tx,
)
    requires
        bookings.dom().contains(tx.tx_id),
        bookings[tx.tx_id].locked,
    ensures
        step(accounts, bookings, tx).outcome != TxOutcome::Accepted,
        step(accounts, bookings, tx).accounts == with_account(accounts, tx.client_id),
        accounts.dom().contains(tx.client_id) ==> step(accounts, bookings, tx).accounts
            == accounts,
        step(accounts, bookings, tx).bookings == bookings,
{
}

/// A dispute is applied at most once: after a dispute was accepted,
/// submitting the very same dispute again is rejected as `NotAllowed` and
/// changes neither table, so its hold effect happens exactly once.
pub proof fn lemma_dispute_at_most_once(
    accounts: Map<u16, Account>,
    bookings: Map<u32, Booking>,
    tx: Tx,
)
    requires
        tx.tx_type is Dispute,
        step(accounts, bookings, tx).outcome == TxOutcome::Accepted,
    ensures
        step(
            step(accounts, bookings, tx).accounts,
            step(accounts, bookings, tx).bookings,
            tx,
        ).outcome == TxOutcome::NotAllowed,
        step(
            step(accounts, bookings, tx).accounts,
            step(accounts, bookings, tx).bookings,
            tx,
        ).accounts == step(accounts, bookings, tx).accounts,
        step(
            step(accounts, bookings, tx).accounts,
            step(accounts, bookings, tx).bookings,
            tx,
        ).bookings == step(accounts, bookings, tx).bookings,
{
}

/// A resolve aimed at a booking that is still `Pristine` — created by a
/// deposit or withdrawal whose balance effect never succeeded — is
/// rejected as `NotAllowed`, and no account state changes.
pub proof fn lemma_resolve_pristine_rejected(
    accounts: Map<u16, Account>,
    bookings: Map<u32, Booking>,
    tx: Tx,
)
    requires
        tx.tx_type is Resolve,
        bookings.dom().contains(tx.tx_id),
        bookings[tx.tx_id].state == BookingState::Pristine,
        !bookings[tx.tx_id].locked,
        bookings[tx.tx_id].client_id == tx.client_id,
        accounts.dom().contains(tx.client_id) ==> !accounts[tx.client_id].locked,
        accounts.dom().contains(tx.client_id) ==> accounts[tx.client_id].id == tx.client_id,
    ensures
        step(accounts, bookings, tx).outcome == TxOutcome::NotAllowed,
        step(accounts, bookings, tx).accounts == with_account(accounts, tx.client_id),
        accounts.dom().contains(tx.client_id) ==> step(accounts, bookings, tx).accounts
            == accounts,
        step(accounts, bookings, tx).bookings == bookings,
{
}

} // verus!
