//! Per-transaction lifecycle records. A booking is created on the first
//! deposit or withdrawal carrying a transaction id and then driven through
//! a small state machine by later transactions with the same id; a locked
//! booking refuses every further transition.

use vstd::prelude::*;

verus! {

/// The state-machine state of one booking.
#[derive(Debug, Clone, Copy, PartialEq, Eq, Structural)]
pub enum BookingState {
    Pristine,
    Normal,
    Disputed,
    Resolved,
    Chargeback,
}

/// The lifecycle record for a single transaction id.
#[derive(Debug, Clone, Copy, PartialEq, Eq, Structural)]
pub struct Booking {
    pub tx_id: u32,
    pub client_id: u16,
    pub amount: i64,
    pub locked: bool,
    pub state: BookingState,
}

impl Booking {
    /// A fresh booking: `Pristine`, unlocked, amount and client fixed.
    pub open spec fn spec_new(tx_id: u32, client_id: u16, amount: i64) -> Booking {
        Booking { tx_id, client_id, amount, locked: false, state: BookingState::Pristine }
    }

    /// This booking moved to `state`, leaving the lock as it is.
    pub open spec fn spec_with_state(self, state: BookingState) -> Booking {
        Booking { state, ..self }
    }

    /// This booking moved to `state` and permanently locked.
    pub open spec fn spec_with_state_locked(self, state: BookingState) -> Booking {
        Booking { state, locked: true, ..self }
    }

    pub fn new(tx_id: u32, client_id: u16, amount: i64) -> (r: Self)
        ensures
            r == Self::spec_new(tx_id, client_id, amount),
    {
        Self { tx_id, client_id, amount, locked: false, state: BookingState::Pristine }
    }

    pub fn set_state(&mut self, state: BookingState)
        ensures
            *final(self) == old(self).spec_with_state(state),
    {
        self.state = state;
    }

    pub fn set_state_and_lock(&mut self, state: BookingState)
        ensures
            *final(self) == old(self).spec_with_state_locked(state),
    {
        self.set_state(state);
        self.locked = true;
    }

    pub fn get_client_id(&self) -> (r: u16)
        ensures
            r == self.client_id,
    {
        self.client_id
    }

    pub fn get_amount(&self) -> (r: i64)
        ensures
            r == self.amount,
    {
        self.amount
    }

    pub fn get_state(&self) -> (r: BookingState)
        ensures
            r == self.state,
    {
        self.state
    }

    pub fn is_locked(&self) -> (r: bool)
        ensures
            r == self.locked,
    {
        self.locked
    }
}

} // verus!
