//! Transaction records as the processor receives them from the input
//! adapter: a type, a client id, a transaction id, and an amount present
//! only for deposits and withdrawals.

use vstd::prelude::*;
use crate::amount::Amount;

verus! {

/// The five transaction types the ledger understands.
#[derive(Debug, Clone, Copy, PartialEq, Eq, Structural)]
pub enum TxType {
    Deposit,
    Withdrawal,
    Dispute,
    Resolve,
    Chargeback,
}

/// One transaction, in the order the caller supplies them.
#[derive(Debug, Clone, Copy, PartialEq)]
pub struct Tx {
    pub tx_id: u32,
    pub client_id: u16,
    pub tx_type: TxType,
    pub amount: Option<Amount>,
}

} // verus!
