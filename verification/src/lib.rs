//! A small ledger engine: fixed-point amounts, per-client accounts, and a
//! per-transaction booking state machine with exactly-once balance effects.

pub mod account;
pub mod account_repo;
pub mod amount;
pub mod booking;
pub mod booking_repo;
pub mod errors;
pub mod repository;
pub mod laws;
pub mod ledger;
pub mod transition;
pub mod tx;

pub use account::Account;
pub use account::AccountSummary;
pub use account_repo::InMemoryAccountRepository;
pub use amount::Amount;
pub use booking::Booking;
pub use booking::BookingState;
pub use booking_repo::InMemoryBookingRepository;
pub use errors::LedgerError;
pub use errors::LedgerErrorKind;
pub use errors::LedgerResult;
pub use ledger::Ledger;
pub use tx::Tx;
pub use tx::TxType;
