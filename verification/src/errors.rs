//! The ledger's failure taxonomy. Every failure a store or the processor can
//! report is a `LedgerError` wrapping a `LedgerErrorKind` with a short
//! message; no failure is ever fatal to a run.

use vstd::prelude::*;
use vstd::string::StringExecFns;

verus! {

/// The kind of a ledger failure, with a human-readable message.
#[derive(Debug)]
pub enum LedgerErrorKind {
    /// A referenced entity was absent although presence was required.
    DoesNotExist(String),
    /// A store refused the operation (locks, funds, malformed amounts).
    RepositoryError(String),
    /// A failure raised above the store layer.
    ServiceError(String),
}

impl LedgerErrorKind {
    /// Wraps this kind into a `LedgerError`.
    pub fn into_err(self) -> (r: LedgerError)
        ensures
            r.kind == self,
    {
        LedgerError { kind: self }
    }

    /// The text a caller would report for this kind.
    pub fn message(&self) -> (r: String)
        ensures
            (self matches LedgerErrorKind::DoesNotExist(m) ==> r@ == m@ + " does not exist"@),
            (self matches LedgerErrorKind::RepositoryError(m) ==> r@ == "Repository error: "@
                + m@),
            (self matches LedgerErrorKind::ServiceError(m) ==> r@ == "Service error: "@ + m@),
    {
        match self {
            LedgerErrorKind::DoesNotExist(m) => {
                let mut s = m.clone();
                s.append(" does not exist");
                s
            },
            LedgerErrorKind::RepositoryError(m) => {
                let mut s = "Repository error: ".to_owned();
                s.append(m.as_str());
                s
            },
            LedgerErrorKind::ServiceError(m) => {
                let mut s = "Service error: ".to_owned();
                s.append(m.as_str());
                s
            },
        }
    }
}

/// A failure returned to the caller of a per-transaction operation.
#[derive(Debug)]
pub struct LedgerError {
    pub kind: LedgerErrorKind,
}

impl LedgerError {
    /// An error for an entity that was required to exist but does not.
    pub fn doesnt_exist(msg: &str) -> (r: Self)
        ensures
            (r.kind matches LedgerErrorKind::DoesNotExist(m) && m@ == msg@),
    {
        LedgerErrorKind::DoesNotExist(msg.to_owned()).into_err()
    }

    /// An error raised by one of the stores.
    pub fn repository_error(msg: &str) -> (r: Self)
        ensures
            (r.kind matches LedgerErrorKind::RepositoryError(m) && m@ == msg@),
    {
        LedgerErrorKind::RepositoryError(msg.to_owned()).into_err()
    }

    /// An error raised above the store layer.
    pub fn service_error(msg: &str) -> (r: Self)
        ensures
            (r.kind matches LedgerErrorKind::ServiceError(m) && m@ == msg@),
    {
        LedgerErrorKind::ServiceError(msg.to_owned()).into_err()
    }

    /// The kind of this error.
    pub fn kind(&self) -> (r: &LedgerErrorKind)
        ensures
            r == &self.kind,
    {
        &self.kind
    }

    /// The text a caller would report for this error.
    pub fn message(&self) -> (r: String)
        ensures
            (self.kind matches LedgerErrorKind::DoesNotExist(m) ==> r@ == m@
                + " does not exist"@),
            (self.kind matches LedgerErrorKind::RepositoryError(m) ==> r@
                == "Repository error: "@ + m@),
            (self.kind matches LedgerErrorKind::ServiceError(m) ==> r@ == "Service error: "@
                + m@),
    {
        self.kind.message()
    }
}

pub type LedgerResult<T> = Result<T, LedgerError>;

} // verus!
