use vstd::prelude::*;

verus! {

/// Why a token was turned away.
#[derive(Debug, Clone, Copy, PartialEq, Eq, Structural)]
pub enum AdmissionError {
    /// The token is malformed or its signature does not match.
    InvalidToken,
    /// The token is past its recorded expiry.
    ExpiredToken,
    /// The token's identifier stands in the revocation ledger.
    RevokedToken,
    /// An administrator was required and the token does not claim to be one.
    InsufficientPrivilege,
    /// The account the token speaks for is no longer in the credential store.
    UnknownSubject,
}

/// Every way an operation of this library can fail.
#[derive(Debug, Clone, Copy, PartialEq, Eq, Structural)]
pub enum Failure {
    /// A malformed identifier or payload: the caller's mistake, never retried.
    InvalidInput,
    /// The entity the request names does not exist.
    NotFound,
    /// The token was refused.
    Admission(AdmissionError),
    /// A call to the store failed; the caller may repeat the operation.
    PersistenceError,
    /// A compensating write failed too, so the two sides may now disagree.
    PartialFailure,
}

/// The stable classes a request layer reports failures under.
#[derive(Debug, Clone, Copy, PartialEq, Eq, Structural)]
pub enum StatusCategory {
    BadInput,
    NotFound,
    Forbidden,
    Conflict,
    TransientServerError,
}

impl Failure {
    /// The class of a failure, by its kind alone.
    pub open spec fn spec_category(self) -> StatusCategory {
        match self {
            Failure::InvalidInput => StatusCategory::BadInput,
            Failure::NotFound => StatusCategory::NotFound,
            Failure::Admission(_) => StatusCategory::Forbidden,
            Failure::PersistenceError => StatusCategory::TransientServerError,
            Failure::PartialFailure => StatusCategory::Conflict,
        }
    }

    /// Sorts a failure into its status class without looking at any text.
    #[verifier::when_used_as_spec(spec_category)]
    pub fn category(self) -> (c: StatusCategory)
        ensures
            c == self.spec_category(),
    {
        match self {
            Failure::InvalidInput => StatusCategory::BadInput,
            Failure::NotFound => StatusCategory::NotFound,
            Failure::Admission(_) => StatusCategory::Forbidden,
            Failure::PersistenceError => StatusCategory::TransientServerError,
            Failure::PartialFailure => StatusCategory::Conflict,
        }
    }

    /// Whether repeating the operation unchanged can help.
    pub fn is_retryable(self) -> (b: bool)
        ensures
            b == (self == Failure::PersistenceError),
    {
        match self {
            Failure::PersistenceError => true,
            _ => false,
        }
    }
}

} // verus!
