//! The failures that the operations report, and what of them a caller outside
//! may learn.

use vstd::prelude::*;

verus! {

/// Why an operation failed.
#[derive(Copy, Clone, Debug, PartialEq, Eq, Structural)]
pub enum ServerError {
    /// An account with the same normalised email address exists already.
    DuplicateEmail,
    /// The password could not be hashed.
    HashingFailure,
    /// No token was sent, or the token is malformed or not signed by us.
    Unauthenticated,
    /// The token is ours but its expiry has passed.
    ExpiredToken,
    /// The task does not exist.
    NotFound,
    /// The task exists and belongs to another account.
    Forbidden,
    /// The store refused the write.
    StoreError,
}

pub type ServerResult<T> = Result<T, ServerError>;

/// What a failure looks like from outside.
#[derive(Copy, Clone, Debug, PartialEq, Eq, Structural)]
pub enum Signal {
    /// The email address is taken.
    DuplicateEmail,
    /// The caller must log in (again).
    LoginRequired,
    /// The caller may not change the task, whether or not there is one.
    NotPermitted,
    /// Something failed on our side; no detail is given.
    ServerFailure,
}

impl ServerError {
    /// The outward face of each failure. A missing task and a task of
    /// another account look alike, so that nobody can probe which tasks
    /// exist; the two token failures both ask for a login; failures of
    /// hashing and of the store show no detail.
    pub open spec fn outward(self) -> Signal {
        match self {
            ServerError::DuplicateEmail => Signal::DuplicateEmail,
            ServerError::Unauthenticated | ServerError::ExpiredToken => Signal::LoginRequired,
            ServerError::NotFound | ServerError::Forbidden => Signal::NotPermitted,
            ServerError::HashingFailure | ServerError::StoreError => Signal::ServerFailure,
        }
    }

    pub fn signal(&self) -> (signal: Signal)
        ensures
            signal == self.outward(),
    {
        match self {
            ServerError::DuplicateEmail => Signal::DuplicateEmail,
            ServerError::Unauthenticated | ServerError::ExpiredToken => Signal::LoginRequired,
            ServerError::NotFound | ServerError::Forbidden => Signal::NotPermitted,
            ServerError::HashingFailure | ServerError::StoreError => Signal::ServerFailure,
        }
    }

    /// A short description, free of internal detail.
    pub fn describe(&self) -> (text: &'static str)
        ensures
            text@ == match self.outward() {
                Signal::DuplicateEmail => "email address already registered"@,
                Signal::LoginRequired => "authentication required"@,
                Signal::NotPermitted => "not permitted"@,
                Signal::ServerFailure => "internal server error"@,
            },
    {
        match self.signal() {
            Signal::DuplicateEmail => "email address already registered",
            Signal::LoginRequired => "authentication required",
            Signal::NotPermitted => "not permitted",
            Signal::ServerFailure => "internal server error",
        }
    }
}

} // verus!
