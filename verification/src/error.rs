//! The unified error type for command results: a stable machine `code` the
//! frontend switches on, plus a human-readable message.

use vstd::prelude::*;

use crate::text::{concat, owned, push_dec};

verus! {

#[derive(Debug, Clone, PartialEq, Eq)]
pub enum AppError {
    /// Persisted config could not be read/written.
    Store(String),
    /// Wrong credentials, missing profile, profile already exists — anything
    /// the user can fix by typing something different.
    Auth(String),
    /// Too many failed logins; `secs` is the remaining cool-down.
    LockedOut { secs: u64 },
    /// Malformed input caught before it reaches hashing or storage.
    InvalidInput(String),
    /// A bug or an environment failure — never actionable by the user.
    Internal(String),
    /// A device could not be reached or answered unexpectedly.
    Device(String),
    /// A referenced item (usually a saved device) no longer exists.
    NotFound(String),
}

impl AppError {
    pub open spec fn spec_code(&self) -> Seq<char> {
        match self {
            AppError::Store(_) => "store_error"@,
            AppError::Auth(_) => "auth_error"@,
            AppError::LockedOut { .. } => "locked_out"@,
            AppError::InvalidInput(_) => "invalid_input"@,
            AppError::Internal(_) => "internal_error"@,
            AppError::Device(_) => "device_error"@,
            AppError::NotFound(_) => "not_found"@,
        }
    }

    /// The stable machine code the frontend switches on.
    pub fn code(&self) -> (r: &'static str)
        ensures
            r@ == self.spec_code(),
    {
        match self {
            AppError::Store(_) => "store_error",
            AppError::Auth(_) => "auth_error",
            AppError::LockedOut { .. } => "locked_out",
            AppError::InvalidInput(_) => "invalid_input",
            AppError::Internal(_) => "internal_error",
            AppError::Device(_) => "device_error",
            AppError::NotFound(_) => "not_found",
        }
    }

    /// The human-readable message.
    pub fn message(&self) -> (r: String)
        ensures
            match self {
                AppError::Store(m) => r@ == "storage error: "@ + m@,
                AppError::LockedOut { secs } => r@ == "Too many failed attempts. Try again in "@
                    + crate::text::dec(*secs as nat) + "s."@,
                AppError::Auth(m) => r@ == m@,
                AppError::InvalidInput(m) => r@ == m@,
                AppError::Internal(m) => r@ == m@,
                AppError::Device(m) => r@ == m@,
                AppError::NotFound(m) => r@ == m@,
            },
    {
        match self {
            AppError::Store(m) => concat("storage error: ", m.as_str()),
            AppError::LockedOut { secs } => {
                let mut r = owned("Too many failed attempts. Try again in ");
                push_dec(&mut r, *secs);
                r.append("s.");
                r
            },
            AppError::Auth(m) => m.clone(),
            AppError::InvalidInput(m) => m.clone(),
            AppError::Internal(m) => m.clone(),
            AppError::Device(m) => m.clone(),
            AppError::NotFound(m) => m.clone(),
        }
    }
}

} // verus!
