//! The library's error kinds.
use vstd::prelude::*;

verus! {

/// What can go wrong in the library.
#[derive(Debug, Clone, PartialEq, Eq)]
pub enum RustdisError {
    /// The store's lock could not be acquired.
    LockAcquisition(String),
    /// The input does not decode to a valid command.
    MalformedCommand(String),
}

impl RustdisError {
    /// The human-readable description carried by the error.
    pub fn message(&self) -> (r: String)
        ensures
            r@ == self.message_view(),
    {
        match self {
            RustdisError::LockAcquisition(m) => m.clone(),
            RustdisError::MalformedCommand(m) => m.clone(),
        }
    }

    /// The description, as characters.
    pub open spec fn message_view(&self) -> Seq<char> {
        match self {
            RustdisError::LockAcquisition(m) => m@,
            RustdisError::MalformedCommand(m) => m@,
        }
    }
}

} // verus!
