//! What can go wrong on a channel.

use vstd::prelude::*;

verus! {

/// `std::io::Error`, carried through as an opaque value.
#[verifier::external_type_specification]
#[verifier::external_body]
pub struct ExIoError(std::io::Error);

/// `std::sync::PoisonError`, carried through as an opaque value.
#[verifier::external_type_specification]
#[verifier::external_body]
#[verifier::reject_recursive_types(T)]
pub struct ExPoisonError<T>(std::sync::PoisonError<T>);

/// Why an operation on the channel failed.
#[derive(Debug)]
pub enum StruartError {
    /// The device could not be opened or configured, or a write or a flush
    /// failed or timed out. Carries the cause as the device reported it.
    IO(std::io::Error),
    /// The lock that guards the line in progress was left poisoned by a
    /// panic elsewhere. Bytes collected so far should be taken as lost.
    RwLockPoisoned,
}

impl StruartError {
    /// A message for people: the cause's own words for a device failure,
    /// a fixed sentence for a poisoned lock.
    pub fn message(&self) -> (text: String)
        ensures
            match self {
                StruartError::IO(cause) => vstd::string::to_string_from_display_ensures::<
                    std::io::Error,
                >(cause, text),
                StruartError::RwLockPoisoned => text@ == "RwLock was Poisoned"@,
            },
    {
        match self {
            StruartError::IO(cause) => cause.to_string(),
            StruartError::RwLockPoisoned => "RwLock was Poisoned".to_owned(),
        }
    }
}

impl From<std::io::Error> for StruartError {
    /// A device failure becomes `IO`, cause kept.
    fn from(cause: std::io::Error) -> (error: Self) {
        StruartError::IO(cause)
    }
}

impl vstd::std_specs::convert::FromSpecImpl<std::io::Error> for StruartError {
    open spec fn obeys_from_spec() -> bool {
        true
    }

    open spec fn from_spec(cause: std::io::Error) -> Self {
        StruartError::IO(cause)
    }
}

impl<T> From<std::sync::PoisonError<T>> for StruartError {
    /// A lock found poisoned becomes `RwLockPoisoned`, whatever it guarded.
    fn from(cause: std::sync::PoisonError<T>) -> (error: Self) {
        StruartError::RwLockPoisoned
    }
}

impl<T> vstd::std_specs::convert::FromSpecImpl<std::sync::PoisonError<T>> for StruartError {
    open spec fn obeys_from_spec() -> bool {
        true
    }

    open spec fn from_spec(cause: std::sync::PoisonError<T>) -> Self {
        StruartError::RwLockPoisoned
    }
}

} // verus!
