use crate::challenge::CaptchaChallenge;
use std::sync::PoisonError;
use vstd::prelude::*;
use vstd::std_specs::convert::FromSpecImpl;

verus! {

/// The failure reported by the operating system when a directory or file
/// could not be read. Its contents are opaque to the proofs.
#[verifier::external_type_specification]
#[verifier::external_body]
pub struct ExIoError(std::io::Error);

/// The standard library's report that an earlier holder of a lock panicked.
#[verifier::external_type_specification]
#[verifier::external_body]
#[verifier::reject_recursive_types(T)]
pub struct ExPoisonError<T>(PoisonError<T>);

/// Everything that can go wrong while loading models or serving a prediction.
#[derive(Debug)]
pub enum Error {
    /// The models directory, or an entry of it, could not be read.
    IOError(std::io::Error),
    /// The inference runtime rejected a model or failed to run it; the
    /// payload is the runtime's numeric status code.
    TensorflowError(u32),
    /// The directory of this challenge holds no serialized model.
    ModelLoad(CaptchaChallenge),
    /// A name that is not a member of the challenge catalog.
    StrumParseError,
    /// The lock around a model was poisoned by a panic in an earlier holder.
    MutexError,
    /// A prediction was requested for a challenge that no model was loaded for.
    CategoryNotLoaded(CaptchaChallenge),
}

pub type Result<T, E = Error> = std::result::Result<T, E>;

impl From<std::io::Error> for Error {
    fn from(source: std::io::Error) -> (e: Error) {
        Error::IOError(source)
    }
}

impl FromSpecImpl<std::io::Error> for Error {
    open spec fn obeys_from_spec() -> bool {
        true
    }

    open spec fn from_spec(source: std::io::Error) -> Error {
        Error::IOError(source)
    }
}

impl<T> From<PoisonError<T>> for Error {
    fn from(poisoned: PoisonError<T>) -> (e: Error) {
        Error::MutexError
    }
}

impl<T> FromSpecImpl<PoisonError<T>> for Error {
    open spec fn obeys_from_spec() -> bool {
        true
    }

    open spec fn from_spec(poisoned: PoisonError<T>) -> Error {
        Error::MutexError
    }
}

} // verus!
