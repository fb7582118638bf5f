//! The one error type of the coordination layer.

use vstd::prelude::*;

verus! {

/// `std::io::Error`, carried through unopened.
#[verifier::external_type_specification]
#[verifier::external_body]
pub struct ExIoError(std::io::Error);

/// The metadata broker could not answer a read.
#[derive(Debug)]
pub struct MetaDataBrokerError {
    pub message: String,
}

/// The metadata broker could not apply a write.
#[derive(Debug)]
pub struct MetaManipulationBrokerError {
    pub message: String,
}

/// The wire client could not complete a command against a proxy.
#[derive(Debug)]
pub struct RedisClientError {
    pub message: String,
}

/// Everything that can go wrong while coordinating.
#[derive(Debug)]
pub enum CoordinateError {
    Io(std::io::Error),
    MetaMani(MetaManipulationBrokerError),
    MetaData(MetaDataBrokerError),
    Redis(RedisClientError),
    InvalidReply,
}

impl CoordinateError {
    /// The underlying I/O error, for the one variant that wraps one.
    pub open spec fn spec_cause(&self) -> Option<&std::io::Error> {
        match self {
            CoordinateError::Io(err) => Some(err),
            _ => None,
        }
    }

    /// A fixed, human-readable name for this family of errors.
    pub fn description(&self) -> (text: &'static str)
        ensures
            text@ == "coordinate error"@,
    {
        "coordinate error"
    }

    /// The lower-level error behind this one, if it wraps one.
    pub fn cause(&self) -> (source: Option<&std::io::Error>)
        ensures
            source == self.spec_cause(),
    {
        match self {
            CoordinateError::Io(err) => Some(err),
            _ => None,
        }
    }
}

} // verus!
