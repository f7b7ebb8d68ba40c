//! The error kinds of the service.

use vstd::prelude::*;
use vstd::string::StringExecFns;

verus! {

/// Why an operation of the service failed.
///
/// A guard failure (`NotBmc`, `InvalidService`) aborts the whole invocation.
/// Every other kind, when it reaches the boundary of the service, is turned
/// into a failure response whose text is [`BshError::description`].
#[derive(Clone, Copy, Debug, PartialEq, Eq, Structural)]
pub enum BshError {
    /// Anything that has no kind of its own.
    Unknown,
    /// The payload of an inbound message is not a well-formed service message.
    DecodeFailed,
    /// The caller of an inbound entry point is not the registered relay.
    NotBmc,
    /// The service name of an inbound message is not the name of this service.
    InvalidService,
    /// A string is not of the form `network/account`.
    InvalidAddress,
}

impl BshError {
    /// The text of [`BshError::description`].
    pub open spec fn description_spec(self) -> Seq<char> {
        match self {
            BshError::Unknown => "Unknown"@,
            BshError::DecodeFailed => "DecodeFailed"@,
            BshError::NotBmc => "NotBmc"@,
            BshError::InvalidService => "InvalidService"@,
            BshError::InvalidAddress => "InvalidAddress"@,
        }
    }

    /// The human-readable text that a failure response carries for this kind.
    pub fn description(&self) -> (text: String)
        ensures
            text@ == self.description_spec(),
    {
        match self {
            BshError::Unknown => String::from_str("Unknown"),
            BshError::DecodeFailed => String::from_str("DecodeFailed"),
            BshError::NotBmc => String::from_str("NotBmc"),
            BshError::InvalidService => String::from_str("InvalidService"),
            BshError::InvalidAddress => String::from_str("InvalidAddress"),
        }
    }
}

} // verus!
