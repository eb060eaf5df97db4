//! Why a search is refused before any probe is made.

use vstd::prelude::*;

verus! {

/// A fault in what the caller asked for.
#[derive(Clone, Copy, Debug, PartialEq, Eq, Structural)]
pub enum ConfigurationError {
    /// The wanted address is not the text of an IPv4 address.
    InvalidAddress,
    /// The wanted address is one that no server can have.
    BlacklistedAddress,
    /// The search was asked to run on no worker at all.
    NoWorkers,
}

impl ConfigurationError {
    /// The message shown for this error.
    pub open spec fn message_spec(self) -> Seq<char> {
        match self {
            ConfigurationError::InvalidAddress => "Invalid IP Address"@,
            ConfigurationError::BlacklistedAddress => "IP Address is blacklisted"@,
            ConfigurationError::NoWorkers => "Thread count must be at least 1"@,
        }
    }

    /// The message shown for this error.
    pub fn message(&self) -> (m: String)
        ensures
            m@ == self.message_spec(),
    {
        match self {
            ConfigurationError::InvalidAddress => String::from_str("Invalid IP Address"),
            ConfigurationError::BlacklistedAddress => String::from_str("IP Address is blacklisted"),
            ConfigurationError::NoWorkers => String::from_str("Thread count must be at least 1"),
        }
    }
}

} // verus!
