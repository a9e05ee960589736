//! Failures that the bridge reports.

use vstd::prelude::*;

verus! {

/// A configuration value that cannot be used; fatal at startup.
#[derive(Debug, Clone, PartialEq, Eq)]
pub enum ConfigError {
    /// The hardware address is malformed; `token` is the part of it at fault.
    InvalidAddress { token: String },
}

impl ConfigError {
    /// The offending part of the address text.
    pub open spec fn offending(self) -> Seq<char> {
        match self {
            ConfigError::InvalidAddress { token } => token@,
        }
    }

    /// The offending part of the address text.
    pub fn token(&self) -> (t: &String)
        ensures
            t@ == self.offending(),
    {
        match self {
            ConfigError::InvalidAddress { token } => token,
        }
    }
}

/// The platform did not accept the declaration of the command; fatal at
/// startup.
#[derive(Debug, Clone, Copy, PartialEq, Eq)]
pub struct RegistrationError;

} // verus!
