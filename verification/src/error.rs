//! Error handling.

use vstd::prelude::*;

verus! {

/// Represents an error encountered while turning a device on or off.
#[derive(Debug, Clone, PartialEq, Eq)]
pub enum TurnError {
    /// No devices matched the given specifier.
    DeviceNotFound(String),
    /// The target state could not be parsed.
    ///
    /// To turn *on* a device, use a state of `on` or `1`; to turn
    /// *off* a device, use a state of `off` or `0`.
    UnrecognizedState(String),
    /// The input was parsed correctly, but the client encountered an
    /// error.  The payload is the message text of the vendor client's
    /// error, which this crate treats as opaque.
    LifxiClientError(String),
}

/// Represents an error encountered while changing the configuration.
#[derive(Debug, Clone, PartialEq, Eq)]
pub enum ConfigError {
    /// No devices matched the given specifier.
    DeviceNotFound(String),
    /// An I/O error occured while saving the config.  The payload is
    /// the message text of the store's error, which this crate treats
    /// as opaque.
    Io(String),
}

} // verus!
