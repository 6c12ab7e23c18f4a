//! Devices as the registry holds them.

use vstd::prelude::*;

verus! {

/// The kind of a device, together with its capability-specific target
/// selector.  The selector is opaque to this crate: it is only ever
/// handed on to the external capability provider.
#[derive(Clone, Debug, PartialEq, Eq)]
pub enum Type {
    /// A LIFX light bulb, addressed by a vendor selector string.
    LifxBulb { selector: String },
}

/// A controllable lighting endpoint.
#[derive(Clone, Debug, PartialEq, Eq)]
pub struct Device {
    /// The device type and any appropriate configuration.
    pub kind: Type,
    /// The device name.
    pub name: String,
    /// A list of alternative names for the device.
    pub alternatives: Option<Vec<String>>,
}

} // verus!
