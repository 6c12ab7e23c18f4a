//! Abstractions for information sources.

use vstd::prelude::*;

verus! {

/// Encodes information which may be retrieved from a device: a marker
/// for the notification values a sensor yields.  The asynchronous
/// sensor abstraction built on top of this — a stream of notifications
/// — lives outside this crate, with the rest of the async plumbing.
pub trait Notification {

}

} // verus!
