//! Verified core of a smart-lighting command bridge.
//!
//! The crate models the pieces of the bridge that carry real logic:
//! a device registry addressed by name, alias or position; a codec
//! between in-process command values and wire (topic, payload) pairs;
//! a router that turns inbound topic strings into routes; and the
//! dispatcher that ties the three together for every inbound message.
//! All I/O (the message bus, the vendor HTTP client, the configuration
//! store) stays outside this crate and consumes the values produced
//! here.

pub mod bridge;
pub mod cli;
pub mod config;
pub mod device;
pub mod error;
pub mod json;
pub mod message;
pub mod parse;
pub mod route;
pub mod source;
pub mod text;
pub mod turn;
