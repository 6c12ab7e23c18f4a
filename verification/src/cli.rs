//! Building messages from command-line style arguments.
//!
//! A user asking to turn a device may transpose the device and the
//! state; where the nominal state names no power state but the
//! nominal device does, the two are swapped before giving up.

use vstd::prelude::*;
use crate::error::TurnError;
use crate::message::{Message, MessageView};
use crate::parse::{power_state, spec_power_state};

verus! {

/// Builds the power message that turns `device` to `state`.  Where
/// `state` names no power state but `device` does, the two arguments
/// are taken as transposed; where neither does, the state is reported
/// as unrecognized.
pub fn turn(device: String, state: String) -> (r: Result<Option<Message>, TurnError>)
    ensures
        match spec_power_state(state@) {
            Some(t) => r matches Ok(Some(m)) && m@ == (MessageView::Power {
                device: device@,
                target: t,
            }),
            None => match spec_power_state(device@) {
                Some(t) => r matches Ok(Some(m)) && m@ == (MessageView::Power {
                    device: state@,
                    target: t,
                }),
                None => r matches Err(TurnError::UnrecognizedState(u)) && u@ == state@,
            },
        },
{
    match power_state(state.as_str()) {
        Some(target) => Ok(Some(Message::Power { device, target })),
        None => match power_state(device.as_str()) {
            Some(target) => Ok(Some(Message::Power { device: state, target })),
            None => Err(TurnError::UnrecognizedState(state)),
        },
    }
}

/// Builds the toggle message for `device`.
pub fn toggle(device: String) -> (r: Result<Option<Message>, TurnError>)
    ensures
        r matches Ok(Some(m)) && m@ == (MessageView::Toggle { device: device@ }),
{
    Ok(Some(Message::Toggle { device }))
}

} // verus!
