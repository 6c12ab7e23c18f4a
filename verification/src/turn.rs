//! Resolving a turn request against the registry.

use vstd::prelude::*;
use vstd::string::*;
use crate::config::{spec_find, Config};
use crate::error::TurnError;
use crate::parse::{parse_state, spec_power_state};
use crate::text::lower;

verus! {

/// Resolves a request to turn `device` to `state` into the position
/// of the device to drive and the target power state to hand to its
/// capability.  Where `device` resolves to nothing but `state` does
/// resolve and `device` names a power state, the two arguments are
/// taken as transposed.  Driving the capability itself — a network
/// call — is the caller's to do.
pub fn turn(cfg: &Config, device: &str, state: &str) -> (r: Result<(usize, bool), TurnError>)
    ensures
        match spec_find(cfg.devices@, device@) {
            Some(i) => match spec_power_state(state@) {
                Some(t) => r matches Ok(p) && p.0 == i && p.1 == t,
                None => r matches Err(TurnError::UnrecognizedState(u)) && u@ == lower(state@),
            },
            None => {
                if spec_find(cfg.devices@, state@) is Some && spec_power_state(device@) is Some {
                    match spec_find(cfg.devices@, state@) {
                        Some(i) => r matches Ok(p) && p.0 == i && spec_power_state(device@)
                            == Some(p.1),
                        None => false,
                    }
                } else {
                    r matches Err(TurnError::DeviceNotFound(d)) && d@ == device@
                }
            },
        },
{
    match cfg.find_index(device) {
        Some(i) => match parse_state(state) {
            Ok(target) => Ok((i, target)),
            Err(e) => Err(e),
        },
        None => {
            if cfg.find_index(state).is_some() && parse_state(device).is_ok() {
                match cfg.find_index(state) {
                    Some(i) => match parse_state(device) {
                        Ok(target) => Ok((i, target)),
                        Err(_) => Err(TurnError::DeviceNotFound(String::from_str(device))),
                    },
                    None => Err(TurnError::DeviceNotFound(String::from_str(device))),
                }
            } else {
                Err(TurnError::DeviceNotFound(String::from_str(device)))
            }
        },
    }
}

} // verus!
