//! Shared utilities for validating/parsing user input.

use vstd::prelude::*;
use vstd::string::*;
use crate::error::TurnError;
use crate::text::{lower, lower_char_exec, str_eq};

verus! {

/// Relies on `String::push`: appends one character to the string.
#[verifier::external_body]
fn push_char(s: &mut String, c: char)
    ensures
        final(s)@ == old(s)@.push(c),
{
    s.push(c)
}

/// ASCII lower-casing of a whole string, character by character.
pub fn ascii_lowercase(s: &str) -> (r: String)
    ensures
        r@ == lower(s@),
{
    let len = s.unicode_len();
    let mut r = String::new();
    let mut i: usize = 0;
    while i < len
        invariant
            i <= len,
            len == s@.len(),
            r@.len() == i,
            forall|j: int| 0 <= j < i ==> r@[j] == lower(s@)[j],
        decreases len - i,
    {
        push_char(&mut r, lower_char_exec(s.get_char(i)));
        i += 1;
    }
    proof {
        assert(r@ =~= lower(s@));
    }
    r
}

/// The target power state a user-passed string denotes: `on` and `1`
/// ask for power on, `off` and `0` for power off, anything else (up to
/// ASCII case) for nothing.
pub open spec fn spec_power_state(s: Seq<char>) -> Option<bool> {
    if lower(s) == "on"@ || lower(s) == "1"@ {
        Some(true)
    } else if lower(s) == "off"@ || lower(s) == "0"@ {
        Some(false)
    } else {
        None
    }
}

/// Attempts to parse the (user-passed) string as a target power state.
pub fn power_state(s: &str) -> (r: Option<bool>)
    ensures
        r == spec_power_state(s@),
{
    let low = ascii_lowercase(s);
    if str_eq(low.as_str(), "on") || str_eq(low.as_str(), "1") {
        Some(true)
    } else if str_eq(low.as_str(), "off") || str_eq(low.as_str(), "0") {
        Some(false)
    } else {
        None
    }
}

/// Parses the (user-passed) string as a target power state, reporting
/// the lower-cased input where it names no state.
pub fn parse_state(s: &str) -> (r: Result<bool, TurnError>)
    ensures
        match r {
            Ok(b) => spec_power_state(s@) == Some(b),
            Err(e) => {
                &&& spec_power_state(s@) is None
                &&& e matches TurnError::UnrecognizedState(t) && t@ == lower(s@)
            },
        },
{
    let low = ascii_lowercase(s);
    if str_eq(low.as_str(), "on") || str_eq(low.as_str(), "1") {
        Ok(true)
    } else if str_eq(low.as_str(), "off") || str_eq(low.as_str(), "0") {
        Ok(false)
    } else {
        Err(TurnError::UnrecognizedState(low))
    }
}

} // verus!
