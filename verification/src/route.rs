//! The topic router: parses an inbound bus topic string into a route —
//! a command kind plus a device identifier — independent of any payload.
//!
//! The grammar, with segments separated by `/`, is
//! `"devices" / <device-id> / <action> [ / <subaction> ]`, where the
//! action is one of `power`, `brightness`, `color`, `state`, and the
//! only admitted subaction is `toggle` under `power`.  Anything else —
//! a wrong root segment, a missing segment, an unknown action, or an
//! extra trailing segment — yields no route at all: unparseable topics
//! are simply not for us.

use vstd::prelude::*;
use vstd::string::*;
use crate::text::str_eq;

verus! {

/// The command kind a route selects.
#[derive(Clone, Copy, Debug, PartialEq, Eq, Structural)]
pub enum Kind {
    Power,
    Toggle,
    Brightness,
    Color,
    State,
}

/// The decoded intent extracted from a bus topic string: a command
/// kind together with the device identifier the topic names.
#[derive(Clone, Debug, PartialEq, Eq)]
pub enum Route {
    Power(String),
    Toggle(String),
    Brightness(String),
    Color(String),
    State(String),
}

impl Route {
    /// The command kind of this route.
    pub open spec fn kind(self) -> Kind {
        match self {
            Route::Power(_) => Kind::Power,
            Route::Toggle(_) => Kind::Toggle,
            Route::Brightness(_) => Kind::Brightness,
            Route::Color(_) => Kind::Color,
            Route::State(_) => Kind::State,
        }
    }

    /// The device identifier this route names.
    pub open spec fn device_view(self) -> Seq<char> {
        match self {
            Route::Power(d) => d@,
            Route::Toggle(d) => d@,
            Route::Brightness(d) => d@,
            Route::Color(d) => d@,
            Route::State(d) => d@,
        }
    }
}

/// The end of the topic segment starting at `i`: the index of the next
/// `/`, or the end of the string.
pub open spec fn seg_end(t: Seq<char>, i: int) -> int
    decreases t.len() - i,
{
    if i < 0 || i >= t.len() {
        t.len() as int
    } else if t[i] == '/' {
        i
    } else {
        seg_end(t, i + 1)
    }
}

/// The route a topic string decodes to, if any: the decision table of
/// the wire contract, applied top to bottom.
pub open spec fn spec_route(t: Seq<char>) -> Option<(Kind, Seq<char>)> {
    let e0 = seg_end(t, 0);
    if t.subrange(0, e0) != "devices"@ || e0 == t.len() {
        None
    } else {
        let e1 = seg_end(t, e0 + 1);
        if e1 == t.len() {
            None
        } else {
            let d = t.subrange(e0 + 1, e1);
            let e2 = seg_end(t, e1 + 1);
            let action = t.subrange(e1 + 1, e2);
            if e2 == t.len() {
                if action == "power"@ {
                    Some((Kind::Power, d))
                } else if action == "brightness"@ {
                    Some((Kind::Brightness, d))
                } else if action == "color"@ {
                    Some((Kind::Color, d))
                } else if action == "state"@ {
                    Some((Kind::State, d))
                } else {
                    None
                }
            } else {
                let e3 = seg_end(t, e2 + 1);
                if e3 == t.len() && action == "power"@ && t.subrange(e2 + 1, e3) == "toggle"@ {
                    Some((Kind::Toggle, d))
                } else {
                    None
                }
            }
        }
    }
}

/// Finds the end of the topic segment starting at `i`.
fn seg_end_exec(t: &str, i: usize) -> (e: usize)
    requires
        i <= t@.len(),
    ensures
        e == seg_end(t@, i as int),
        i <= e <= t@.len(),
{
    let len = t.unicode_len();
    let mut j: usize = i;
    while j < len
        invariant
            i <= j <= len,
            len == t@.len(),
            seg_end(t@, i as int) == seg_end(t@, j as int),
        decreases len - j,
    {
        if t.get_char(j) == '/' {
            return j;
        }
        j += 1;
    }
    j
}

impl Route {
    /// Parses a topic string into a route, or `None` where the topic
    /// does not follow the wire grammar.
    pub fn try_parse(t: &str) -> (r: Option<Route>)
        ensures
            match r {
                Some(route) => spec_route(t@) == Some((route.kind(), route.device_view())),
                None => spec_route(t@) is None,
            },
    {
        let len = t.unicode_len();
        let e0 = seg_end_exec(t, 0);
        if !str_eq(t.substring_char(0, e0), "devices") || e0 == len {
            return None;
        }
        let e1 = seg_end_exec(t, e0 + 1);
        if e1 == len {
            return None;
        }
        let device = String::from_str(t.substring_char(e0 + 1, e1));
        let e2 = seg_end_exec(t, e1 + 1);
        let action = t.substring_char(e1 + 1, e2);
        if e2 == len {
            if str_eq(action, "power") {
                Some(Route::Power(device))
            } else if str_eq(action, "brightness") {
                Some(Route::Brightness(device))
            } else if str_eq(action, "color") {
                Some(Route::Color(device))
            } else if str_eq(action, "state") {
                Some(Route::State(device))
            } else {
                None
            }
        } else {
            let e3 = seg_end_exec(t, e2 + 1);
            if e3 == len && str_eq(action, "power") && str_eq(t.substring_char(e2 + 1, e3), "toggle") {
                Some(Route::Toggle(device))
            } else {
                None
            }
        }
    }
}

/// A device identifier that can stand in a topic unambiguously: one
/// holding no segment separator.
pub open spec fn no_slash(d: Seq<char>) -> bool {
    forall|i: int| 0 <= i < d.len() ==> d[i] != '/'
}

/// Does the string hold no segment separator?
pub fn no_slash_exec(s: &str) -> (b: bool)
    ensures
        b == no_slash(s@),
{
    let len = s.unicode_len();
    let mut i: usize = 0;
    while i < len
        invariant
            i <= len,
            len == s@.len(),
            forall|j: int| 0 <= j < i ==> s@[j] != '/',
        decreases len - i,
    {
        if s.get_char(i) == '/' {
            return false;
        }
        i += 1;
    }
    true
}

/// `seg_end` stops exactly at the separator (or end) that closes a
/// separator-free stretch.
proof fn lemma_seg_end_at(t: Seq<char>, i: int, e: int)
    requires
        0 <= i <= e <= t.len(),
        forall|j: int| i <= j < e ==> t[j] != '/',
        e == t.len() || t[e] == '/',
    ensures
        seg_end(t, i) == e,
    decreases e - i,
{
    if i < e {
        lemma_seg_end_at(t, i + 1, e);
    }
}

/// A three-segment topic `devices/<d>/<a>` routes by the decision
/// table on the action `a`, with the device segment handed through
/// verbatim.
pub proof fn lemma_route_three(d: Seq<char>, a: Seq<char>)
    requires
        no_slash(d),
        no_slash(a),
        a.len() > 0,
    ensures
        ({
            let t = "devices/"@ + d + "/"@ + a;
            spec_route(t) == if a == "power"@ {
                Some((Kind::Power, d))
            } else if a == "brightness"@ {
                Some((Kind::Brightness, d))
            } else if a == "color"@ {
                Some((Kind::Color, d))
            } else if a == "state"@ {
                Some((Kind::State, d))
            } else {
                None::<(Kind, Seq<char>)>
            }
        }),
{
    reveal_strlit("devices/");
    reveal_strlit("devices");
    reveal_strlit("/");
    let t = "devices/"@ + d + "/"@ + a;
    let dlen = d.len() as int;
    assert(t.len() == 9 + dlen + a.len());
    assert(t[7] == '/');
    lemma_seg_end_at(t, 0, 7);
    assert(t.subrange(0, 7) =~= "devices"@);
    assert(t[8 + dlen] == '/');
    lemma_seg_end_at(t, 8, 8 + dlen);
    assert(t.subrange(8, 8 + dlen) =~= d);
    lemma_seg_end_at(t, 9 + dlen, t.len() as int);
    assert(t.subrange(9 + dlen, t.len() as int) =~= a);
}

/// The four-segment topic `devices/<d>/power/toggle` routes to the
/// toggle command for `d`.
pub proof fn lemma_route_toggle(d: Seq<char>)
    requires
        no_slash(d),
    ensures
        spec_route("devices/"@ + d + "/power/toggle"@) == Some((Kind::Toggle, d)),
{
    reveal_strlit("devices/");
    reveal_strlit("devices");
    reveal_strlit("/power/toggle");
    reveal_strlit("power");
    reveal_strlit("toggle");
    let t = "devices/"@ + d + "/power/toggle"@;
    let dlen = d.len() as int;
    assert(t.len() == 21 + dlen);
    assert(t[7] == '/');
    lemma_seg_end_at(t, 0, 7);
    assert(t.subrange(0, 7) =~= "devices"@);
    assert(t[8 + dlen] == '/');
    lemma_seg_end_at(t, 8, 8 + dlen);
    assert(t.subrange(8, 8 + dlen) =~= d);
    assert(t[14 + dlen] == '/');
    assert(forall|j: int| 9 + dlen <= j < 14 + dlen ==> t[j] != '/');
    lemma_seg_end_at(t, 9 + dlen, 14 + dlen);
    assert(t.subrange(9 + dlen, 14 + dlen) =~= "power"@);
    assert(forall|j: int| 15 + dlen <= j < 21 + dlen ==> t[j] != '/');
    lemma_seg_end_at(t, 15 + dlen, 21 + dlen);
    assert(t.subrange(15 + dlen, 21 + dlen) =~= "toggle"@);
}

} // verus!
