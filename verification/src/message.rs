//! Message objects for transit over the wire, and the codec between
//! them and (topic, payload) pairs.
//!
//! A brightness travels as the verbatim bytes of a JSON number token
//! and a color as the verbatim bytes of a JSON string token; this
//! crate frames and checks them but never interprets them.  The
//! payload shape carries no discriminator of its own, so decoding is
//! always directed by the route already parsed from the topic, never
//! inferred from the payload shape.

use vstd::prelude::*;
use vstd::string::*;
use crate::json::{
    is_number_token, is_string_token, key_brightness_vec, key_color_vec, key_target_vec,
    lit_false_vec, lit_null_vec, lit_true_vec, opt_bytes, power_payload_bytes, power_target,
    power_target_exec, state_fields, state_fields_exec, state_payload_bytes, COLON, COMMA,
    LBRACE, RBRACE, lemma_power_payload_round, lemma_state_payload_round,
};
use crate::route::{Kind, Route, no_slash, spec_route, lemma_route_three, lemma_route_toggle};

verus! {

/// The mathematical value of a [`Message`].
pub enum MessageView {
    Power { device: Seq<char>, target: bool },
    Toggle { device: Seq<char> },
    State { device: Seq<char>, color: Option<Seq<u8>>, brightness: Option<Seq<u8>> },
    Brightness { device: Seq<char>, brightness: Seq<u8> },
    Color { device: Seq<char>, color: Seq<u8> },
}

impl MessageView {
    /// The device identifier the message addresses.
    pub open spec fn device(self) -> Seq<char> {
        match self {
            MessageView::Power { device, .. } => device,
            MessageView::Toggle { device } => device,
            MessageView::State { device, .. } => device,
            MessageView::Brightness { device, .. } => device,
            MessageView::Color { device, .. } => device,
        }
    }

    /// The route kind under which the message travels.
    pub open spec fn kind(self) -> Kind {
        match self {
            MessageView::Power { .. } => Kind::Power,
            MessageView::Toggle { .. } => Kind::Toggle,
            MessageView::State { .. } => Kind::State,
            MessageView::Brightness { .. } => Kind::Brightness,
            MessageView::Color { .. } => Kind::Color,
        }
    }

    /// Are the carried value bytes well-formed tokens?  A brightness
    /// must be a JSON number token, a color a JSON string token.
    pub open spec fn wf(self) -> bool {
        match self {
            MessageView::Power { .. } => true,
            MessageView::Toggle { .. } => true,
            MessageView::State { color, brightness, .. } => {
                &&& (color matches Some(c) ==> is_string_token(c))
                &&& (brightness matches Some(b) ==> is_number_token(b))
            },
            MessageView::Brightness { brightness, .. } => is_number_token(brightness),
            MessageView::Color { color, .. } => is_string_token(color),
        }
    }
}

/// A command for a device, as this crate holds it in process.
#[derive(Debug, Clone, PartialEq, Eq)]
pub enum Message {
    /// A message requesting a change in power status.
    Power { device: String, target: bool },
    /// A message requesting a power toggle.
    Toggle { device: String },
    /// A message requesting a combined brightness and color setting.
    State { device: String, color: Option<Vec<u8>>, brightness: Option<Vec<u8>> },
    /// A message requesting a brightness setting.
    Brightness { device: String, brightness: Vec<u8> },
    /// A message requesting a color setting.
    Color { device: String, color: Vec<u8> },
}

impl View for Message {
    type V = MessageView;

    open spec fn view(&self) -> MessageView {
        match self {
            Message::Power { device, target } => MessageView::Power {
                device: device@,
                target: *target,
            },
            Message::Toggle { device } => MessageView::Toggle { device: device@ },
            Message::State { device, color, brightness } => MessageView::State {
                device: device@,
                color: opt_bytes(*color),
                brightness: opt_bytes(*brightness),
            },
            Message::Brightness { device, brightness } => MessageView::Brightness {
                device: device@,
                brightness: brightness@,
            },
            Message::Color { device, color } => MessageView::Color {
                device: device@,
                color: color@,
            },
        }
    }
}

/// The mathematical value of an [`MqttPayload`].
pub enum MqttPayloadView {
    Power { target: bool },
    State { color: Option<Seq<u8>>, brightness: Option<Seq<u8>> },
}

/// A payload body as it travels beside a topic: either the power
/// shape, holding exactly a boolean target, or the state-family shape,
/// holding an optional color and an optional brightness.
#[derive(Debug, Clone, PartialEq, Eq)]
pub enum MqttPayload {
    /// A payload encoding a change in power.
    Power { target: bool },
    /// A payload encoding a color/brightness setting.
    State { color: Option<Vec<u8>>, brightness: Option<Vec<u8>> },
}

impl View for MqttPayload {
    type V = MqttPayloadView;

    open spec fn view(&self) -> MqttPayloadView {
        match self {
            MqttPayload::Power { target } => MqttPayloadView::Power { target: *target },
            MqttPayload::State { color, brightness } => MqttPayloadView::State {
                color: opt_bytes(*color),
                brightness: opt_bytes(*brightness),
            },
        }
    }
}

/// The topic a message travels under.
pub open spec fn spec_topic(m: MessageView) -> Seq<char> {
    match m {
        MessageView::Power { device, .. } => "devices/"@ + device + "/power"@,
        MessageView::Toggle { device } => "devices/"@ + device + "/power/toggle"@,
        MessageView::Brightness { device, .. } => "devices/"@ + device + "/brightness"@,
        MessageView::Color { device, .. } => "devices/"@ + device + "/color"@,
        MessageView::State { device, .. } => "devices/"@ + device + "/state"@,
    }
}

/// The payload a message travels with, before serialization.  A toggle
/// carries none.
pub open spec fn spec_wire_payload(m: MessageView) -> Option<MqttPayloadView> {
    match m {
        MessageView::Power { target, .. } => Some(MqttPayloadView::Power { target }),
        MessageView::Toggle { .. } => None,
        MessageView::Brightness { brightness, .. } => Some(MqttPayloadView::State {
            color: None,
            brightness: Some(brightness),
        }),
        MessageView::Color { color, .. } => Some(MqttPayloadView::State {
            color: Some(color),
            brightness: None,
        }),
        MessageView::State { color, brightness, .. } => Some(MqttPayloadView::State {
            color,
            brightness,
        }),
    }
}

/// The serialized bytes of a payload body.
pub open spec fn payload_bytes(p: MqttPayloadView) -> Seq<u8> {
    match p {
        MqttPayloadView::Power { target } => power_payload_bytes(target),
        MqttPayloadView::State { color, brightness } => state_payload_bytes(color, brightness),
    }
}

/// The serialized payload a message travels with, if any.
pub open spec fn spec_payload(m: MessageView) -> Option<Seq<u8>> {
    match spec_wire_payload(m) {
        Some(p) => Some(payload_bytes(p)),
        None => None,
    }
}

/// Builds `devices/<device><suffix>`.
fn make_topic(device: &str, suffix: &str) -> (t: String)
    ensures
        t@ == "devices/"@ + device@ + suffix@,
{
    let mut t = String::from_str("devices/");
    t.append(device);
    t.append(suffix);
    t
}

impl Message {
    /// Splits a message into the topic it travels under and the
    /// payload body beside it, if any.  A toggle carries no payload.
    pub fn to_wire(self) -> (r: (String, Option<MqttPayload>))
        ensures
            r.0@ == spec_topic(self@),
            match (r.1, spec_wire_payload(self@)) {
                (Some(p), Some(q)) => p@ == q,
                (None, None) => true,
                _ => false,
            },
    {
        match self {
            Message::Power { device, target } => {
                let t = make_topic(device.as_str(), "/power");
                (t, Some(MqttPayload::Power { target }))
            }
            Message::Toggle { device } => {
                let t = make_topic(device.as_str(), "/power/toggle");
                (t, None)
            }
            Message::Brightness { device, brightness } => {
                let t = make_topic(device.as_str(), "/brightness");
                (t, Some(MqttPayload::State { brightness: Some(brightness), color: None }))
            }
            Message::Color { device, color } => {
                let t = make_topic(device.as_str(), "/color");
                (t, Some(MqttPayload::State { color: Some(color), brightness: None }))
            }
            Message::State { device, color, brightness } => {
                let t = make_topic(device.as_str(), "/state");
                (t, Some(MqttPayload::State { brightness, color }))
            }
        }
    }
}

/// Appends the bytes of `src` to `v`.
fn append_bytes(v: &mut Vec<u8>, src: &[u8])
    ensures
        final(v)@ == old(v)@ + src@,
{
    let n = src.len();
    let mut i: usize = 0;
    while i < n
        invariant
            i <= n,
            n == src@.len(),
            v@ == old(v)@ + src@.subrange(0, i as int),
        decreases n - i,
    {
        v.push(src[i]);
        proof {
            assert(old(v)@ + src@.subrange(0, i as int) + seq![src@[i as int]] =~= old(v)@
                + src@.subrange(0, i + 1));
        }
        i += 1;
    }
    proof {
        assert(src@.subrange(0, n as int) =~= src@);
    }
}

impl MqttPayload {
    /// Serializes the payload body into its wire bytes.
    pub fn to_json(&self) -> (v: Vec<u8>)
        ensures
            v@ == payload_bytes(self@),
    {
        let mut v: Vec<u8> = Vec::new();
        v.push(LBRACE);
        match self {
            MqttPayload::Power { target } => {
                let mut key = key_target_vec();
                v.append(&mut key);
                v.push(COLON);
                let mut lit = if *target {
                    lit_true_vec()
                } else {
                    lit_false_vec()
                };
                v.append(&mut lit);
                v.push(RBRACE);
                proof {
                    assert(v@ =~= payload_bytes(self@));
                }
            }
            MqttPayload::State { color, brightness } => {
                let mut key = key_color_vec();
                v.append(&mut key);
                v.push(COLON);
                match color.as_ref() {
                    Some(c) => {
                        append_bytes(&mut v, c.as_slice());
                    }
                    None => {
                        let mut lit = lit_null_vec();
                        v.append(&mut lit);
                    }
                }
                v.push(COMMA);
                let mut key2 = key_brightness_vec();
                v.append(&mut key2);
                v.push(COLON);
                match brightness.as_ref() {
                    Some(b) => {
                        append_bytes(&mut v, b.as_slice());
                    }
                    None => {
                        let mut lit = lit_null_vec();
                        v.append(&mut lit);
                    }
                }
                v.push(RBRACE);
                proof {
                    assert(v@ =~= payload_bytes(self@));
                }
            }
        }
        v
    }
}

impl Message {
    /// Encodes a message as the (topic, payload bytes) pair it travels
    /// as: the outbound half of the wire codec.
    pub fn encode(self) -> (r: (String, Option<Vec<u8>>))
        ensures
            r.0@ == spec_topic(self@),
            opt_bytes(r.1) == spec_payload(self@),
    {
        let ghost m = self@;
        let (topic, payload) = self.to_wire();
        match payload {
            Some(p) => {
                let bytes = p.to_json();
                (topic, Some(bytes))
            }
            None => (topic, None),
        }
    }
}

/// The message a payload decodes to under an already-routed kind and
/// device: the inbound half of the wire codec.  A toggle ignores the
/// payload entirely; the power shape must hold exactly a boolean
/// target; the state-family shapes hold optional color and brightness
/// tokens, of which each route kind uses its own subset — a route
/// whose mandatory field is absent decodes to nothing.
pub open spec fn spec_decode(kind: Kind, device: Seq<char>, payload: Seq<u8>) -> Option<
    MessageView,
> {
    match kind {
        Kind::Toggle => Some(MessageView::Toggle { device }),
        Kind::Power => match power_target(payload) {
            Some(t) => Some(MessageView::Power { device, target: t }),
            None => None,
        },
        Kind::Brightness => match state_fields(payload) {
            Some((_, Some(b))) => Some(MessageView::Brightness { device, brightness: b }),
            _ => None,
        },
        Kind::Color => match state_fields(payload) {
            Some((Some(c), _)) => Some(MessageView::Color { device, color: c }),
            _ => None,
        },
        Kind::State => match state_fields(payload) {
            Some((c, b)) => Some(MessageView::State { device, color: c, brightness: b }),
            None => None,
        },
    }
}

/// Decodes the payload bytes of an inbound message under the route its
/// topic parsed to.
pub fn decode(route: &Route, payload: &[u8]) -> (r: Option<Message>)
    ensures
        match r {
            Some(m) => spec_decode(route.kind(), route.device_view(), payload@) == Some(m@),
            None => spec_decode(route.kind(), route.device_view(), payload@) is None,
        },
{
    match route {
        Route::Toggle(d) => Some(Message::Toggle { device: d.clone() }),
        Route::Power(d) => match power_target_exec(payload) {
            Some(t) => Some(Message::Power { device: d.clone(), target: t }),
            None => None,
        },
        Route::Brightness(d) => match state_fields_exec(payload) {
            Some((_, Some(b))) => Some(Message::Brightness { device: d.clone(), brightness: b }),
            Some((_, None)) => None,
            None => None,
        },
        Route::Color(d) => match state_fields_exec(payload) {
            Some((Some(c), _)) => Some(Message::Color { device: d.clone(), color: c }),
            Some((None, _)) => None,
            None => None,
        },
        Route::State(d) => match state_fields_exec(payload) {
            Some((c, b)) => Some(Message::State { device: d.clone(), color: c, brightness: b }),
            None => None,
        },
    }
}

#[verifier::spinoff_prover]
#[verifier::rlimit(100)]
proof fn lemma_round_trip_power(m: MessageView)
    requires
        m is Power,
        no_slash(m.device()),
    ensures
        spec_route(spec_topic(m)) == Some((m.kind(), m.device())),
        spec_decode(m.kind(), m.device(), spec_payload(m)->0) == Some(m),
{
    match m {
        MessageView::Power { device, target } => {
            reveal_strlit("/power");
            reveal_strlit("/");
            reveal_strlit("power");
            assert(no_slash("power"@));
            assert(spec_topic(m) =~= "devices/"@ + device + "/"@ + "power"@);
            lemma_route_three(device, "power"@);
            lemma_power_payload_round(target);
        }
        _ => {}
    }
}

#[verifier::spinoff_prover]
#[verifier::rlimit(100)]
proof fn lemma_round_trip_brightness(m: MessageView)
    requires
        m is Brightness,
        m.wf(),
        no_slash(m.device()),
    ensures
        spec_route(spec_topic(m)) == Some((m.kind(), m.device())),
        spec_decode(m.kind(), m.device(), spec_payload(m)->0) == Some(m),
{
    match m {
        MessageView::Brightness { device, brightness } => {
            reveal_strlit("/brightness");
            reveal_strlit("/");
            reveal_strlit("brightness");
            reveal_strlit("power");
            assert(no_slash("brightness"@));
            assert("brightness"@ != "power"@) by {
                assert("brightness"@.len() == 10);
                assert("power"@.len() == 5);
            }
            assert(spec_topic(m) =~= "devices/"@ + device + "/"@ + "brightness"@);
            lemma_route_three(device, "brightness"@);
            lemma_state_payload_round(None, Some(brightness));
        }
        _ => {}
    }
}

#[verifier::spinoff_prover]
#[verifier::rlimit(100)]
proof fn lemma_round_trip_color(m: MessageView)
    requires
        m is Color,
        m.wf(),
        no_slash(m.device()),
    ensures
        spec_route(spec_topic(m)) == Some((m.kind(), m.device())),
        spec_decode(m.kind(), m.device(), spec_payload(m)->0) == Some(m),
{
    match m {
        MessageView::Color { device, color } => {
            reveal_strlit("/color");
            reveal_strlit("/");
            reveal_strlit("color");
            reveal_strlit("power");
            reveal_strlit("brightness");
            assert(no_slash("color"@));
            assert("color"@ != "power"@) by {
                assert("color"@[0] == 'c');
                assert("power"@[0] == 'p');
            }
            assert("color"@ != "brightness"@) by {
                assert("color"@.len() == 5);
                assert("brightness"@.len() == 10);
            }
            assert(spec_topic(m) =~= "devices/"@ + device + "/"@ + "color"@);
            lemma_route_three(device, "color"@);
            lemma_state_payload_round(Some(color), None);
        }
        _ => {}
    }
}

#[verifier::spinoff_prover]
#[verifier::rlimit(100)]
proof fn lemma_round_trip_state(m: MessageView)
    requires
        m is State,
        m.wf(),
        no_slash(m.device()),
    ensures
        spec_route(spec_topic(m)) == Some((m.kind(), m.device())),
        spec_decode(m.kind(), m.device(), spec_payload(m)->0) == Some(m),
{
    match m {
        MessageView::State { device, color, brightness } => {
            reveal_strlit("/state");
            reveal_strlit("/");
            reveal_strlit("state");
            reveal_strlit("power");
            reveal_strlit("brightness");
            reveal_strlit("color");
            assert(no_slash("state"@));
            assert("state"@ != "power"@) by {
                assert("state"@[0] == 's');
                assert("power"@[0] == 'p');
            }
            assert("state"@ != "brightness"@) by {
                assert("state"@.len() == 5);
                assert("brightness"@.len() == 10);
            }
            assert("state"@ != "color"@) by {
                assert("state"@[0] == 's');
                assert("color"@[0] == 'c');
            }
            assert(spec_topic(m) =~= "devices/"@ + device + "/"@ + "state"@);
            lemma_route_three(device, "state"@);
            lemma_state_payload_round(color, brightness);
        }
        _ => {}
    }
}

/// Round trip of the wire codec: encoding any well-formed message and
/// decoding the result under the route parsed from its own topic gives
/// the message back.  This needs the device identifier to hold no `/`
/// — a name with one would produce an ambiguous topic, and such names
/// are to be rejected when the registry is built.
pub proof fn lemma_round_trip(m: MessageView)
    requires
        m.wf(),
        no_slash(m.device()),
    ensures
        spec_route(spec_topic(m)) == Some((m.kind(), m.device())),
        spec_decode(
            m.kind(),
            m.device(),
            match spec_payload(m) {
                Some(b) => b,
                None => Seq::empty(),
            },
        ) == Some(m),
{
    match m {
        MessageView::Power { .. } => {
            lemma_round_trip_power(m);
        }
        MessageView::Toggle { device } => {
            lemma_route_toggle(device);
        }
        MessageView::Brightness { .. } => {
            lemma_round_trip_brightness(m);
        }
        MessageView::Color { .. } => {
            lemma_round_trip_color(m);
        }
        MessageView::State { .. } => {
            lemma_round_trip_state(m);
        }
    }
}

/// A toggle route ignores the payload body entirely: whatever bytes
/// came with it — empty, malformed, or anything else — it decodes to
/// the toggle command for the routed device.
pub proof fn lemma_toggle_ignores_payload(device: Seq<char>, payload: Seq<u8>)
    ensures
        spec_decode(Kind::Toggle, device, payload) == Some(MessageView::Toggle { device }),
{
}

} // verus!
