//! The bridge: subscribing to the command topics and dispatching
//! every inbound message to a device capability.
//!
//! The per-message pipeline is pure and stands in [`dispatch`]: route
//! the topic, resolve the device, decode the payload under the route,
//! and name the capability call to make.  Every step short-circuits to
//! "not for us, ignore"; none of them can end the bridge.  The outer
//! connection lifecycle is the small state machine in [`Bridge`]: the
//! caller performs the bus I/O and feeds what happened back in as
//! events.

use vstd::prelude::*;
use vstd::string::*;
use crate::config::{spec_find, Config};
use crate::device::Device;
use crate::json::opt_bytes;
use crate::message::{decode, spec_decode, Message, MessageView};
use crate::route::{spec_route, Kind, Route};

verus! {

/// A capability operation to invoke on a resolved device, with the
/// bridge-internal "fast" flag.  The bridge always sets it: bus
/// delivery already provides the acknowledgment the publisher needs.
#[derive(Debug, Clone, PartialEq, Eq)]
pub enum Call {
    /// Change the power state.
    Power { on: bool, fast: bool },
    /// Toggle the power state.
    Toggle,
    /// Set color and/or brightness, each an opaque wire token.
    SetState { color: Option<Vec<u8>>, brightness: Option<Vec<u8>>, fast: bool },
}

/// The mathematical value of a [`Call`].
pub enum CallView {
    Power { on: bool, fast: bool },
    Toggle,
    SetState { color: Option<Seq<u8>>, brightness: Option<Seq<u8>>, fast: bool },
}

impl View for Call {
    type V = CallView;

    open spec fn view(&self) -> CallView {
        match self {
            Call::Power { on, fast } => CallView::Power { on: *on, fast: *fast },
            Call::Toggle => CallView::Toggle,
            Call::SetState { color, brightness, fast } => CallView::SetState {
                color: opt_bytes(*color),
                brightness: opt_bytes(*brightness),
                fast: *fast,
            },
        }
    }
}

/// The capability call a decoded message asks for.  Power and toggle
/// map to their own operations; the brightness, color and state
/// commands all map to the combined set operation, each handing on
/// only its own fields.  The fast flag is always set.
pub open spec fn call_of(m: MessageView) -> CallView {
    match m {
        MessageView::Power { target, .. } => CallView::Power { on: target, fast: true },
        MessageView::Toggle { .. } => CallView::Toggle,
        MessageView::Brightness { brightness, .. } => CallView::SetState {
            color: None,
            brightness: Some(brightness),
            fast: true,
        },
        MessageView::Color { color, .. } => CallView::SetState {
            color: Some(color),
            brightness: None,
            fast: true,
        },
        MessageView::State { color, brightness, .. } => CallView::SetState {
            color,
            brightness,
            fast: true,
        },
    }
}

/// What one inbound message amounts to: the position of the device to
/// drive and the capability call to make, or nothing.  The steps, in
/// order: route the topic; resolve the device; decode the payload
/// under the route.  A failure of any step yields nothing.
pub open spec fn spec_dispatch(devs: Seq<Device>, topic: Seq<char>, payload: Seq<u8>) -> Option<
    (int, CallView),
> {
    match spec_route(topic) {
        None => None,
        Some((kind, device)) => match spec_find(devs, device) {
            None => None,
            Some(i) => match spec_decode(kind, device, payload) {
                None => None,
                Some(m) => Some((i, call_of(m))),
            },
        },
    }
}

/// Works out what one inbound message asks of which device, if
/// anything.  Unparseable topics, unknown devices and undecodable
/// payloads all yield `None`: such traffic is not for us and must
/// never end the bridge.
pub fn dispatch(cfg: &Config, topic: &str, payload: &[u8]) -> (r: Option<(usize, Call)>)
    ensures
        match r {
            Some(p) => spec_dispatch(cfg.devices@, topic@, payload@) == Some(
                (p.0 as int, p.1@),
            ),
            None => spec_dispatch(cfg.devices@, topic@, payload@) is None,
        },
{
    let route = match Route::try_parse(topic) {
        Some(route) => route,
        None => {
            return None;
        }
    };
    let device = match &route {
        Route::Power(d) => d,
        Route::Toggle(d) => d,
        Route::Brightness(d) => d,
        Route::Color(d) => d,
        Route::State(d) => d,
    };
    let i = match cfg.find_index(device.as_str()) {
        Some(i) => i,
        None => {
            return None;
        }
    };
    let message = match decode(&route, payload) {
        Some(m) => m,
        None => {
            return None;
        }
    };
    let call = match message {
        Message::Power { target, .. } => Call::Power { on: target, fast: true },
        Message::Toggle { .. } => Call::Toggle,
        Message::Brightness { brightness, .. } => Call::SetState {
            color: None,
            brightness: Some(brightness),
            fast: true,
        },
        Message::Color { color, .. } => Call::SetState { color: Some(color), brightness: None, fast: true },
        Message::State { color, brightness, .. } => Call::SetState { color, brightness, fast: true },
    };
    Some((i, call))
}

/// A delivery guarantee the bus is asked for.
#[derive(Clone, Copy, Debug, PartialEq, Eq, Structural)]
pub enum Guarantee {
    /// Delivered exactly once.
    ExactlyOnce,
    /// Delivered at least once.
    AtLeastOnce,
}

/// The delivery guarantee a command kind travels at: power and toggle
/// at the strongest available guarantee, the rest may settle for
/// at-least-once.
pub open spec fn spec_guarantee(kind: Kind) -> Guarantee {
    match kind {
        Kind::Power | Kind::Toggle => Guarantee::ExactlyOnce,
        _ => Guarantee::AtLeastOnce,
    }
}

/// The delivery guarantee for messages under this route.
pub fn delivery(route: &Route) -> (g: Guarantee)
    ensures
        g == spec_guarantee(route.kind()),
{
    match route {
        Route::Power(_) | Route::Toggle(_) => Guarantee::ExactlyOnce,
        _ => Guarantee::AtLeastOnce,
    }
}

/// The five topic filters the bridge subscribes to at startup, each
/// with the delivery guarantee its command kind asks for.
pub fn topics() -> (r: Vec<(String, Guarantee)>)
    ensures
        r@.len() == 5,
        r@[0].0@ == "devices/+/power"@ && r@[0].1 == Guarantee::ExactlyOnce,
        r@[1].0@ == "devices/+/power/toggle"@ && r@[1].1 == Guarantee::ExactlyOnce,
        r@[2].0@ == "devices/+/brightness"@ && r@[2].1 == Guarantee::AtLeastOnce,
        r@[3].0@ == "devices/+/color"@ && r@[3].1 == Guarantee::AtLeastOnce,
        r@[4].0@ == "devices/+/state"@ && r@[4].1 == Guarantee::AtLeastOnce,
{
    let mut r: Vec<(String, Guarantee)> = Vec::new();
    r.push((String::from_str("devices/+/power"), Guarantee::ExactlyOnce));
    r.push((String::from_str("devices/+/power/toggle"), Guarantee::ExactlyOnce));
    r.push((String::from_str("devices/+/brightness"), Guarantee::AtLeastOnce));
    r.push((String::from_str("devices/+/color"), Guarantee::AtLeastOnce));
    r.push((String::from_str("devices/+/state"), Guarantee::AtLeastOnce));
    r
}

/// Where the bridge stands in its lifecycle.
#[derive(Clone, Copy, Debug, PartialEq, Eq, Structural)]
pub enum BridgeState {
    /// The bus connection is not established yet.
    Starting,
    /// Connected; the subscriptions are being established.
    Connected,
    /// Receiving messages.
    Listening,
    /// Ended, by a startup failure or by losing the transport.
    Terminated,
}

/// A fatal bridge error.  Everything here ends the bridge; no
/// per-message failure does.
#[derive(Clone, Copy, Debug, PartialEq, Eq, Structural)]
pub enum Error {
    /// An error was encountered while starting the client.
    ClientStart,
    /// An error was encountered while subscribing to the topics.
    Subscribe,
    /// The receive channel closed while listening.
    Poll,
}

/// What the surrounding loop reports into the state machine.
#[derive(Debug, Clone, PartialEq, Eq)]
pub enum BridgeEvent {
    /// The bus connection came up.
    StartOk,
    /// The bus connection could not be established.
    StartFailed,
    /// All subscriptions were established.
    SubscribeOk,
    /// A subscription could not be established.
    SubscribeFailed,
    /// A message arrived.
    Publish { topic: String, payload: Vec<u8> },
    /// Some other notification arrived on the channel.
    OtherNotification,
    /// A capability call made for an earlier message failed.
    CallFailed,
    /// The receive channel closed.
    ChannelClosed,
}

/// The mathematical value of a [`BridgeEvent`].
pub enum BridgeEventView {
    StartOk,
    StartFailed,
    SubscribeOk,
    SubscribeFailed,
    Publish { topic: Seq<char>, payload: Seq<u8> },
    OtherNotification,
    CallFailed,
    ChannelClosed,
}

impl View for BridgeEvent {
    type V = BridgeEventView;

    open spec fn view(&self) -> BridgeEventView {
        match self {
            BridgeEvent::StartOk => BridgeEventView::StartOk,
            BridgeEvent::StartFailed => BridgeEventView::StartFailed,
            BridgeEvent::SubscribeOk => BridgeEventView::SubscribeOk,
            BridgeEvent::SubscribeFailed => BridgeEventView::SubscribeFailed,
            BridgeEvent::Publish { topic, payload } => BridgeEventView::Publish {
                topic: topic@,
                payload: payload@,
            },
            BridgeEvent::OtherNotification => BridgeEventView::OtherNotification,
            BridgeEvent::CallFailed => BridgeEventView::CallFailed,
            BridgeEvent::ChannelClosed => BridgeEventView::ChannelClosed,
        }
    }
}

/// What the caller is to do after a step.
#[derive(Debug, Clone, PartialEq, Eq)]
pub enum BridgeAction {
    /// Subscribe to the filters `topics` returns, then report back.
    Subscribe,
    /// Invoke the capability call on the device at the position.
    Invoke(usize, Call),
    /// Nothing: the event was absorbed.
    Ignore,
    /// Report a per-message capability failure and carry on.
    Report,
    /// Stop with the fatal error.
    Fatal(Error),
}

/// The mathematical value of a [`BridgeAction`].
pub enum BridgeActionView {
    Subscribe,
    Invoke(int, CallView),
    Ignore,
    Report,
    Fatal(Error),
}

impl View for BridgeAction {
    type V = BridgeActionView;

    open spec fn view(&self) -> BridgeActionView {
        match self {
            BridgeAction::Subscribe => BridgeActionView::Subscribe,
            BridgeAction::Invoke(i, c) => BridgeActionView::Invoke(*i as int, c@),
            BridgeAction::Ignore => BridgeActionView::Ignore,
            BridgeAction::Report => BridgeActionView::Report,
            BridgeAction::Fatal(e) => BridgeActionView::Fatal(*e),
        }
    }
}

/// The transition function of the bridge lifecycle.  Once listening,
/// only a closed channel ends the bridge: every inbound message — also
/// one that dispatches to nothing — and every capability failure
/// leaves it listening.
pub open spec fn spec_step(state: BridgeState, devs: Seq<Device>, event: BridgeEventView) -> (
    BridgeState,
    BridgeActionView,
) {
    match (state, event) {
        (BridgeState::Starting, BridgeEventView::StartOk) => (
            BridgeState::Connected,
            BridgeActionView::Subscribe,
        ),
        (BridgeState::Starting, BridgeEventView::StartFailed) => (
            BridgeState::Terminated,
            BridgeActionView::Fatal(Error::ClientStart),
        ),
        (BridgeState::Connected, BridgeEventView::SubscribeOk) => (
            BridgeState::Listening,
            BridgeActionView::Ignore,
        ),
        (BridgeState::Connected, BridgeEventView::SubscribeFailed) => (
            BridgeState::Terminated,
            BridgeActionView::Fatal(Error::Subscribe),
        ),
        (BridgeState::Listening, BridgeEventView::Publish { topic, payload }) => (
            BridgeState::Listening,
            match spec_dispatch(devs, topic, payload) {
                Some((i, c)) => BridgeActionView::Invoke(i, c),
                None => BridgeActionView::Ignore,
            },
        ),
        (BridgeState::Listening, BridgeEventView::OtherNotification) => (
            BridgeState::Listening,
            BridgeActionView::Ignore,
        ),
        (BridgeState::Listening, BridgeEventView::CallFailed) => (
            BridgeState::Listening,
            BridgeActionView::Report,
        ),
        (BridgeState::Listening, BridgeEventView::ChannelClosed) => (
            BridgeState::Terminated,
            BridgeActionView::Fatal(Error::Poll),
        ),
        (s, _) => (s, BridgeActionView::Ignore),
    }
}

/// The long-running consumer: the registry snapshot it dispatches
/// against, and where it stands in its lifecycle.  The registry is
/// read-only while listening; administrative changes belong to a
/// separate path working on its own copy.
pub struct Bridge {
    /// The registry the bridge resolves devices against.
    pub config: Config,
    /// Where the bridge stands.
    pub state: BridgeState,
}

impl Bridge {
    /// A bridge about to start, dispatching against `config`.
    pub fn new(config: Config) -> (b: Bridge)
        ensures
            b.state == BridgeState::Starting,
            b.config == config,
    {
        Bridge { config, state: BridgeState::Starting }
    }

    /// Feeds one event into the lifecycle and says what to do next.
    /// The registry is never changed by a step.
    pub fn step(&mut self, event: BridgeEvent) -> (a: BridgeAction)
        ensures
            (final(self).state, a@) == spec_step(old(self).state, old(self).config.devices@, event@),
            final(self).config == old(self).config,
    {
        match event {
            BridgeEvent::StartOk => {
                if matches!(self.state, BridgeState::Starting) {
                    self.state = BridgeState::Connected;
                    return BridgeAction::Subscribe;
                }
                BridgeAction::Ignore
            }
            BridgeEvent::StartFailed => {
                if matches!(self.state, BridgeState::Starting) {
                    self.state = BridgeState::Terminated;
                    return BridgeAction::Fatal(Error::ClientStart);
                }
                BridgeAction::Ignore
            }
            BridgeEvent::SubscribeOk => {
                if matches!(self.state, BridgeState::Connected) {
                    self.state = BridgeState::Listening;
                }
                BridgeAction::Ignore
            }
            BridgeEvent::SubscribeFailed => {
                if matches!(self.state, BridgeState::Connected) {
                    self.state = BridgeState::Terminated;
                    return BridgeAction::Fatal(Error::Subscribe);
                }
                BridgeAction::Ignore
            }
            BridgeEvent::Publish { topic, payload } => {
                if matches!(self.state, BridgeState::Listening) {
                    match dispatch(&self.config, topic.as_str(), payload.as_slice()) {
                        Some((i, c)) => {
                            return BridgeAction::Invoke(i, c);
                        }
                        None => {
                            return BridgeAction::Ignore;
                        }
                    }
                }
                BridgeAction::Ignore
            }
            BridgeEvent::OtherNotification => BridgeAction::Ignore,
            BridgeEvent::CallFailed => {
                if matches!(self.state, BridgeState::Listening) {
                    return BridgeAction::Report;
                }
                BridgeAction::Ignore
            }
            BridgeEvent::ChannelClosed => {
                if matches!(self.state, BridgeState::Listening) {
                    self.state = BridgeState::Terminated;
                    return BridgeAction::Fatal(Error::Poll);
                }
                BridgeAction::Ignore
            }
        }
    }
}

/// While listening, no inbound message and no capability failure can
/// end the bridge: only a closed channel moves it out of `Listening`.
pub proof fn lemma_listening_stays(devs: Seq<Device>, event: BridgeEventView)
    requires
        !(event is ChannelClosed),
    ensures
        spec_step(BridgeState::Listening, devs, event).0 == BridgeState::Listening,
{
}

} // verus!
