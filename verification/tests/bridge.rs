use adm::bridge::{
    delivery, dispatch, topics, Bridge, BridgeAction, BridgeEvent, BridgeState, Call, Error,
    Guarantee,
};
use adm::route::Route;
use adm::config::Config;
use adm::device::{Device, Type};

fn fixture() -> Config {
    Config {
        devices: vec![
            Device {
                kind: Type::LifxBulb { selector: "label:foo".to_string() },
                name: "foo".to_string(),
                alternatives: None,
            },
            Device {
                kind: Type::LifxBulb { selector: "label:bar".to_string() },
                name: "bar".to_string(),
                alternatives: None,
            },
        ],
        lifx_secret: None,
        mqtt_host: None,
        mqtt_port: None,
    }
}

#[test]
fn dispatch_power_calls_exactly_foo() {
    let cfg = fixture();
    let r = dispatch(&cfg, "devices/foo/power", b"{\"target\":true}");
    assert_eq!(r, Some((0, Call::Power { on: true, fast: true })));
}

#[test]
fn dispatch_resolves_aliases_and_positions() {
    let cfg = fixture();
    let r = dispatch(&cfg, "devices/2/power/toggle", b"");
    assert_eq!(r, Some((1, Call::Toggle)));
}

#[test]
fn dispatch_maps_the_state_family_to_set() {
    let cfg = fixture();
    assert_eq!(
        dispatch(&cfg, "devices/bar/brightness", b"{\"brightness\":0.5}"),
        Some((
            1,
            Call::SetState { color: None, brightness: Some(b"0.5".to_vec()), fast: true },
        ))
    );
    assert_eq!(
        dispatch(&cfg, "devices/bar/color", b"{\"color\":\"red\"}"),
        Some((
            1,
            Call::SetState { color: Some(b"\"red\"".to_vec()), brightness: None, fast: true },
        ))
    );
    assert_eq!(
        dispatch(&cfg, "devices/bar/state", b"{\"color\":\"red\",\"brightness\":1}"),
        Some((
            1,
            Call::SetState {
                color: Some(b"\"red\"".to_vec()),
                brightness: Some(b"1".to_vec()),
                fast: true,
            },
        ))
    );
}

#[test]
fn dispatch_ignores_what_is_not_for_us() {
    let cfg = fixture();
    // unparseable topic
    assert_eq!(dispatch(&cfg, "nothing/here", b"{\"target\":true}"), None);
    // unknown device
    assert_eq!(dispatch(&cfg, "devices/nope/power", b"{\"target\":true}"), None);
    // malformed payload
    assert_eq!(dispatch(&cfg, "devices/foo/power", b"oops"), None);
}

#[test]
fn malformed_payload_then_next_message_works() {
    let cfg = fixture();
    assert_eq!(dispatch(&cfg, "devices/foo/power", b"{\"target\":}"), None);
    assert_eq!(
        dispatch(&cfg, "devices/foo/power", b"{\"target\":true}"),
        Some((0, Call::Power { on: true, fast: true }))
    );
}

#[test]
fn subscription_topics() {
    let t = topics();
    let t: Vec<(&str, Guarantee)> = t.iter().map(|(s, g)| (s.as_str(), *g)).collect();
    assert_eq!(
        t,
        vec![
            ("devices/+/power", Guarantee::ExactlyOnce),
            ("devices/+/power/toggle", Guarantee::ExactlyOnce),
            ("devices/+/brightness", Guarantee::AtLeastOnce),
            ("devices/+/color", Guarantee::AtLeastOnce),
            ("devices/+/state", Guarantee::AtLeastOnce),
        ]
    );
}

#[test]
fn delivery_guarantees_by_kind() {
    let route = |t: &str| Route::try_parse(t).unwrap();
    assert_eq!(delivery(&route("devices/foo/power")), Guarantee::ExactlyOnce);
    assert_eq!(delivery(&route("devices/foo/power/toggle")), Guarantee::ExactlyOnce);
    assert_eq!(delivery(&route("devices/foo/brightness")), Guarantee::AtLeastOnce);
    assert_eq!(delivery(&route("devices/foo/color")), Guarantee::AtLeastOnce);
    assert_eq!(delivery(&route("devices/foo/state")), Guarantee::AtLeastOnce);
}

#[test]
fn bridge_happy_lifecycle() {
    let mut b = Bridge::new(fixture());
    assert_eq!(b.state, BridgeState::Starting);
    assert_eq!(b.step(BridgeEvent::StartOk), BridgeAction::Subscribe);
    assert_eq!(b.state, BridgeState::Connected);
    assert_eq!(b.step(BridgeEvent::SubscribeOk), BridgeAction::Ignore);
    assert_eq!(b.state, BridgeState::Listening);
    let publish = BridgeEvent::Publish {
        topic: "devices/foo/power".to_string(),
        payload: b"{\"target\":true}".to_vec(),
    };
    assert_eq!(
        b.step(publish),
        BridgeAction::Invoke(0, Call::Power { on: true, fast: true })
    );
    assert_eq!(b.state, BridgeState::Listening);
    assert_eq!(b.step(BridgeEvent::ChannelClosed), BridgeAction::Fatal(Error::Poll));
    assert_eq!(b.state, BridgeState::Terminated);
}

#[test]
fn bridge_stays_listening_through_bad_traffic() {
    let mut b = Bridge::new(fixture());
    b.step(BridgeEvent::StartOk);
    b.step(BridgeEvent::SubscribeOk);
    let bad = BridgeEvent::Publish {
        topic: "devices/foo/power".to_string(),
        payload: b"garbage".to_vec(),
    };
    assert_eq!(b.step(bad), BridgeAction::Ignore);
    assert_eq!(b.state, BridgeState::Listening);
    assert_eq!(b.step(BridgeEvent::OtherNotification), BridgeAction::Ignore);
    assert_eq!(b.step(BridgeEvent::CallFailed), BridgeAction::Report);
    assert_eq!(b.state, BridgeState::Listening);
    let good = BridgeEvent::Publish {
        topic: "devices/foo/power".to_string(),
        payload: b"{\"target\":false}".to_vec(),
    };
    assert_eq!(
        b.step(good),
        BridgeAction::Invoke(0, Call::Power { on: false, fast: true })
    );
}

#[test]
fn bridge_startup_failures_are_fatal() {
    let mut b = Bridge::new(fixture());
    assert_eq!(b.step(BridgeEvent::StartFailed), BridgeAction::Fatal(Error::ClientStart));
    assert_eq!(b.state, BridgeState::Terminated);

    let mut b = Bridge::new(fixture());
    b.step(BridgeEvent::StartOk);
    assert_eq!(b.step(BridgeEvent::SubscribeFailed), BridgeAction::Fatal(Error::Subscribe));
    assert_eq!(b.state, BridgeState::Terminated);
}
