use adm::message::{decode, Message, MqttPayload};
use adm::route::Route;

#[test]
fn encode_power() {
    let m = Message::Power { device: "foo".to_string(), target: true };
    let (topic, payload) = m.encode();
    assert_eq!(topic.as_str(), "devices/foo/power");
    assert_eq!(payload, Some(b"{\"target\":true}".to_vec()));
}

#[test]
fn encode_power_off() {
    let m = Message::Power { device: "foo".to_string(), target: false };
    let (topic, payload) = m.encode();
    assert_eq!(topic.as_str(), "devices/foo/power");
    assert_eq!(payload, Some(b"{\"target\":false}".to_vec()));
}

#[test]
fn encode_toggle() {
    let m = Message::Toggle { device: "foo".to_string() };
    let (topic, payload) = m.encode();
    assert_eq!(topic.as_str(), "devices/foo/power/toggle");
    assert_eq!(payload, None);
}

#[test]
fn encode_brightness() {
    let m = Message::Brightness { device: "foo".to_string(), brightness: b"0.5".to_vec() };
    let (topic, payload) = m.encode();
    assert_eq!(topic.as_str(), "devices/foo/brightness");
    assert_eq!(payload, Some(b"{\"color\":null,\"brightness\":0.5}".to_vec()));
}

#[test]
fn encode_color() {
    let m = Message::Color { device: "foo".to_string(), color: b"\"red\"".to_vec() };
    let (topic, payload) = m.encode();
    assert_eq!(topic.as_str(), "devices/foo/color");
    assert_eq!(payload, Some(b"{\"color\":\"red\",\"brightness\":null}".to_vec()));
}

#[test]
fn encode_state() {
    let m = Message::State {
        device: "foo".to_string(),
        color: Some(b"\"blue\"".to_vec()),
        brightness: Some(b"0.25".to_vec()),
    };
    let (topic, payload) = m.encode();
    assert_eq!(topic.as_str(), "devices/foo/state");
    assert_eq!(payload, Some(b"{\"color\":\"blue\",\"brightness\":0.25}".to_vec()));
}

fn round_trip(m: Message) {
    let (topic, payload) = m.clone().encode();
    let route = Route::try_parse(topic.as_str()).expect("topic routes");
    let bytes = payload.unwrap_or_default();
    let back = decode(&route, bytes.as_slice());
    assert_eq!(back, Some(m));
}

#[test]
fn round_trip_power() {
    round_trip(Message::Power { device: "foo".to_string(), target: true });
    round_trip(Message::Power { device: "foo".to_string(), target: false });
}

#[test]
fn round_trip_toggle() {
    round_trip(Message::Toggle { device: "foo".to_string() });
}

#[test]
fn round_trip_brightness() {
    round_trip(Message::Brightness { device: "foo".to_string(), brightness: b"0.75".to_vec() });
    round_trip(Message::Brightness { device: "foo".to_string(), brightness: b"-1.5e-3".to_vec() });
}

#[test]
fn round_trip_color() {
    round_trip(Message::Color { device: "foo".to_string(), color: b"\"red\"".to_vec() });
    round_trip(Message::Color { device: "foo".to_string(), color: b"\"hue:120\"".to_vec() });
}

#[test]
fn round_trip_state() {
    round_trip(Message::State {
        device: "foo".to_string(),
        color: Some(b"\"#ff0000\"".to_vec()),
        brightness: Some(b"1".to_vec()),
    });
    round_trip(Message::State { device: "foo".to_string(), color: None, brightness: None });
    round_trip(Message::State {
        device: "foo".to_string(),
        color: None,
        brightness: Some(b"0".to_vec()),
    });
    round_trip(Message::State {
        device: "foo".to_string(),
        color: Some(b"\"white\"".to_vec()),
        brightness: None,
    });
}

#[test]
fn to_wire_splits_topic_and_payload() {
    let m = Message::Brightness { device: "lamp".to_string(), brightness: b"0.5".to_vec() };
    let (topic, payload) = m.to_wire();
    assert_eq!(topic.as_str(), "devices/lamp/brightness");
    assert_eq!(
        payload,
        Some(MqttPayload::State { color: None, brightness: Some(b"0.5".to_vec()) })
    );
}

fn power_route() -> Route {
    Route::try_parse("devices/foo/power").unwrap()
}

fn state_route() -> Route {
    Route::try_parse("devices/foo/state").unwrap()
}

fn brightness_route() -> Route {
    Route::try_parse("devices/foo/brightness").unwrap()
}

fn color_route() -> Route {
    Route::try_parse("devices/foo/color").unwrap()
}

#[test]
fn decode_power_wants_boolean_target() {
    assert!(decode(&power_route(), b"{\"target\":true}").is_some());
    assert!(decode(&power_route(), b"{\"target\":1}").is_none());
    assert!(decode(&power_route(), b"{}").is_none());
    assert!(decode(&power_route(), b"").is_none());
    assert!(decode(&power_route(), b"not json").is_none());
}

#[test]
fn decode_tolerates_whitespace() {
    let m = decode(&power_route(), b" { \"target\" : false } ");
    assert_eq!(m, Some(Message::Power { device: "foo".to_string(), target: false }));
    let m = decode(&state_route(), b"{ \"brightness\" : 0.5 , \"color\" : \"red\" }");
    assert_eq!(
        m,
        Some(Message::State {
            device: "foo".to_string(),
            color: Some(b"\"red\"".to_vec()),
            brightness: Some(b"0.5".to_vec()),
        })
    );
}

#[test]
fn decode_toggle_ignores_payload() {
    let route = Route::try_parse("devices/foo/power/toggle").unwrap();
    let expected = Some(Message::Toggle { device: "foo".to_string() });
    assert_eq!(decode(&route, b""), expected);
    assert_eq!(decode(&route, b"{\"target\":true}"), expected);
    assert_eq!(decode(&route, b"not json at all"), expected);
}

#[test]
fn decode_brightness_needs_brightness() {
    let m = decode(&brightness_route(), b"{\"brightness\":0.5,\"color\":\"red\"}");
    assert_eq!(
        m,
        Some(Message::Brightness { device: "foo".to_string(), brightness: b"0.5".to_vec() })
    );
    assert!(decode(&brightness_route(), b"{\"color\":\"red\"}").is_none());
    assert!(decode(&brightness_route(), b"{\"brightness\":null}").is_none());
    assert!(decode(&brightness_route(), b"{}").is_none());
    assert!(decode(&brightness_route(), b"{\"brightness\":\"high\"}").is_none());
}

#[test]
fn decode_color_needs_color() {
    let m = decode(&color_route(), b"{\"color\":\"red\",\"brightness\":0.5}");
    assert_eq!(m, Some(Message::Color { device: "foo".to_string(), color: b"\"red\"".to_vec() }));
    assert!(decode(&color_route(), b"{\"brightness\":0.5}").is_none());
    assert!(decode(&color_route(), b"{\"color\":null}").is_none());
    assert!(decode(&color_route(), b"{\"color\":120}").is_none());
}

#[test]
fn decode_state_fields_optional() {
    let m = decode(&state_route(), b"{\"color\":null,\"brightness\":null}");
    assert_eq!(
        m,
        Some(Message::State { device: "foo".to_string(), color: None, brightness: None })
    );
    let m = decode(&state_route(), b"{}");
    assert_eq!(
        m,
        Some(Message::State { device: "foo".to_string(), color: None, brightness: None })
    );
}

#[test]
fn decode_rejects_unknown_and_duplicate_members() {
    assert!(decode(&state_route(), b"{\"colour\":\"red\"}").is_none());
    assert!(decode(&state_route(), b"{\"color\":null,\"color\":null}").is_none());
    assert!(decode(&state_route(), b"{\"color\":null,}").is_none());
    assert!(decode(&power_route(), b"{\"target\":true}x").is_none());
}

#[test]
fn decode_string_escapes() {
    let m = decode(&color_route(), b"{\"color\":\"a \\\"quoted\\\" color\"}");
    assert_eq!(
        m,
        Some(Message::Color {
            device: "foo".to_string(),
            color: b"\"a \\\"quoted\\\" color\"".to_vec(),
        })
    );
    assert!(decode(&color_route(), b"{\"color\":\"broken").is_none());
    assert!(decode(&color_route(), b"{\"color\":\"bad\\x\"}").is_none());
}
