use adm::config::Config;
use adm::device::{Device, Type};

fn lifx(selector: &str) -> Type {
    Type::LifxBulb { selector: selector.to_string() }
}

fn device(name: &str) -> Device {
    Device {
        kind: lifx(&format!("label:{}", name)),
        name: name.to_string(),
        alternatives: None,
    }
}

fn device_with_alias(name: &str, alias: &str) -> Device {
    Device {
        kind: lifx(&format!("label:{}", name)),
        name: name.to_string(),
        alternatives: Some(vec![alias.to_string()]),
    }
}

fn fixture() -> Config {
    Config {
        devices: vec![device("foo"), device("bar"), device_with_alias("baz", "qux")],
        lifx_secret: None,
        mqtt_host: None,
        mqtt_port: None,
    }
}

#[test]
fn find() {
    let config = fixture();
    let foo = config.find("foo");
    assert_eq!(foo.map(|d| d.name.as_str()), Some("foo"));
    let bar = config.find("bar");
    assert_eq!(bar.map(|d| d.name.as_str()), Some("bar"));
    assert_eq!(config.find("2"), bar);
    let baz = config.find("baz");
    assert!(baz.is_some());
    assert_eq!(baz, config.find("qux"));
    assert!(config.find("label").is_none());
    assert!(config.find("lifx").is_none());
    assert!(config.find("").is_none());
    assert!(config.find("0").is_none());
    assert!(config.find("4").is_none());
}

#[test]
fn find_any_case() {
    let config = fixture();
    assert_eq!(config.find("FOO"), config.find("foo"));
    assert_eq!(config.find("Bar"), config.find("bar"));
    assert_eq!(config.find("QuX"), config.find("baz"));
}

#[test]
fn find_rejects_nonsense_positions() {
    let config = fixture();
    assert!(config.find("-1").is_none());
    assert!(config.find("01").is_none());
    assert!(config.find("100").is_none());
    assert!(config.find("1x").is_none());
}

#[test]
fn find_first_match_wins() {
    let mut config = fixture();
    config.devices.push(device("foo"));
    let found = config.find("foo").unwrap();
    assert_eq!(found, &config.devices[0]);
}

#[test]
fn find_name_shadows_position() {
    // an early device named "2" is matched by exact name before the
    // positional lookup reaches the device standing second
    let config = Config {
        devices: vec![device("2"), device("x")],
        lifx_secret: None,
        mqtt_host: None,
        mqtt_port: None,
    };
    assert_eq!(config.find("2").map(|d| d.name.as_str()), Some("2"));
}

#[test]
fn find_position_beats_later_name() {
    // per-element order: the device standing second matches "2"
    // positionally before the scan reaches a later device named "2"
    let config = Config {
        devices: vec![device("one"), device("two"), device("2")],
        lifx_secret: None,
        mqtt_host: None,
        mqtt_port: None,
    };
    assert_eq!(config.find("2").map(|d| d.name.as_str()), Some("two"));
}

#[test]
fn find_folds_ascii_case_only() {
    let config = Config {
        devices: vec![device("küche")],
        lifx_secret: None,
        mqtt_host: None,
        mqtt_port: None,
    };
    assert!(config.find("küche").is_some());
    assert!(config.find("KÜCHE").is_none());
    assert!(config.find("kÜche").is_none());
}

#[test]
fn valid_names_rejects_separators() {
    let good = fixture();
    assert!(good.valid_names());
    let bad = Config {
        devices: vec![device("a/b")],
        lifx_secret: None,
        mqtt_host: None,
        mqtt_port: None,
    };
    assert!(!bad.valid_names());
}

#[test]
fn find_index_matches_find() {
    let config = fixture();
    assert_eq!(config.find_index("bar"), Some(1));
    assert_eq!(config.find_index("qux"), Some(2));
    assert_eq!(config.find_index("3"), Some(2));
    assert_eq!(config.find_index("nope"), None);
}
