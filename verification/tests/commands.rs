use adm::cli;
use adm::config::{config, Config, ConfigCommand, SetKey};
use adm::device::{Device, Type};
use adm::error::{ConfigError, TurnError};
use adm::message::Message;
use adm::parse::{parse_state, power_state};
use adm::turn::turn;

fn device(name: &str) -> Device {
    Device {
        kind: Type::LifxBulb { selector: format!("label:{}", name) },
        name: name.to_string(),
        alternatives: None,
    }
}

fn fixture() -> Config {
    Config {
        devices: vec![device("foo"), device("bar")],
        lifx_secret: Some("SECRET-REDACTED".to_string()),
        mqtt_host: None,
        mqtt_port: None,
    }
}

#[test]
fn power_state_words() {
    assert_eq!(power_state("on"), Some(true));
    assert_eq!(power_state("ON"), Some(true));
    assert_eq!(power_state("1"), Some(true));
    assert_eq!(power_state("off"), Some(false));
    assert_eq!(power_state("Off"), Some(false));
    assert_eq!(power_state("0"), Some(false));
    assert_eq!(power_state("sideways"), None);
    assert_eq!(power_state(""), None);
    assert_eq!(power_state("2"), None);
}

#[test]
fn parse_state_reports_lowercased_input() {
    assert_eq!(parse_state("On"), Ok(true));
    assert_eq!(parse_state("0"), Ok(false));
    assert_eq!(
        parse_state("Sideways"),
        Err(TurnError::UnrecognizedState("sideways".to_string()))
    );
}

#[test]
fn cli_turn_builds_power_messages() {
    assert_eq!(
        cli::turn("light".to_string(), "on".to_string()),
        Ok(Some(Message::Power { device: "light".to_string(), target: true }))
    );
}

#[test]
fn cli_turn_swaps_transposed_arguments() {
    assert_eq!(
        cli::turn("off".to_string(), "light".to_string()),
        Ok(Some(Message::Power { device: "light".to_string(), target: false }))
    );
}

#[test]
fn cli_turn_rejects_unknown_state() {
    assert_eq!(
        cli::turn("light".to_string(), "sideways".to_string()),
        Err(TurnError::UnrecognizedState("sideways".to_string()))
    );
}

#[test]
fn cli_toggle_builds_toggle() {
    assert_eq!(
        cli::toggle("light".to_string()),
        Ok(Some(Message::Toggle { device: "light".to_string() }))
    );
}

#[test]
fn turn_resolves_device_and_state() {
    let cfg = fixture();
    assert_eq!(turn(&cfg, "foo", "on"), Ok((0, true)));
    assert_eq!(turn(&cfg, "2", "OFF"), Ok((1, false)));
}

#[test]
fn turn_swaps_transposed_arguments() {
    let cfg = fixture();
    assert_eq!(turn(&cfg, "on", "bar"), Ok((1, true)));
}

#[test]
fn turn_reports_missing_device_and_bad_state() {
    let cfg = fixture();
    assert_eq!(
        turn(&cfg, "nope", "on"),
        Err(TurnError::DeviceNotFound("nope".to_string()))
    );
    assert_eq!(
        turn(&cfg, "foo", "Sideways"),
        Err(TurnError::UnrecognizedState("sideways".to_string()))
    );
}

#[test]
fn config_removes_first_match() {
    let mut cfg = fixture();
    let r = config(&mut cfg, ConfigCommand::Remove { device: "foo".to_string() });
    assert_eq!(r, Ok(()));
    assert_eq!(cfg.devices.len(), 1);
    assert_eq!(cfg.devices[0].name, "bar");
}

#[test]
fn config_removes_by_position() {
    let mut cfg = fixture();
    let r = config(&mut cfg, ConfigCommand::Remove { device: "2".to_string() });
    assert_eq!(r, Ok(()));
    assert_eq!(cfg.devices.len(), 1);
    assert_eq!(cfg.devices[0].name, "foo");
}

#[test]
fn config_removes_first_equal_duplicate() {
    // with duplicate identical devices and a positional identifier,
    // the earliest copy goes, not the one the position resolved to
    let mut cfg = Config {
        devices: vec![device("foo"), device("bar"), device("foo")],
        lifx_secret: None,
        mqtt_host: None,
        mqtt_port: None,
    };
    let r = config(&mut cfg, ConfigCommand::Remove { device: "3".to_string() });
    assert_eq!(r, Ok(()));
    let names: Vec<&str> = cfg.devices.iter().map(|d| d.name.as_str()).collect();
    assert_eq!(names, vec!["bar", "foo"]);
}

#[test]
fn config_reports_unknown_device() {
    let mut cfg = fixture();
    let r = config(&mut cfg, ConfigCommand::Remove { device: "nope".to_string() });
    assert_eq!(r, Err(ConfigError::DeviceNotFound("nope".to_string())));
    assert_eq!(cfg.devices.len(), 2);
}

#[test]
fn config_sets_the_secret() {
    let mut cfg = fixture();
    let r = config(
        &mut cfg,
        ConfigCommand::SetOption {
            key: SetKey::LifxSecret { value: Some("SECRET-REDACTED".to_string()) },
        },
    );
    assert_eq!(r, Ok(()));
    assert_eq!(cfg.lifx_secret, Some("SECRET-REDACTED".to_string()));
    assert_eq!(cfg.devices.len(), 2);
}

#[test]
fn lowercasing_goes_through() {
    // power_state folds case before comparing; a stale or empty fold
    // would reject these
    assert_eq!(power_state("oN"), Some(true));
    assert_eq!(power_state("OFF"), Some(false));
}
