use adm::route::Route;

#[test]
fn routes_the_five_actions() {
    assert_eq!(
        Route::try_parse("devices/foo/power"),
        Some(Route::Power("foo".to_string()))
    );
    assert_eq!(
        Route::try_parse("devices/foo/power/toggle"),
        Some(Route::Toggle("foo".to_string()))
    );
    assert_eq!(
        Route::try_parse("devices/foo/brightness"),
        Some(Route::Brightness("foo".to_string()))
    );
    assert_eq!(
        Route::try_parse("devices/foo/color"),
        Some(Route::Color("foo".to_string()))
    );
    assert_eq!(
        Route::try_parse("devices/foo/state"),
        Some(Route::State("foo".to_string()))
    );
}

#[test]
fn rejects_foreign_topics() {
    assert_eq!(Route::try_parse("nothing/here"), None);
    assert_eq!(Route::try_parse("devices/foo"), None);
    assert_eq!(Route::try_parse("devices/foo/power/extra"), None);
    assert_eq!(Route::try_parse("devices/foo/unknown"), None);
}

#[test]
fn rejects_malformed_topics() {
    assert_eq!(Route::try_parse(""), None);
    assert_eq!(Route::try_parse("devices"), None);
    assert_eq!(Route::try_parse("devices/"), None);
    assert_eq!(Route::try_parse("Devices/foo/power"), None);
    assert_eq!(Route::try_parse("devices/foo/power/"), None);
    assert_eq!(Route::try_parse("devices/foo/power/toggle/x"), None);
    assert_eq!(Route::try_parse("devices/foo/state/extra"), None);
}

#[test]
fn routes_odd_device_segments() {
    // the router hands the device segment through verbatim, the
    // registry decides what it resolves to
    assert_eq!(
        Route::try_parse("devices//power"),
        Some(Route::Power("".to_string()))
    );
    assert_eq!(
        Route::try_parse("devices/Küche/state"),
        Some(Route::State("Küche".to_string()))
    );
}
