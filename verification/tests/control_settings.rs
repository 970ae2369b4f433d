use portal::control::{
    stored_numbers_fit, Control, SETTING_AUTO_REMOTE, SETTING_CHIP_TYPE, SETTING_ENABLE_NTFY, SETTING_NTFY_URL,
    SETTING_PLAY_SOUND, SETTING_PORTAL_NAME, SETTING_READ_WINDOW, SETTING_UPLOAD_INTERVAL, SETTING_VOLUME,
    SETTING_SIGHTING_PERIOD, SETTING_VOICE, SETTING_SCREEN_TYPE,
};
use portal::database::memstore::MemStore;
use portal::defaults::DEFAULT_SIGHTING_PERIOD;
use portal::objects::setting::Setting;
use portal::text::{is_true_text, parse_unsigned};

fn set(store: &mut MemStore, name: &str, value: &str) {
    store.set_setting(&Setting::new(String::from(name), String::from(value))).unwrap();
}

fn value(store: &MemStore, name: &str) -> String {
    store.get_setting(name).unwrap().Value().clone()
}

#[test]
fn parse_unsigned_reads_like_std() {
    assert_eq!(parse_unsigned("20", 255), Some(20));
    assert_eq!(parse_unsigned("+7", 255), Some(7));
    assert_eq!(parse_unsigned("007", 255), Some(7));
    assert_eq!(parse_unsigned("255", 255), Some(255));
    assert_eq!(parse_unsigned("256", 255), None);
    assert_eq!(parse_unsigned("-1", 255), None);
    assert_eq!(parse_unsigned("-0", 255), None);
    assert_eq!(parse_unsigned("", 255), None);
    assert_eq!(parse_unsigned("+", 255), None);
    assert_eq!(parse_unsigned(" 1", 255), None);
    assert_eq!(parse_unsigned("1a", 255), None);
    assert_eq!(parse_unsigned("18446744073709551615", u64::MAX), Some(u64::MAX));
    assert_eq!(parse_unsigned("18446744073709551616", u64::MAX), None);
    assert_eq!(parse_unsigned("99999999999999999999999", u64::MAX), None);
    for text in ["0", "1", "9", "10", "99", "100", "254", "255", "256", "1000", "+", "++1", "+0", "٣", "1.0", "x"] {
        assert_eq!(parse_unsigned(text, 255).map(|v| v as u8), text.parse::<u8>().ok(), "{text}");
        assert_eq!(parse_unsigned(text, u64::MAX), text.parse::<u64>().ok(), "{text}");
    }
}

#[test]
fn true_text_ignores_case() {
    assert!(is_true_text("true"));
    assert!(is_true_text("TRUE"));
    assert!(is_true_text("TrUe"));
    assert!(!is_true_text("tru"));
    assert!(!is_true_text("truee"));
    assert!(!is_true_text("false"));
    assert!(!is_true_text("ture"));
    assert!(!is_true_text(""));
}

#[test]
fn control_from_an_empty_store_takes_the_defaults() {
    let mut store = MemStore::new();
    let c = Control::new(&mut store).unwrap();
    assert!(c.name.starts_with("Chrono Portal "));
    assert_eq!(c.sighting_period, 300);
    assert_eq!(c.sighting_period, DEFAULT_SIGHTING_PERIOD);
    assert_eq!(c.voice, "emily");
    assert_eq!(c.read_window, 20);
    assert_eq!(c.chip_type, "DEC");
    assert!(c.play_sound);
    assert_eq!(c.volume, "1");
    assert!(!c.auto_remote);
    assert_eq!(c.upload_interval, 5);
    assert_eq!(c.ntfy_url, "");
    assert!(!c.enable_ntfy);
    assert_eq!(c.battery, 0);
    assert_eq!(value(&store, SETTING_PORTAL_NAME), c.name);
    assert_eq!(value(&store, SETTING_READ_WINDOW), "20");
    assert_eq!(value(&store, SETTING_UPLOAD_INTERVAL), "5");
    assert_eq!(value(&store, SETTING_NTFY_URL), "");
    assert_eq!(value(&store, SETTING_SIGHTING_PERIOD), "300");
    assert_eq!(value(&store, SETTING_VOICE), "emily");
    // the screen type is not a setting the portal's control reads
    assert!(store.get_setting(SETTING_SCREEN_TYPE).is_err());
}

#[test]
fn control_names_an_unnamed_portal_with_the_given_number() {
    let mut store = MemStore::new();
    let c = Control::new_with(&mut store, 7);
    assert_eq!("Chrono Portal 7", c.name);
    assert_eq!(DEFAULT_SIGHTING_PERIOD, c.sighting_period);
    set(&mut store, SETTING_PORTAL_NAME, "Gate");
    let again = Control::new_with(&mut store, 9);
    assert_eq!("Gate", again.name);
}

#[test]
fn control_reads_stored_values() {
    let mut store = MemStore::new();
    set(&mut store, SETTING_PORTAL_NAME, "Finish");
    set(&mut store, SETTING_READ_WINDOW, "35");
    set(&mut store, SETTING_CHIP_TYPE, "HEX");
    set(&mut store, SETTING_PLAY_SOUND, "FALSE");
    set(&mut store, SETTING_VOLUME, "0.4");
    set(&mut store, SETTING_AUTO_REMOTE, "True");
    set(&mut store, SETTING_UPLOAD_INTERVAL, "+10");
    set(&mut store, SETTING_ENABLE_NTFY, "yes");
    set(&mut store, SETTING_SIGHTING_PERIOD, "90");
    set(&mut store, SETTING_VOICE, "michael");
    set(&mut store, SETTING_SCREEN_TYPE, "PCF8574T");
    let c = Control::new(&mut store).unwrap();
    assert_eq!(c.name, "Finish");
    assert_eq!(c.sighting_period, 90);
    assert_eq!(c.voice, "michael");
    assert_eq!(value(&store, SETTING_SIGHTING_PERIOD), "90");
    assert_eq!(value(&store, SETTING_SCREEN_TYPE), "PCF8574T");
    assert_eq!(c.read_window, 35);
    assert_eq!(c.chip_type, "HEX");
    assert!(!c.play_sound);
    assert_eq!(c.volume, "0.4");
    assert!(c.auto_remote);
    assert_eq!(c.upload_interval, 10);
    assert!(!c.enable_ntfy);
    assert_eq!(value(&store, SETTING_PORTAL_NAME), "Finish");
}

#[test]
fn stored_numbers_must_fit() {
    let mut store = MemStore::new();
    assert!(stored_numbers_fit(&store));
    set(&mut store, SETTING_READ_WINDOW, "300");
    assert!(!stored_numbers_fit(&store));
    set(&mut store, SETTING_READ_WINDOW, "30");
    assert!(stored_numbers_fit(&store));
    set(&mut store, SETTING_UPLOAD_INTERVAL, "soon");
    assert!(!stored_numbers_fit(&store));
    set(&mut store, SETTING_UPLOAD_INTERVAL, "10");
    assert!(stored_numbers_fit(&store));
    set(&mut store, SETTING_SIGHTING_PERIOD, "4294967296");
    assert!(!stored_numbers_fit(&store));
    set(&mut store, SETTING_SIGHTING_PERIOD, "4294967295");
    assert!(stored_numbers_fit(&store));
}

#[test]
fn update_keeps_the_battery() {
    let mut store = MemStore::new();
    let mut c = Control::new(&mut store).unwrap();
    c.battery = 77;
    set(&mut store, SETTING_READ_WINDOW, "5");
    let newer = Control::new(&mut store).unwrap();
    assert!(c.update(newer).is_ok());
    assert_eq!(c.read_window, 5);
    assert_eq!(c.battery, 77);
}
