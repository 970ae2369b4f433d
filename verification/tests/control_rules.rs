use portal::control::socket::{classify_setting, invalid_setting_error, plan_api_save, request_cut, SettingKind};
use portal::control::socket::errors::Errors;
use portal::control::{SETTING_VOICE, SETTING_READ_WINDOW};
use portal::network::api::{Api, API_TYPE_CHRONOKEEP_REMOTE, API_TYPE_CHRONOKEEP_REMOTE_SELF, API_URI_CHRONOKEEP_REMOTE};
use portal::notifier::{compose, ntfy_configured, Notification, NotificationQueue};
use portal::notifications::{notification_message, Notification as Note};
use portal::remote::remote_util::{plan_upload_chunks, UploadTally};
use portal::objects::read::{Read, READ_UPLOADED_FALSE};
use portal::reader::{Reader, auto_connect::{may_change_readers, State}};
use portal::database::DBError;
use portal::database::memstore::MemStore;
use portal::control::SETTING_PORTAL_NAME;

#[test]
fn requests_are_cut_after_their_object() {
    assert_eq!(8, request_cut(&String::from("{\"a\":1}\n{\"b\"")));
    assert_eq!(7, request_cut(&String::from("{\"a\":1}{\"b\"")));
    assert_eq!(4, request_cut(&String::from("abcd")));
}

#[test]
fn settings_are_classified() {
    assert_eq!(SettingKind::Voice, classify_setting(SETTING_VOICE));
    assert_eq!(SettingKind::Stored, classify_setting(SETTING_READ_WINDOW));
    assert_eq!(SettingKind::Invalid, classify_setting("SETTING_ENABLE_NTFY"));
    match invalid_setting_error("X") {
        Errors::DatabaseError { message } => assert_eq!("'X' is not a valid setting", message),
        other => panic!("unexpected {:?}", other),
    }
}

#[test]
fn only_one_remote_service_is_saved() {
    let none: Vec<Api> = Vec::new();
    let a = plan_api_save(0, String::from("r"), String::from(API_TYPE_CHRONOKEEP_REMOTE), String::from("ignored"), String::from("t"), &none).unwrap();
    assert_eq!(API_URI_CHRONOKEEP_REMOTE, a.uri());
    let b = plan_api_save(0, String::from("s"), String::from(API_TYPE_CHRONOKEEP_REMOTE_SELF), String::from("http://x"), String::from("t"), &none).unwrap();
    assert_eq!("http://x/", b.uri());
    let existing = vec![Api::new(3, String::from("r"), String::from(API_TYPE_CHRONOKEEP_REMOTE), String::from("u/"), String::from("t"))];
    assert!(matches!(
        plan_api_save(4, String::from("s"), String::from(API_TYPE_CHRONOKEEP_REMOTE_SELF), String::from("http://x/"), String::from("t"), &existing),
        Err(Errors::TooManyRemoteApi)
    ));
    // saving the same service again is allowed
    assert!(plan_api_save(3, String::from("r"), String::from(API_TYPE_CHRONOKEEP_REMOTE), String::from(""), String::from("t"), &existing).is_ok());
    match plan_api_save(0, String::from("n"), String::from("OTHER"), String::from(""), String::from(""), &none) {
        Err(Errors::InvalidApiType { message }) => assert_eq!("'OTHER' is not a valid api type", message),
        _ => panic!("expected an invalid api type"),
    }
}

#[test]
fn notifications_read_as_the_portal_names_them() {
    let m = compose(Notification::BatteryCritical, "Finish");
    assert_eq!("Warning! Battery critical on Finish.", m.message);
    assert_eq!("battery", m.tag);
    assert_eq!(5, m.priority);
    let m = compose(Notification::Start, "Finish");
    assert_eq!("Finish has started.", m.message);
    assert_eq!(3, m.priority);
    assert_eq!("Location for P is...", notification_message(Note::Location, "P"));
    assert!(ntfy_configured("u", "t", "a", "b"));
    assert!(!ntfy_configured("u", "", "a", "b"));
    let mut q = NotificationQueue::new();
    q.send_notification(Notification::Stop);
    q.send_notification(Notification::Shutdown);
    assert_eq!(vec![Notification::Stop, Notification::Shutdown], q.take_all());
    assert!(q.take_all().is_empty());
}

fn read(i: u64) -> Read {
    Read::new(i, format!("{i}"), i, 0, i, 0, 1, String::from("r"), String::from("-1"), 0, READ_UPLOADED_FALSE)
}

#[test]
fn uploads_go_in_chunks_of_fifty() {
    assert_eq!(vec![(0, 0); 0], plan_upload_chunks(0));
    assert_eq!(vec![(0, 50)], plan_upload_chunks(50));
    assert_eq!(vec![(0, 50), (50, 75)], plan_upload_chunks(75));
    assert_eq!(vec![(0, 50), (50, 100), (100, 100)], plan_upload_chunks(100));
    let reads: Vec<Read> = (1..=3).map(read).collect();
    let mut tally = UploadTally::new();
    tally.record(&reads, Some(3));
    tally.record(&reads, Some(2));
    tally.record(&reads, None);
    tally.record(&reads[..1], Some(1));
    assert_eq!(2, tally.errors);
    assert_eq!(4, tally.modified.len());
    assert_eq!(1, tally.modified[0].uploaded());
    assert_eq!(2, tally.modified[1].id());
}

#[test]
fn reader_kinds_and_message_ids() {
    let mut r = Reader::new_no_repeaters(1, String::from("ZEBRA"), String::from("Finish"), String::from("10.0.0.2"), 5084, 1).unwrap();
    assert_eq!(1, r.get_next_id());
    assert_eq!(2, r.get_next_id());
    assert_eq!(Some(false), r.is_connected());
    r.disconnect().unwrap();
    assert!(!r.keepalive());
    match Reader::new_no_repeaters(1, String::from("IMPINJ"), String::from("x"), String::from("y"), 1, 0) {
        Err(DBError::DataRetrievalError(m)) => assert_eq!("not yet implemented", m),
        _ => panic!("expected an error"),
    }
    match Reader::new_no_repeaters(1, String::from("other"), String::from("x"), String::from("y"), 1, 0) {
        Err(DBError::DataRetrievalError(m)) => assert_eq!("unknown reader kind specified", m),
        _ => panic!("expected an error"),
    }
    let other = Reader::new_no_repeaters(9, String::from("ZEBRA"), String::from("Finish"), String::from("10.0.0.2"), 5084, 0).unwrap();
    assert!(r.equal(&other));
    assert!(may_change_readers(State::Finished));
    assert!(!may_change_readers(State::Waiting));
}

#[test]
fn setup_fills_in_defaults_only_where_missing() {
    let mut store = MemStore::new();
    store.set_setting(&portal::objects::setting::Setting::new(String::from(SETTING_READ_WINDOW), String::from("15"))).unwrap();
    store.setup_with(42);
    assert_eq!("Chrono Portal 42", store.get_setting(SETTING_PORTAL_NAME).unwrap().Value().as_str());
    assert_eq!("15", store.get_setting(SETTING_READ_WINDOW).unwrap().Value().as_str());
    assert_eq!("DEC", store.get_setting("SETTING_CHIP_TYPE").unwrap().Value().as_str());
    assert_eq!("", store.get_setting("SETTING_NTFY_URL").unwrap().Value().as_str());
    assert_eq!("emily", store.get_setting("SETTING_VOICE").unwrap().Value().as_str());
    assert_eq!("ADAFRUIT", store.get_setting("SETTING_SCREEN_TYPE").unwrap().Value().as_str());
    assert!(store.get_setting("SETTING_SIGHTING_PERIOD").is_err());
    store.setup().unwrap();
    assert_eq!("Chrono Portal 42", store.get_setting(SETTING_PORTAL_NAME).unwrap().Value().as_str());
}
