use portal::battery::{battery_alert, BatteryAlert, VoltageHistory};
use portal::control::socket::errors::Errors;
use portal::control::socket::requests::AutoUploadQuery;
use portal::control::socket::session::{plan_upload_query, reader_port, time_set_allowed, ReadRepeaters, UploadPlan};
use portal::reader::Reader;

#[test]
fn subscribing_twice_is_refused() {
    let mut r = ReadRepeaters::new();
    assert!(!r.subscribed(2));
    r.connect(2, true);
    assert!(r.subscribed(2));
    match r.subscribe(2, true) {
        Err(Errors::AlreadySubscribed { message }) => assert_eq!("reads already set to true", message),
        other => panic!("unexpected {:?}", other),
    }
    assert!(r.subscribe(2, false).is_ok());
    assert!(!r.subscribed(2));
    match r.subscribe(2, false) {
        Err(Errors::AlreadySubscribed { message }) => assert_eq!("reads already set to false", message),
        other => panic!("unexpected {:?}", other),
    }
}

#[test]
fn upload_queries_plan_by_running_state() {
    assert_eq!(UploadPlan::Start, plan_upload_query(AutoUploadQuery::Start, false));
    assert_eq!(UploadPlan::AlreadyRunning, plan_upload_query(AutoUploadQuery::Start, true));
    assert_eq!(UploadPlan::Stop, plan_upload_query(AutoUploadQuery::Stop, true));
    assert_eq!(UploadPlan::NotRunning, plan_upload_query(AutoUploadQuery::Stop, false));
    assert_eq!(UploadPlan::Report, plan_upload_query(AutoUploadQuery::Status, true));
}

#[test]
fn time_is_set_only_without_connected_readers() {
    let mut a = Reader::new_no_repeaters(1, String::from("ZEBRA"), String::from("a"), String::from("1"), 5084, 0).unwrap();
    let b = Reader::new_no_repeaters(2, String::from("ZEBRA"), String::from("b"), String::from("2"), 5084, 0).unwrap();
    assert!(time_set_allowed(&vec![]));
    a.set_state(true, true);
    assert!(!time_set_allowed(&vec![a, b]));
    assert_eq!(5084, reader_port(99));
    assert_eq!(100, reader_port(100));
}

#[test]
fn the_average_is_over_the_last_fifty_readings() {
    let mut h = VoltageHistory::new();
    h.push(1000);
    // the sum is divided by fifty even with fewer readings
    assert_eq!(20, h.average());
    for _ in 0..60 {
        h.push(13000);
    }
    assert_eq!(13000, h.average());
    h.push(13050);
    assert_eq!(13001, h.average());
}

#[test]
fn falling_charge_alerts_once_a_minute() {
    assert_eq!(BatteryAlert::Low, battery_alert(31, 30, 1000, 0, 0));
    assert_eq!(BatteryAlert::Quiet, battery_alert(31, 30, 1000, 950, 0));
    assert_eq!(BatteryAlert::Critical, battery_alert(16, 15, 1000, 950, 900));
    assert_eq!(BatteryAlert::Quiet, battery_alert(30, 25, 1000, 0, 0));
    assert_eq!(BatteryAlert::Quiet, battery_alert(16, 15, 1000, 950, 990));
}
