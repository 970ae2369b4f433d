use portal::reader::zebra::session::{apply_antennas, keepalive_lapsed, must_purge, shift_antenna_index};
use portal::reader::handshake::{process_status_message, Outgoing};
use portal::reader::{ReaderStatus, MAX_ANTENNAS};
use portal::llrp::message_types::{SET_READER_CONFIG_RESPONSE, START_ROSPEC_RESPONSE, CUSTOM_MESSAGE};

#[test]
fn shifted_layout_maps_ports() {
    assert_eq!(4, shift_antenna_index(0, true));
    assert_eq!(0, shift_antenna_index(1, true));
    assert_eq!(5, shift_antenna_index(2, true));
    assert_eq!(1, shift_antenna_index(3, true));
    assert_eq!(7, shift_antenna_index(6, true));
    assert_eq!(3, shift_antenna_index(7, true));
    assert_eq!(9, shift_antenna_index(9, true));
    assert_eq!(6, shift_antenna_index(6, false));
    let mut seen = [false; MAX_ANTENNAS];
    for ix in 0..MAX_ANTENNAS {
        let to = shift_antenna_index(ix, true);
        assert!(!seen[to]);
        seen[to] = true;
    }
}

#[test]
fn antenna_reports_update_only_reported_ports() {
    let mut current = [0u8; MAX_ANTENNAS];
    current[5] = 2;
    let mut report = [0u8; MAX_ANTENNAS];
    report[0] = 1;
    report[1] = 2;
    apply_antennas(&mut current, &report, false);
    assert_eq!(1, current[0]);
    assert_eq!(2, current[1]);
    assert_eq!(2, current[5]);
    let mut shifted = [0u8; MAX_ANTENNAS];
    apply_antennas(&mut shifted, &report, true);
    assert_eq!(1, shifted[4]);
    assert_eq!(2, shifted[0]);
    assert_eq!(0, shifted[1]);
}

#[test]
fn keepalive_and_purge_thresholds() {
    assert!(!keepalive_lapsed(105, 100));
    assert!(keepalive_lapsed(106, 100));
    assert!(!must_purge(100000));
    assert!(must_purge(100001));
}

#[test]
fn start_up_exchange_walks_to_connected() {
    let (s, a, out) = process_status_message(ReaderStatus::ConnectingKeepalive, 0, SET_READER_CONFIG_RESPONSE, true);
    assert_eq!(ReaderStatus::ConnectingPurgeTags, s);
    assert_eq!(0, a);
    assert_eq!(vec![Outgoing::PurgeTags], out);
    let (s, _, out) = process_status_message(s, 0, CUSTOM_MESSAGE, true);
    assert_eq!(ReaderStatus::ConnectingSetNoFilter, s);
    assert_eq!(vec![Outgoing::SetNoFilter], out);
    let (s, _, out) = process_status_message(ReaderStatus::ConnectingStartRospec, 3, START_ROSPEC_RESPONSE, true);
    assert_eq!(ReaderStatus::Connected, s);
    assert!(out.is_empty());
}

#[test]
fn failures_retry_then_disconnect() {
    let (s, a, out) = process_status_message(ReaderStatus::ConnectingKeepalive, 0, SET_READER_CONFIG_RESPONSE, false);
    assert_eq!(ReaderStatus::ConnectingKeepalive, s);
    assert_eq!(1, a);
    assert_eq!(vec![Outgoing::SetKeepalive], out);
    let (s, a, out) = process_status_message(ReaderStatus::ConnectingKeepalive, 5, SET_READER_CONFIG_RESPONSE, false);
    assert_eq!(ReaderStatus::Disconnected, s);
    assert_eq!(6, a);
    assert!(out.is_empty());
}
