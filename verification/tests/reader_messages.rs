use portal::llrp::message_types::{KEEPALIVE, SET_READER_CONFIG_RESPONSE, READER_EVENT_NOTIFICATION, RO_ACCESS_REPORT, GET_ROSPECS};
use portal::reader::handshake::{outgoing_bytes, Outgoing};
use portal::reader::zebra::dispatch::{decode_message, ReadData, ReaderEvent};
use portal::reader::zebra::frames::{next_frame, keep_leftover, complete_leftover, fill_leftover_header, Frame};
use portal::reader::zebra::{process_llrp_status_parameter, check_tag_read, check_walk, Walker, BUFFER_SIZE};
use portal::reader::zebra::requests;

fn buffer() -> Box<[u8; BUFFER_SIZE]> {
    Box::new([0u8; BUFFER_SIZE])
}

fn put(buf: &mut [u8; BUFFER_SIZE], at: usize, bytes: &[u8]) {
    buf[at..at + bytes.len()].copy_from_slice(bytes);
}

#[test]
fn frames_cut_whole_and_partial_messages() {
    let mut buf = buffer();
    put(&mut buf, 0, &requests::keepalive_ack(&7));
    put(&mut buf, 10, &requests::delete_rospec(&8, &0));
    match next_frame(&buf[..], 0, 24) {
        Frame::Message { kind, id, end, version } => {
            assert_eq!(72, kind);
            assert_eq!(7, id);
            assert_eq!(10, end);
            assert_eq!(1, version);
        },
        other => panic!("unexpected {:?}", other),
    }
    // only part of the second message was read
    assert!(matches!(next_frame(&buf[..], 10, 20), Frame::Partial));
    put(&mut buf, 30, &[0xFF; 10]);
    assert!(matches!(next_frame(&buf[..], 30, 40), Frame::Invalid("invalid reserved field")));
}

#[test]
fn leftovers_carry_over_between_reads() {
    let mut buf = buffer();
    let mut leftover = buffer();
    put(&mut buf, 0, &requests::delete_rospec(&9, &0));
    let kept = keep_leftover(&mut leftover, &buf, 0, 6);
    assert_eq!(6, kept);
    assert_eq!(buf[..6], leftover[..6]);
    let mut next = buffer();
    put(&mut next, 0, &buf[6..14]);
    complete_leftover(&mut leftover, 6, &next, 8);
    assert_eq!(buf[..14], leftover[..14]);
    let mut short = buffer();
    short[0] = 0x04;
    let mut more = buffer();
    put(&mut more, 0, &[0x15, 0, 0, 0, 0x0E]);
    fill_leftover_header(&mut short, 1, &more, 100);
    assert_eq!([0x04, 0x15, 0, 0, 0], short[..5]);
}

#[test]
fn keepalives_and_statuses_decode() {
    let mut buf = buffer();
    assert!(matches!(decode_message(&buf, KEEPALIVE, 44, 10, 10, 0), ReaderEvent::Keepalive { id: 44 }));
    // an LLRP status parameter saying success
    put(&mut buf, 10, &[0x01, 0x1F, 0x00, 0x08, 0x00, 0x00, 0x00, 0x00]);
    match decode_message(&buf, SET_READER_CONFIG_RESPONSE, 1, 10, 18, 0) {
        ReaderEvent::Status { kind, success } => {
            assert_eq!(SET_READER_CONFIG_RESPONSE, kind);
            assert!(success);
        },
        other => panic!("unexpected {:?}", other),
    }
    // an error status with its description
    put(&mut buf, 30, &[0x01, 0x1F, 0x00, 0x0D, 0x00, 0x64, 0x00, 0x04, b'o', b'o', b'p', b's', b'!']);
    match decode_message(&buf, SET_READER_CONFIG_RESPONSE, 1, 30, 43, 0) {
        ReaderEvent::Status { success, .. } => assert!(!success),
        other => panic!("unexpected {:?}", other),
    }
    // the description is read out as text after the status name, one byte past its count
    let text = process_llrp_status_parameter(&buf, 30, &43).unwrap().unwrap();
    assert!(text.ends_with(": oops!"));
    assert!(matches!(decode_message(&buf, GET_ROSPECS, 1, 30, 43, 0), ReaderEvent::Nothing));
}

#[test]
fn antenna_events_decode() {
    let mut buf = buffer();
    // reader event notification data holding one antenna event: antenna 3 connected
    put(&mut buf, 10, &[0x00, 0xF6, 0x00, 0x0D, 0x00, 0xFF, 0x00, 0x09, 0x01, 0x00, 0x03, 0x00, 0x00]);
    match decode_message(&buf, READER_EVENT_NOTIFICATION, 1, 10, 23, 0) {
        ReaderEvent::AntennaChange(ix, state) => {
            assert_eq!(2, ix);
            assert_eq!(1, state);
        },
        other => panic!("unexpected {:?}", other),
    }
    let mut data = ReadData::new(100);
    data.apply(ReaderEvent::AntennaChange(2, 1), 0);
    data.apply(ReaderEvent::Keepalive { id: 1 }, 150);
    data.apply(ReaderEvent::Status { kind: 13, success: true }, 0);
    assert!(data.antenna_data);
    assert_eq!(1, data.antennas[2]);
    assert_eq!(150, data.last_ka_received_at);
    assert_eq!(vec![(13u16, true)], data.status_messages);
}

#[test]
fn walks_that_would_not_end_are_refused() {
    let mut buf = buffer();
    // a tag report whose first inner parameter is a TV parameter: no length, no end
    put(&mut buf, 10, &[0x00, 0xF0, 0x00, 0x10, 0x8D, 0, 0, 0]);
    assert!(!check_tag_read(&buf, 10, 26));
    assert!(matches!(decode_message(&buf, RO_ACCESS_REPORT, 1, 10, 26, 5), ReaderEvent::Nothing));
    // a parameter list reaching past the buffer does not end either
    assert!(!check_walk(Walker::TagReport, &buf, BUFFER_SIZE - 2, BUFFER_SIZE));
    // an empty list ends at once
    assert!(check_walk(Walker::ReaderConfig, &buf, 40, 40));
}

#[test]
fn tag_reports_decode_with_the_portal_time() {
    let mut buf = buffer();
    // tag report data with one peak signal parameter, read at the byte after the parameter's start
    put(&mut buf, 10, &[0x00, 0xF0, 0x00, 0x08, 0x00, 0x06, 0x00, 0x04]);
    match decode_message(&buf, RO_ACCESS_REPORT, 1, 10, 18, 1234) {
        ReaderEvent::Tag(t) => {
            assert_eq!(1234, t.portal_time);
            assert_eq!(6, t.rssi);
        },
        other => panic!("unexpected {:?}", other),
    }
}

#[test]
fn start_up_requests_carry_the_message_id() {
    assert_eq!(requests::set_keepalive(&3).to_vec(), outgoing_bytes(Outgoing::SetKeepalive, 3));
    assert_eq!(requests::add_rospec(&4, &100).to_vec(), outgoing_bytes(Outgoing::AddRospec, 4));
    assert_eq!(requests::get_reader_config(&5, &0, &2, &0, &0).to_vec(), outgoing_bytes(Outgoing::GetReaderConfig, 5));
    assert_eq!(requests::delete_access_spec(&6, &0).to_vec(), outgoing_bytes(Outgoing::DeleteAccessSpec, 6));
}
