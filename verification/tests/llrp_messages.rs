use portal::llrp::bit_masks::{get_msg_type, get_param_type};
use portal::llrp::message_types::{get_message_name, KEEPALIVE, RO_ACCESS_REPORT};
use portal::llrp::parameter_types::{get_parameter_name, get_llrp_status_name};
use portal::llrp::requests;
use portal::reader::zebra::requests as zebra_requests;

#[test]
fn message_headers_decode() {
    let msg = zebra_requests::keepalive_ack(&0x01020304);
    assert_eq!([0x04, 0x48, 0, 0, 0, 10, 1, 2, 3, 4], msg);
    let info = get_msg_type(&msg).unwrap();
    assert_eq!(1, info.version);
    assert_eq!(72, info.kind);
    assert_eq!(10, info.length);
    assert_eq!(0x01020304, info.id);
    assert_eq!(Err("invalid reserved field"), get_msg_type(&[0xE0, 0, 0, 0, 0, 10, 0, 0, 0, 1]).map(|i| i.kind));
    assert_eq!(Err("invalid version specified"), get_msg_type(&[0x0C, 0, 0, 0, 0, 10, 0, 0, 0, 1]).map(|i| i.kind));
}

#[test]
fn generic_requests_share_one_header() {
    let expected = [0x04u8, 0x23, 0, 0, 0, 10, 0, 0, 0, 9];
    assert_eq!(expected, requests::get_rospecs(&9));
    assert_eq!(expected, requests::close_connection(&9));
    assert_eq!(expected, requests::keepalive_ack(&9));
}

#[test]
fn names() {
    assert_eq!(Some("KEEPALIVE"), get_message_name(KEEPALIVE));
    assert_eq!(Some("RO_ACCESS_REPORT"), get_message_name(RO_ACCESS_REPORT));
    assert_eq!(None, get_message_name(999));
    assert!(get_parameter_name(287).is_some());
    assert!(get_llrp_status_name(0).is_some());
}

#[test]
fn parameter_headers_decode() {
    // a TV parameter: top bit set, type in the next seven bits
    let tv = get_param_type(&0x8100_0000u32).unwrap();
    assert!(tv.tv);
    assert_eq!(1, tv.kind);
    // a TLV parameter of type 287 and length 8
    let tlv = get_param_type(&((287u32 << 16) | 8)).unwrap();
    assert!(!tlv.tv);
    assert_eq!(287, tlv.kind);
    assert_eq!(8, tlv.length);
}

#[test]
fn parameter_headers_reserve_the_top_six_bits() {
    let custom = get_param_type(&0x03FF0010).ok().unwrap();
    assert!(!custom.tv);
    assert_eq!(1023, custom.kind);
    assert_eq!(16, custom.length);
    assert!(get_param_type(&0x02000010).is_ok());
    assert_eq!(Some("invalid reserved field"), get_param_type(&0x04000010).err());
    assert_eq!(Some("invalid reserved field"), get_param_type(&0x7C000010).err());
    let tv = get_param_type(&0x81000000).ok().unwrap();
    assert!(tv.tv);
    assert_eq!(1, tv.kind);
}
