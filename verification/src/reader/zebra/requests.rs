//! Byte images of the LLRP requests the portal sends to Zebra readers.
use vstd::prelude::*;
use crate::llrp::bit_masks::{msg_prefix, u16_be_bytes, u32_be_bytes};
use crate::llrp::message_types;

verus! {

/// The two header bytes and the four bytes of `id` for a message of type `kind`.
fn header_bytes(kind: u16) -> (r: (u8, u8))
    requires
        kind < 1024,
    ensures
        seq![r.0, r.1] == u16_be_bytes((1024 + kind) as u16),
{
    assert((1u16 << 10) == 1024) by (bit_vector);
    let header: u16 = (1u16 << 10) + kind;
    assert(((header & 0xFF00) >> 8) as u8 == (header / 256) as u8 && (header & 0x00FF) as u8 == (header % 256) as u8) by (bit_vector);
    (((header & 0xFF00) >> 8) as u8, (header & 0x00FF) as u8)
}

/// The four bytes of `x`, most significant first.
fn be_bytes(x: u32) -> (r: (u8, u8, u8, u8))
    ensures
        seq![r.0, r.1, r.2, r.3] == u32_be_bytes(x),
{
    assert(((x & 0xFF000000) >> 24) as u8 == (x / 0x1000000) as u8
        && ((x & 0x00FF0000) >> 16) as u8 == ((x / 0x10000) % 256) as u8
        && ((x & 0x0000FF00) >> 8) as u8 == ((x / 256) % 256) as u8
        && (x & 0x000000FF) as u8 == (x % 256) as u8) by (bit_vector);
    (((x & 0xFF000000) >> 24) as u8, ((x & 0x00FF0000) >> 16) as u8, ((x & 0x0000FF00) >> 8) as u8, (x & 0x000000FF) as u8)
}

/// Everything after the header of a reader capabilities request: all capabilities, plus the vendor request for general capabilities.
pub open spec fn capabilities_body() -> Seq<u8> {
    seq![0x00, 0x03, 0xFF, 0x00, 0x0D, 0x00, 0x00, 0x00, 0xA1, 0x00, 0x00, 0x00, 0x32, 0x00]
}

/// Everything after the RO spec id of an add RO spec request: an RO spec that starts and stops on command, inventories all antennas and reports every read with antenna, peak RSSI and first seen time.
pub open spec fn add_rospec_body() -> Seq<u8> {
    seq![0x00, 0x00, 0x00, 0xB2, 0x00, 0x12, 0x00, 0xB3, 0x00, 0x05, 0x00, 0x00, 0xB6, 0x00, 0x09, 0x00, 0x00, 0x00, 0x00, 0x00, 0x00, 0xB7, 0x00, 0x18, 0x00, 0x01, 0x00, 0x00, 0x00, 0xB8, 0x00, 0x09, 0x00, 0x00, 0x00, 0x00, 0x00, 0x00, 0xBA, 0x00, 0x07, 0x00, 0x13, 0x01, 0x00, 0xED, 0x00, 0x22, 0x02, 0x00, 0x01, 0x00, 0xEE, 0x00, 0x0B, 0x96, 0x00, 0x01, 0x5C, 0x00, 0x05, 0x00, 0x03, 0xFF, 0x00, 0x10, 0x00, 0x00, 0x00, 0xA1, 0x00, 0x00, 0x02, 0xC4, 0x00, 0x00, 0x00, 0x00]
}

/// Everything after the header of a purge tags request: the vendor id and the purge subtype.
pub open spec fn purge_tags_body() -> Seq<u8> {
    seq![0x00, 0x00, 0x00, 0xA1, 0x03, 0x00]
}

/// Everything after the header of a set keepalive request: a periodic keepalive every 2000 ms.
pub open spec fn keepalive_body() -> Seq<u8> {
    seq![0x00, 0x00, 0xDC, 0x00, 0x09, 0x01, 0x00, 0x00, 0x07, 0xD0]
}

/// Everything after the header of a set no filter request: the vendor parameter that turns filtering off.
pub open spec fn no_filter_body() -> Seq<u8> {
    seq![0x00, 0x03, 0xFF, 0x00, 0x10, 0x00, 0x00, 0x00, 0xA1, 0x00, 0x00, 0x00, 0xFF, 0x00, 0x00, 0x00, 0x00]
}

/// Everything after the header of a set reader config request: RO spec, buffer warning and exception events on, and events held on reconnect.
pub open spec fn reader_config_body() -> Seq<u8> {
    seq![0x00, 0x00, 0xF4, 0x00, 0x19, 0x00, 0xF5, 0x00, 0x07, 0x00, 0x02, 0x80, 0x00, 0xF5, 0x00, 0x07, 0x00, 0x03, 0x80, 0x00, 0xF5, 0x00, 0x07, 0x00, 0x04, 0x80, 0x00, 0xE2, 0x00, 0x05, 0x80]
}

pub fn get_reader_capabilities(id: &u32) -> (r: [u8; 24])
    ensures
        r@ == msg_prefix(message_types::GET_READER_CAPABILITIES, 24, *id) + capabilities_body(),
{
    let (h0, h1) = header_bytes(message_types::GET_READER_CAPABILITIES);
    let (i0, i1, i2, i3) = be_bytes(*id);
    let r = [h0, h1, 0x00, 0x00, 0x00, 0x18, i0, i1, i2, i3, 0x00, 0x03, 0xFF, 0x00, 0x0D, 0x00, 0x00, 0x00, 0xA1, 0x00, 0x00, 0x00, 0x32, 0x00];
    assert(r@ =~= msg_prefix(message_types::GET_READER_CAPABILITIES, 24, *id) + capabilities_body());
    r
}

pub fn add_rospec(id: &u32, rospec_id: &u32) -> (r: [u8; 96])
    ensures
        r@ == msg_prefix(message_types::ADD_ROSPEC, 96, *id) + seq![0x00, 0xB1, 0x00, 0x56] + u32_be_bytes(*rospec_id) + add_rospec_body(),
{
    let (h0, h1) = header_bytes(message_types::ADD_ROSPEC);
    let (i0, i1, i2, i3) = be_bytes(*id);
    let (s0, s1, s2, s3) = be_bytes(*rospec_id);
    let r = [h0, h1, 0x00, 0x00, 0x00, 0x60, i0, i1, i2, i3, 0x00, 0xB1, 0x00, 0x56, s0, s1, s2, s3, 0x00, 0x00, 0x00, 0xB2, 0x00, 0x12, 0x00, 0xB3, 0x00, 0x05, 0x00, 0x00, 0xB6, 0x00, 0x09, 0x00, 0x00, 0x00, 0x00, 0x00, 0x00, 0xB7, 0x00, 0x18, 0x00, 0x01, 0x00, 0x00, 0x00, 0xB8, 0x00, 0x09, 0x00, 0x00, 0x00, 0x00, 0x00, 0x00, 0xBA, 0x00, 0x07, 0x00, 0x13, 0x01, 0x00, 0xED, 0x00, 0x22, 0x02, 0x00, 0x01, 0x00, 0xEE, 0x00, 0x0B, 0x96, 0x00, 0x01, 0x5C, 0x00, 0x05, 0x00, 0x03, 0xFF, 0x00, 0x10, 0x00, 0x00, 0x00, 0xA1, 0x00, 0x00, 0x02, 0xC4, 0x00, 0x00, 0x00, 0x00];
    assert(r@ =~= msg_prefix(message_types::ADD_ROSPEC, 96, *id) + seq![0x00, 0xB1, 0x00, 0x56] + u32_be_bytes(*rospec_id) + add_rospec_body());
    r
}

pub fn delete_rospec(id: &u32, rospec_id: &u32) -> (r: [u8; 14])
    ensures
        r@ == msg_prefix(message_types::DELETE_ROSPEC, 14, *id) + u32_be_bytes(*rospec_id),
{
    len_14(message_types::DELETE_ROSPEC, id, rospec_id)
}

pub fn start_rospec(id: &u32, rospec_id: &u32) -> (r: [u8; 14])
    ensures
        r@ == msg_prefix(message_types::START_ROSPEC, 14, *id) + u32_be_bytes(*rospec_id),
{
    len_14(message_types::START_ROSPEC, id, rospec_id)
}

pub fn stop_rospec(id: &u32, rospec_id: &u32) -> (r: [u8; 14])
    ensures
        r@ == msg_prefix(message_types::STOP_ROSPEC, 14, *id) + u32_be_bytes(*rospec_id),
{
    len_14(message_types::STOP_ROSPEC, id, rospec_id)
}

pub fn enable_rospec(id: &u32, rospec_id: &u32) -> (r: [u8; 14])
    ensures
        r@ == msg_prefix(message_types::ENABLE_ROSPEC, 14, *id) + u32_be_bytes(*rospec_id),
{
    len_14(message_types::ENABLE_ROSPEC, id, rospec_id)
}

pub fn disable_rospec(id: &u32, rospec_id: &u32) -> (r: [u8; 14])
    ensures
        r@ == msg_prefix(message_types::DISABLE_ROSPEC, 14, *id) + u32_be_bytes(*rospec_id),
{
    len_14(message_types::DISABLE_ROSPEC, id, rospec_id)
}

pub fn get_rospecs(id: &u32) -> (r: [u8; 10])
    ensures
        r@ == msg_prefix(message_types::GET_ROSPECS, 10, *id),
{
    len_10(message_types::GET_ROSPECS, id)
}

pub fn delete_access_spec(id: &u32, as_id: &u32) -> (r: [u8; 14])
    ensures
        r@ == msg_prefix(message_types::DELETE_ACCESS_SPEC, 14, *id) + u32_be_bytes(*as_id),
{
    len_14(message_types::DELETE_ACCESS_SPEC, id, as_id)
}

pub fn purge_tags(id: &u32) -> (r: [u8; 16])
    ensures
        r@ == msg_prefix(message_types::CUSTOM_MESSAGE, 16, *id) + purge_tags_body(),
{
    let (h0, h1) = header_bytes(message_types::CUSTOM_MESSAGE);
    let (i0, i1, i2, i3) = be_bytes(*id);
    let r = [h0, h1, 0x00, 0x00, 0x00, 0x10, i0, i1, i2, i3, 0x00, 0x00, 0x00, 0xA1, 0x03, 0x00];
    assert(r@ =~= msg_prefix(message_types::CUSTOM_MESSAGE, 16, *id) + purge_tags_body());
    r
}

pub fn get_access_specs(id: &u32) -> (r: [u8; 10])
    ensures
        r@ == msg_prefix(message_types::GET_ACCESS_SPECS, 10, *id),
{
    len_10(message_types::GET_ACCESS_SPECS, id)
}

pub fn get_reader_config(id: &u32, ant_id: &u16, config: &u8, gpi_port: &u16, gpo_port: &u16) -> (r: [u8; 17])
    ensures
        r@ == msg_prefix(message_types::GET_READER_CONFIG, 17, *id) + u16_be_bytes(*ant_id) + seq![*config]
            + u16_be_bytes(*gpi_port) + u16_be_bytes(*gpo_port),
{
    let (h0, h1) = header_bytes(message_types::GET_READER_CONFIG);
    let (i0, i1, i2, i3) = be_bytes(*id);
    let (a0, a1) = short_bytes(*ant_id);
    let (g0, g1) = short_bytes(*gpi_port);
    let (o0, o1) = short_bytes(*gpo_port);
    let r = [h0, h1, 0x00, 0x00, 0x00, 0x11, i0, i1, i2, i3, a0, a1, *config, g0, g1, o0, o1];
    assert(r@ =~= msg_prefix(message_types::GET_READER_CONFIG, 17, *id) + u16_be_bytes(*ant_id) + seq![*config]
        + u16_be_bytes(*gpi_port) + u16_be_bytes(*gpo_port));
    r
}

/// The two bytes of `x`, most significant first.
fn short_bytes(x: u16) -> (r: (u8, u8))
    ensures
        seq![r.0, r.1] == u16_be_bytes(x),
{
    assert(((x & 0xFF00) >> 8) as u8 == (x / 256) as u8 && (x & 0xFF) as u8 == (x % 256) as u8) by (bit_vector);
    (((x & 0xFF00) >> 8) as u8, (x & 0xFF) as u8)
}

pub fn set_keepalive(id: &u32) -> (r: [u8; 20])
    ensures
        r@ == msg_prefix(message_types::SET_READER_CONFIG, 20, *id) + keepalive_body(),
{
    let (h0, h1) = header_bytes(message_types::SET_READER_CONFIG);
    let (i0, i1, i2, i3) = be_bytes(*id);
    let r = [h0, h1, 0x00, 0x00, 0x00, 0x14, i0, i1, i2, i3, 0x00, 0x00, 0xDC, 0x00, 0x09, 0x01, 0x00, 0x00, 0x07, 0xD0];
    assert(r@ =~= msg_prefix(message_types::SET_READER_CONFIG, 20, *id) + keepalive_body());
    r
}

pub fn set_no_filter(id: &u32) -> (r: [u8; 27])
    ensures
        r@ == msg_prefix(message_types::SET_READER_CONFIG, 27, *id) + no_filter_body(),
{
    let (h0, h1) = header_bytes(message_types::SET_READER_CONFIG);
    let (i0, i1, i2, i3) = be_bytes(*id);
    let r = [h0, h1, 0x00, 0x00, 0x00, 0x1B, i0, i1, i2, i3, 0x00, 0x03, 0xFF, 0x00, 0x10, 0x00, 0x00, 0x00, 0xA1, 0x00, 0x00, 0x00, 0xFF, 0x00, 0x00, 0x00, 0x00];
    assert(r@ =~= msg_prefix(message_types::SET_READER_CONFIG, 27, *id) + no_filter_body());
    r
}

pub fn set_reader_config(id: &u32) -> (r: [u8; 41])
    ensures
        r@ == msg_prefix(message_types::SET_READER_CONFIG, 41, *id) + reader_config_body(),
{
    let (h0, h1) = header_bytes(message_types::SET_READER_CONFIG);
    let (i0, i1, i2, i3) = be_bytes(*id);
    let r = [h0, h1, 0x00, 0x00, 0x00, 0x29, i0, i1, i2, i3, 0x00, 0x00, 0xF4, 0x00, 0x19, 0x00, 0xF5, 0x00, 0x07, 0x00, 0x02, 0x80, 0x00, 0xF5, 0x00, 0x07, 0x00, 0x03, 0x80, 0x00, 0xF5, 0x00, 0x07, 0x00, 0x04, 0x80, 0x00, 0xE2, 0x00, 0x05, 0x80];
    assert(r@ =~= msg_prefix(message_types::SET_READER_CONFIG, 41, *id) + reader_config_body());
    r
}

pub fn close_connection(id: &u32) -> (r: [u8; 10])
    ensures
        r@ == msg_prefix(message_types::CLOSE_CONNECTION, 10, *id),
{
    len_10(message_types::CLOSE_CONNECTION, id)
}

pub fn keepalive_ack(id: &u32) -> (r: [u8; 10])
    ensures
        r@ == msg_prefix(message_types::KEEPALIVE_ACK, 10, *id),
{
    len_10(message_types::KEEPALIVE_ACK, id)
}

pub fn enable_events_and_reports(id: &u32) -> (r: [u8; 10])
    ensures
        r@ == msg_prefix(message_types::ENABLE_EVENTS_AND_REPORTS, 10, *id),
{
    len_10(message_types::ENABLE_EVENTS_AND_REPORTS, id)
}

pub fn len_14(kind: u16, id: &u32, s_id: &u32) -> (r: [u8; 14])
    requires
        kind < 1024,
    ensures
        r@ == msg_prefix(kind, 14, *id) + u32_be_bytes(*s_id),
{
    let (h0, h1) = header_bytes(kind);
    let (i0, i1, i2, i3) = be_bytes(*id);
    let (s0, s1, s2, s3) = be_bytes(*s_id);
    let r = [h0, h1, 0x00, 0x00, 0x00, 0x0E, i0, i1, i2, i3, s0, s1, s2, s3];
    assert(r@ =~= msg_prefix(kind, 14, *id) + u32_be_bytes(*s_id));
    r
}

pub fn len_10(kind: u16, id: &u32) -> (r: [u8; 10])
    requires
        kind < 1024,
    ensures
        r@ == msg_prefix(kind, 10, *id),
{
    let (h0, h1) = header_bytes(kind);
    let (i0, i1, i2, i3) = be_bytes(*id);
    let r = [h0, h1, 0x00, 0x00, 0x00, 0x0A, i0, i1, i2, i3];
    assert(r@ =~= msg_prefix(kind, 10, *id));
    r
}

} // verus!
