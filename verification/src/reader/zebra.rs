//! The Zebra (LLRP) reader: requests, report parsing and read windows.
use vstd::prelude::*;
use crate::llrp::bit_masks::{be32, be16, get_param_type, param_type_spec};
use crate::llrp::parameter_types;
use vstd::string::StringExecFns;
use vstd::utf8::{valid_utf8, decode_utf8};
use crate::llrp::parameter_types::{get_llrp_status_name, llrp_status_name};
use crate::text::str_from_utf8;
use super::{MAX_ANTENNAS, ANTENNA_STATUS_CONNECTED, ANTENNA_STATUS_DISCONNECTED};

pub mod requests;
pub mod window;
pub mod session;
pub mod frames;
pub mod dispatch;

verus! {

pub const DEFAULT_ZEBRA_PORT: u16 = 5084;
pub const BUFFER_SIZE: usize = 65536;
/// FX7500 stops around 750k to 900k tags, FX9600 around 5.5 million tags.
pub const TAG_LIMIT: usize = 100000;

pub const WRITEABLE_FILE_PATH: &'static str = "PORTAL_WRITEABLE_FILE_PATH";
pub const ZEBRA_SHIFT: &'static str = "PORTAL_ZEBRA_SHIFT";

/// One sighting of a tag as a reader reports it.
#[derive(Debug, Clone, Copy)]
pub struct TagData {
    pub tag: u128,
    pub antenna: u16,
    pub rssi: i8,
    pub first_seen: u128,
    pub last_seen: u128,
    pub reader_time: u128,
    pub portal_time: u128,
}

impl TagData {
    pub fn tag(&self) -> (r: u128)
        ensures
            r == self.tag,
    {
        self.tag
    }
}

/// The header of the parameter starting at `ix`, decoded.
pub open spec fn header_at(b: Seq<u8>, ix: int) -> Option<(bool, u16, u16)> {
    param_type_spec(be32(b, ix) as u32)
}

/// Big-endian value of the `n` bytes of `s` starting at `i`.
pub open spec fn be_val(s: Seq<u8>, i: int, n: nat) -> nat
    decreases n,
{
    if n == 0 {
        0
    } else {
        be_val(s, i, (n - 1) as nat) * 256 + s[i + n - 1] as nat
    }
}

pub open spec fn pow256(n: nat) -> nat
    decreases n,
{
    if n == 0 {
        1
    } else {
        pow256((n - 1) as nat) * 256
    }
}

proof fn lemma_be_val_bound(s: Seq<u8>, i: int, n: nat)
    ensures
        be_val(s, i, n) < pow256(n),
    decreases n,
{
    if n > 0 {
        lemma_be_val_bound(s, i, (n - 1) as nat);
        let p = pow256((n - 1) as nat);
        let v = be_val(s, i, (n - 1) as nat);
        assert(v * 256 + (s[i + n - 1] as nat) < p * 256) by (nonlinear_arith)
            requires v < p, s[i + n - 1] < 256;
    }
}

/// The parsers that walk a list of parameters.
#[derive(Clone, Copy)]
pub enum Walker {
    TagReport,
    EventNotification,
    ReaderConfig,
}

/// The last byte offset, from a parameter's start, that a walker reads for a parameter of type `kind`.
pub open spec fn reach(w: Walker, kind: u16) -> int {
    match w {
        Walker::TagReport => if kind == parameter_types::EPC_96 {
            12
        } else if kind == parameter_types::FIRST_SEEN_TIMESTAMP_UTC || kind == parameter_types::LAST_SEEN_TIMESTAMP_UTC {
            8
        } else {
            3
        },
        Walker::EventNotification => if kind == parameter_types::ANTENNA_EVENT { 6 } else { 3 },
        Walker::ReaderConfig => if kind == parameter_types::ANTENNA_PROPERTIES { 6 } else { 3 },
    }
}

/// The antenna number carried at bytes 5 and 6 of an antenna parameter.
pub open spec fn antenna_number(b: Seq<u8>, ix: int) -> int {
    be16(b[ix + 5], b[ix + 6])
}

/// Whether a walker gives up (with an error) at the parameter starting at `ix`.
pub open spec fn stops_at(w: Walker, b: Seq<u8>, ix: int, kind: u16) -> bool {
    match w {
        Walker::TagReport => false,
        Walker::EventNotification => kind == parameter_types::ANTENNA_EVENT && antenna_number(b, ix) > MAX_ANTENNAS,
        Walker::ReaderConfig => kind == parameter_types::ANTENNA_PROPERTIES && antenna_number(b, ix) > MAX_ANTENNAS,
    }
}

/// A walk over the parameters from `ix` up to `max` ends without reading past
/// the buffer: each parameter it meets, with the bytes read for it, lies inside
/// the buffer, and each well-formed parameter it steps over has a nonzero length.
/// (A TV parameter has no length field, so a walk that meets one inside the
/// range does not end.)
pub open spec fn walk_ends(w: Walker, b: Seq<u8>, ix: int, max: int) -> bool
    decreases max - ix,
{
    if ix >= max {
        true
    } else if ix < 0 || ix + 4 > b.len() {
        false
    } else {
        match header_at(b, ix) {
            None => true,
            Some((_, kind, len)) => ix + reach(w, kind) < b.len() && (stops_at(w, b, ix, kind) || (len > 0
                && (ix + len >= max || walk_ends(w, b, ix + len, max)))),
        }
    }
}

/// A tag sighting updated by one parameter of a tag report.
pub open spec fn tag_update(b: Seq<u8>, ix: int, kind: u16, d: TagData) -> TagData {
    if kind == parameter_types::EPC_96 {
        TagData { tag: be_val(b, ix + 1, 12) as u128, ..d }
    } else if kind == parameter_types::ANTENNA_ID {
        TagData { antenna: be16(b[ix + 1], b[ix + 2]) as u16, ..d }
    } else if kind == parameter_types::PEAK_RSSI {
        TagData { rssi: b[ix + 1] as i8, ..d }
    } else if kind == parameter_types::FIRST_SEEN_TIMESTAMP_UTC {
        TagData { reader_time: be_val(b, ix + 1, 8) as u128, ..d }
    } else if kind == parameter_types::LAST_SEEN_TIMESTAMP_UTC {
        TagData { last_seen: be_val(b, ix + 1, 8) as u128, ..d }
    } else {
        d
    }
}

/// The tag sighting a walk over the parameters of a tag report builds: each
/// parameter updates the field it carries, later parameters win.
pub open spec fn tag_walk(b: Seq<u8>, ix: int, max: int, d: TagData) -> Option<TagData>
    decreases max - ix,
{
    if ix >= max {
        Some(d)
    } else {
        match header_at(b, ix) {
            None => None,
            Some((_, kind, len)) => if len == 0 {
                Some(d)
            } else if ix + len >= max {
                Some(tag_update(b, ix, kind, d))
            } else {
                tag_walk(b, ix + len, max, tag_update(b, ix, kind, d))
            },
        }
    }
}

/// A tag sighting with nothing read yet, seen by the portal at `portal_time`.
pub open spec fn empty_tag(portal_time: u128) -> TagData {
    TagData { tag: 0, antenna: 0, rssi: 0, first_seen: 0, last_seen: 0, reader_time: 0, portal_time }
}

/// What reading a tag report parameter at `start` gives.
pub open spec fn tag_read_spec(b: Seq<u8>, start: int, max: int, portal_time: u128) -> Result<Option<TagData>, &'static str> {
    match header_at(b, start) {
        None => Err("unable to get parameter info"),
        Some((_, kind, len)) => if kind != parameter_types::TAG_REPORT_DATA || len < 5 {
            Ok(None)
        } else {
            match tag_walk(b, start + 4, max, empty_tag(portal_time)) {
                None => Err("unable to get parameter info"),
                Some(d) => Ok(Some(d)),
            }
        },
    }
}

/// The inputs on which reading a tag report returns.
pub open spec fn tag_read_ends(b: Seq<u8>, start: int, max: int) -> bool {
    &&& 0 <= start
    &&& start + 4 <= b.len()
    &&& (header_at(b, start) matches Some((_, kind, len)) && kind == parameter_types::TAG_REPORT_DATA && len >= 5)
        ==> walk_ends(Walker::TagReport, b, start + 4, max)
}

/// The 32-bit word at `ix`, most significant byte first.
fn read_u32(buf: &[u8; BUFFER_SIZE], ix: usize) -> (r: u32)
    requires
        ix + 4 <= BUFFER_SIZE,
    ensures
        r as int == be32(buf@, ix as int),
{
    let b0 = buf[ix];
    let b1 = buf[ix + 1];
    let b2 = buf[ix + 2];
    let b3 = buf[ix + 3];
    assert((((b0 as u32) << 24) + ((b1 as u32) << 16) + ((b2 as u32) << 8) + (b3 as u32)) as int
        == ((b0 as int * 256 + b1 as int) * 256 + b2 as int) * 256 + b3 as int) by (bit_vector);
    ((b0 as u32) << 24) + ((b1 as u32) << 16) + ((b2 as u32) << 8) + (b3 as u32)
}

/// The big-endian value of `n` bytes starting at `ix`.
fn read_be(buf: &[u8; BUFFER_SIZE], ix: usize, n: usize) -> (r: u128)
    requires
        ix + n <= BUFFER_SIZE,
        n <= 12,
    ensures
        r as nat == be_val(buf@, ix as int, n as nat),
{
    let mut acc: u128 = 0;
    let mut k: usize = 0;
    proof {
        reveal_with_fuel(pow256, 13);
    }
    while k < n
        invariant
            k <= n <= 12,
            ix + n <= BUFFER_SIZE,
            acc as nat == be_val(buf@, ix as int, k as nat),
            pow256(12) == 79228162514264337593543950336nat,
        decreases n - k,
    {
        proof {
            lemma_be_val_bound(buf@, ix as int, k as nat);
            lemma_pow256_mono(k as nat, 11);
        }
        acc = acc * 256 + buf[ix + k] as u128;
        k += 1;
    }
    acc
}

proof fn lemma_pow256_mono(a: nat, b: nat)
    requires
        a <= b,
    ensures
        pow256(a) <= pow256(b),
    decreases b - a,
{
    if a < b {
        lemma_pow256_mono(a, (b - 1) as nat);
    }
}

pub fn process_tag_read_at(buf: &[u8; BUFFER_SIZE], start_ix: usize, max_ix: &usize, portal_time: u128) -> (r: Result<Option<TagData>, &'static str>)
    requires
        tag_read_ends(buf@, start_ix as int, *max_ix as int),
    ensures
        r == tag_read_spec(buf@, start_ix as int, *max_ix as int, portal_time),
{
    let bits = read_u32(buf, start_ix);
    let param_info = match get_param_type(&bits) {
        Ok(info) => info,
        Err(_) => return Err("unable to get parameter info"),
    };
    if param_info.kind != parameter_types::TAG_REPORT_DATA {
        return Ok(None);
    }
    if param_info.length < 5 {
        return Ok(None);
    }
    let mut data = TagData { tag: 0, antenna: 0, rssi: 0, first_seen: 0, last_seen: 0, reader_time: 0, portal_time };
    let mut param_ix = start_ix + 4;
    let max = *max_ix;
    while param_ix < max
        invariant
            max == *max_ix,
            walk_ends(Walker::TagReport, buf@, param_ix as int, max as int),
            tag_walk(buf@, param_ix as int, max as int, data)
                == tag_walk(buf@, start_ix + 4, max as int, empty_tag(portal_time)),
            tag_read_spec(buf@, start_ix as int, max as int, portal_time) == match tag_walk(
                buf@, start_ix + 4, max as int, empty_tag(portal_time)) {
                None => Err::<Option<TagData>, &'static str>("unable to get parameter info"),
                Some(d) => Ok(Some(d)),
            },
        decreases if param_ix < max { max - param_ix } else { 0 },
    {
        let bits = read_u32(buf, param_ix);
        assert(bits == be32(buf@, param_ix as int) as u32);
        let info = match get_param_type(&bits) {
            Ok(info) => info,
            Err(_) => {
                assert(tag_walk(buf@, param_ix as int, max as int, data) is None);
                return Err("unable to get parameter info");
            },
        };
        let kind = info.kind;
        if kind == parameter_types::EPC_96 {
            data.tag = read_be(buf, param_ix + 1, 12);
        } else if kind == parameter_types::ANTENNA_ID {
            let hi = buf[param_ix + 1];
            let lo = buf[param_ix + 2];
            assert(((hi as u16) << 8) + (lo as u16) == hi as u16 * 256 + lo as u16) by (bit_vector);
            data.antenna = ((hi as u16) << 8) + (lo as u16);
        } else if kind == parameter_types::PEAK_RSSI {
            data.rssi = buf[param_ix + 1] as i8;
        } else if kind == parameter_types::FIRST_SEEN_TIMESTAMP_UTC {
            data.reader_time = read_be(buf, param_ix + 1, 8);
        } else if kind == parameter_types::LAST_SEEN_TIMESTAMP_UTC {
            data.last_seen = read_be(buf, param_ix + 1, 8);
        }
        param_ix += info.length as usize;
    }
    Ok(Some(data))
}


/// Reads a tag report parameter at `start_ix`, stamping the sighting with the
/// portal's clock; a clock that reads before the epoch stamps 0.
pub fn process_tag_read(buf: &[u8; BUFFER_SIZE], start_ix: usize, max_ix: &usize) -> (r: Result<Option<TagData>, &'static str>)
    requires
        tag_read_ends(buf@, start_ix as int, *max_ix as int),
    ensures
        exists|t: u128| r == tag_read_spec(buf@, start_ix as int, *max_ix as int, t),
{
    let now = match crate::clock::now_micros() {
        Some(t) => t,
        None => 0,
    };
    process_tag_read_at(buf, start_ix, max_ix, now)
}

/// The antenna state a walk over reader event notification parameters
/// reports: the last antenna event wins.
pub open spec fn event_walk(b: Seq<u8>, ix: int, max: int, out: Option<(usize, u8)>) -> Result<Option<(usize, u8)>, &'static str>
    decreases max - ix,
{
    if ix >= max {
        Ok(out)
    } else {
        match header_at(b, ix) {
            None => Err("unable to get parameter info"),
            Some((_, kind, len)) => {
                if kind == parameter_types::ANTENNA_EVENT && antenna_number(b, ix) > MAX_ANTENNAS {
                    Err("antenna number greater than the max number of antennas supported")
                } else {
                    let next = if kind == parameter_types::ANTENNA_EVENT {
                        Some((antenna_index(antenna_number(b, ix)), antenna_state(b[ix + 4])))
                    } else {
                        out
                    };
                    if len == 0 || ix + len >= max {
                        Ok(next)
                    } else {
                        event_walk(b, ix + len, max, next)
                    }
                }
            },
        }
    }
}

/// Antenna numbers start at 1; a zero stays zero.
pub open spec fn antenna_index(n: int) -> usize {
    if n > 0 { (n - 1) as usize } else { 0 }
}

/// The connected byte of an antenna parameter: zero means disconnected.
pub open spec fn antenna_state(byte: u8) -> u8 {
    if byte == 0 { ANTENNA_STATUS_DISCONNECTED } else { ANTENNA_STATUS_CONNECTED }
}

/// A reader event notification holding one antenna event reports that
/// antenna, numbered from zero: disconnected when the event's state byte is
/// zero, connected when it is anything else.
pub proof fn law_antenna_event_state_follows_its_byte(b: Seq<u8>, start: int, max: int)
    requires
        header_at(b, start) matches Some((_, kind, _)) && kind == parameter_types::READER_EVENT_NOTIFICATION_DATA,
        header_at(b, start + 4) matches Some((_, kind, len)) && kind == parameter_types::ANTENNA_EVENT
            && (len == 0 || start + 4 + len >= max),
        start + 4 < max,
        antenna_number(b, start + 4) <= MAX_ANTENNAS,
    ensures
        event_notification_spec(b, start, max) == Ok::<Option<(usize, u8)>, &'static str>(Some((
            antenna_index(antenna_number(b, start + 4)),
            if b[start + 8] == 0 { ANTENNA_STATUS_DISCONNECTED } else { ANTENNA_STATUS_CONNECTED },
        ))),
        b[start + 8] == 0 ==> event_notification_spec(b, start, max)->Ok_0->Some_0.1 != ANTENNA_STATUS_CONNECTED,
        b[start + 8] != 0 ==> event_notification_spec(b, start, max)->Ok_0->Some_0.1 != ANTENNA_STATUS_DISCONNECTED,
{
}

/// What reading a reader event notification at `start` gives.
pub open spec fn event_notification_spec(b: Seq<u8>, start: int, max: int) -> Result<Option<(usize, u8)>, &'static str> {
    match header_at(b, start) {
        None => Err("unable to get parameter info"),
        Some((_, kind, _)) => if kind != parameter_types::READER_EVENT_NOTIFICATION_DATA {
            Err("invalid tlv parameter")
        } else {
            event_walk(b, start + 4, max, None)
        },
    }
}

/// The inputs on which reading a reader event notification returns.
pub open spec fn event_notification_ends(b: Seq<u8>, start: int, max: int) -> bool {
    &&& 0 <= start
    &&& start + 4 <= b.len()
    &&& (header_at(b, start) matches Some((_, kind, _)) && kind == parameter_types::READER_EVENT_NOTIFICATION_DATA)
        ==> walk_ends(Walker::EventNotification, b, start + 4, max)
}

/// The antenna number at bytes 5 and 6 of the parameter at `ix`.
fn read_antenna_number(buf: &[u8; BUFFER_SIZE], ix: usize) -> (r: usize)
    requires
        ix + 7 <= BUFFER_SIZE,
    ensures
        r as int == antenna_number(buf@, ix as int),
{
    let hi = buf[ix + 5];
    let lo = buf[ix + 6];
    assert(((hi as usize) << 8) + (lo as usize) == hi as usize * 256 + lo as usize) by (bit_vector);
    ((hi as usize) << 8) + (lo as usize)
}

pub fn process_reader_event_notification(buf: &[u8; BUFFER_SIZE], start_ix: usize, max_ix: &usize) -> (r: Result<Option<(usize, u8)>, &'static str>)
    requires
        event_notification_ends(buf@, start_ix as int, *max_ix as int),
    ensures
        r == event_notification_spec(buf@, start_ix as int, *max_ix as int),
{
    let bits = read_u32(buf, start_ix);
    let param_info = match get_param_type(&bits) {
        Ok(info) => info,
        Err(_) => return Err("unable to get parameter info"),
    };
    if parameter_types::READER_EVENT_NOTIFICATION_DATA != param_info.kind {
        return Err("invalid tlv parameter");
    }
    let mut param_ix = start_ix + 4;
    let mut output: Option<(usize, u8)> = None;
    let max = *max_ix;
    while param_ix < max
        invariant
            max == *max_ix,
            walk_ends(Walker::EventNotification, buf@, param_ix as int, max as int),
            event_walk(buf@, param_ix as int, max as int, output) == event_notification_spec(buf@, start_ix as int, max as int),
        decreases if param_ix < max { max - param_ix } else { 0 },
    {
        let bits = read_u32(buf, param_ix);
        assert(bits == be32(buf@, param_ix as int) as u32);
        let info = match get_param_type(&bits) {
            Ok(info) => info,
            Err(_) => return Err("unable to get parameter info"),
        };
        if info.kind == parameter_types::ANTENNA_EVENT {
            let mut number = read_antenna_number(buf, param_ix);
            if number > MAX_ANTENNAS {
                return Err("antenna number greater than the max number of antennas supported");
            } else if number > 0 {
                number -= 1;
            }
            output = if buf[param_ix + 4] == 0x00 {
                Some((number, ANTENNA_STATUS_DISCONNECTED))
            } else {
                Some((number, ANTENNA_STATUS_CONNECTED))
            };
        }
        param_ix += info.length as usize;
    }
    Ok(output)
}

/// What reading a vendor message body at `start` gives: the vendor id and the message subtype.
pub open spec fn custom_message_spec(b: Seq<u8>, start: int, max: int) -> Result<Option<(u32, u16)>, &'static str> {
    if max < start + 4 {
        Err("invalid length")
    } else {
        Ok(Some((be32(b, start) as u32, b[start + 4] as u16)))
    }
}

pub fn process_custom_message(buf: &[u8; BUFFER_SIZE], start_ix: usize, max_ix: &usize) -> (r: Result<Option<(u32, u16)>, &'static str>)
    requires
        start_ix + 4 <= usize::MAX,
        *max_ix < start_ix + 4 || start_ix + 5 <= BUFFER_SIZE,
    ensures
        r == custom_message_spec(buf@, start_ix as int, *max_ix as int),
{
    if *max_ix < start_ix + 4 {
        return Err("invalid length");
    }
    let vendor_id = read_u32(buf, start_ix);
    let subtype = buf[start_ix + 4] as u16;
    Ok(Some((vendor_id, subtype)))
}

/// The antenna table a walk over reader configuration parameters builds,
/// and whether it met an antenna at all.
pub open spec fn config_walk(b: Seq<u8>, ix: int, max: int, out: Seq<u8>, found: bool) -> Result<(Seq<u8>, bool), &'static str>
    decreases max - ix,
{
    if ix >= max {
        Ok((out, found))
    } else {
        match header_at(b, ix) {
            None => Err("unable to get parameter info"),
            Some((_, kind, len)) => {
                if kind == parameter_types::ANTENNA_PROPERTIES && antenna_number(b, ix) > MAX_ANTENNAS {
                    Err("antenna number greater than the max number of antennas supported")
                } else {
                    let next = if kind == parameter_types::ANTENNA_PROPERTIES {
                        (out.update(antenna_index(antenna_number(b, ix)) as int, antenna_state(b[ix + 4])), true)
                    } else {
                        (out, found)
                    };
                    if len == 0 || ix + len >= max {
                        Ok(next)
                    } else {
                        config_walk(b, ix + len, max, next.0, next.1)
                    }
                }
            },
        }
    }
}

/// What reading a reader configuration at `start` gives: the state of each
/// antenna port, when the configuration names any antenna.
pub open spec fn reader_config_spec(b: Seq<u8>, start: int, max: int) -> Result<Option<Seq<u8>>, &'static str> {
    match config_walk(b, start, max, Seq::new(MAX_ANTENNAS as nat, |i: int| 0u8), false) {
        Err(e) => Err(e),
        Ok((out, found)) => if found { Ok(Some(out)) } else { Ok(None) },
    }
}

pub fn process_reader_config(buf: &[u8; BUFFER_SIZE], start_ix: usize, max_ix: &usize) -> (r: Result<Option<[u8; MAX_ANTENNAS]>, &'static str>)
    requires
        walk_ends(Walker::ReaderConfig, buf@, start_ix as int, *max_ix as int),
    ensures
        match reader_config_spec(buf@, start_ix as int, *max_ix as int) {
            Err(e) => r == Err::<Option<[u8; MAX_ANTENNAS]>, &'static str>(e),
            Ok(None) => r == Ok::<Option<[u8; MAX_ANTENNAS]>, &'static str>(None),
            Ok(Some(s)) => r matches Ok(Some(a)) && a@ == s,
        },
{
    let mut param_ix = start_ix;
    let mut output: [u8; MAX_ANTENNAS] = [0; MAX_ANTENNAS];
    let mut antenna_found = false;
    let max = *max_ix;
    assert(output@ =~= Seq::new(MAX_ANTENNAS as nat, |i: int| 0u8));
    while param_ix < max
        invariant
            max == *max_ix,
            walk_ends(Walker::ReaderConfig, buf@, param_ix as int, max as int),
            output@.len() == MAX_ANTENNAS,
            config_walk(buf@, param_ix as int, max as int, output@, antenna_found)
                == config_walk(buf@, start_ix as int, max as int, Seq::new(MAX_ANTENNAS as nat, |i: int| 0u8), false),
        decreases if param_ix < max { max - param_ix } else { 0 },
    {
        let bits = read_u32(buf, param_ix);
        assert(bits == be32(buf@, param_ix as int) as u32);
        let info = match get_param_type(&bits) {
            Ok(info) => info,
            Err(_) => return Err("unable to get parameter info"),
        };
        if info.kind == parameter_types::ANTENNA_PROPERTIES {
            let mut number = read_antenna_number(buf, param_ix);
            if number > MAX_ANTENNAS {
                return Err("antenna number greater than the max number of antennas supported");
            } else if number > 0 {
                number -= 1;
            }
            let state = if buf[param_ix + 4] == 0x00 { ANTENNA_STATUS_DISCONNECTED } else { ANTENNA_STATUS_CONNECTED };
            output[number] = state;
            antenna_found = true;
        }
        param_ix += info.length as usize;
    }
    if !antenna_found {
        return Ok(None);
    }
    Ok(Some(output))
}


/// The status name shown for an LLRP status code.
pub open spec fn status_label(code: u16) -> &'static str {
    match llrp_status_name(code) {
        Some(n) => n,
        None => "UNKNOWN",
    }
}

/// The error description bytes of an LLRP status parameter at `start`: its
/// byte count says how many, and one byte more is taken.
pub open spec fn status_description(b: Seq<u8>, start: int) -> Seq<u8> {
    b.subrange(start + 8, start + 8 + be16(b[start + 6], b[start + 7]) + 1)
}

/// What reading an LLRP status parameter at `start` gives: nothing on
/// success, otherwise the status name and the error description.
pub open spec fn llrp_status_spec(b: Seq<u8>, start: int, max: int) -> Result<Option<Seq<char>>, &'static str> {
    match header_at(b, start) {
        None => Err("unable to get parameter info"),
        Some((_, kind, _)) => if kind != parameter_types::LLRP_STATUS {
            Err("invalid llrp status parameter")
        } else if be16(b[start + 4], b[start + 5]) == parameter_types::M_SUCCESS {
            Ok(None)
        } else if start + 8 + be16(b[start + 6], b[start + 7]) + 1 > max {
            Err("error message length longer than parameter reported length")
        } else if !valid_utf8(status_description(b, start)) {
            Err("unable to convert error description to string")
        } else {
            Ok(Some(status_label(be16(b[start + 4], b[start + 5]) as u16)@ + ": "@ + decode_utf8(status_description(b, start))))
        },
    }
}

/// The inputs on which reading an LLRP status parameter returns.
pub open spec fn llrp_status_ends(b: Seq<u8>, start: int, max: int) -> bool {
    &&& 0 <= start
    &&& start + 4 <= b.len()
    &&& (header_at(b, start) matches Some((_, kind, _)) && kind == parameter_types::LLRP_STATUS) ==> {
        &&& start + 8 <= b.len()
        &&& (be16(b[start + 4], b[start + 5]) != 0 && start + 8 + be16(b[start + 6], b[start + 7]) + 1 <= max)
            ==> start + 8 + be16(b[start + 6], b[start + 7]) + 1 <= b.len()
    }
}

pub fn process_llrp_status_parameter(buf: &[u8; BUFFER_SIZE], start_ix: usize, max_ix: &usize) -> (r: Result<Option<String>, &'static str>)
    requires
        llrp_status_ends(buf@, start_ix as int, *max_ix as int),
    ensures
        match llrp_status_spec(buf@, start_ix as int, *max_ix as int) {
            Err(e) => r == Err::<Option<String>, &'static str>(e),
            Ok(None) => r == Ok::<Option<String>, &'static str>(None),
            Ok(Some(s)) => r matches Ok(Some(t)) && t@ == s,
        },
{
    let bits = read_u32(buf, start_ix);
    let param_info = match get_param_type(&bits) {
        Ok(info) => info,
        Err(_) => return Err("unable to get parameter info"),
    };
    if parameter_types::LLRP_STATUS != param_info.kind {
        return Err("invalid llrp status parameter");
    }
    let mut param_ix = start_ix + 4;
    let c0 = buf[param_ix];
    let c1 = buf[param_ix + 1];
    assert(((c0 as u16) << 8) + (c1 as u16) == c0 as u16 * 256 + c1 as u16) by (bit_vector);
    let code: u16 = ((c0 as u16) << 8) + (c1 as u16);
    if parameter_types::M_SUCCESS != code {
        let status_name = match get_llrp_status_name(code) {
            Some(stat) => stat,
            None => "UNKNOWN",
        };
        let n0 = buf[param_ix + 2];
        let n1 = buf[param_ix + 3];
        assert(((n0 as usize) << 8) + (n1 as usize) == n0 as usize * 256 + n1 as usize) by (bit_vector);
        let error_description_bytecount: usize = ((n0 as usize) << 8) + (n1 as usize);
        param_ix += 4;
        if param_ix + error_description_bytecount + 1 > *max_ix {
            return Err("error message length longer than parameter reported length");
        }
        let bytes = vstd::slice::slice_subrange(buf.as_slice(), param_ix, param_ix + error_description_bytecount + 1);
        assert(bytes@ == status_description(buf@, start_ix as int));
        let error_description = match str_from_utf8(bytes) {
            Some(desc) => desc,
            None => return Err("unable to convert error description to string"),
        };
        let mut out = String::from_str(status_name);
        out.append(": ");
        out.append(error_description);
        return Ok(Some(out));
    }
    Ok(None)
}


/// How far past a parameter's start a walker reads, as `reach` says.
fn reach_of(w: Walker, kind: u16) -> (r: usize)
    ensures
        r as int == reach(w, kind),
{
    match w {
        Walker::TagReport => if kind == parameter_types::EPC_96 {
            12
        } else if kind == parameter_types::FIRST_SEEN_TIMESTAMP_UTC || kind == parameter_types::LAST_SEEN_TIMESTAMP_UTC {
            8
        } else {
            3
        },
        Walker::EventNotification => if kind == parameter_types::ANTENNA_EVENT { 6 } else { 3 },
        Walker::ReaderConfig => if kind == parameter_types::ANTENNA_PROPERTIES { 6 } else { 3 },
    }
}

/// Whether a walk over the parameters from `ix` up to `max` ends without
/// reading past the buffer, as `walk_ends` says.
pub fn check_walk(w: Walker, buf: &[u8; BUFFER_SIZE], ix: usize, max: usize) -> (r: bool)
    ensures
        r == walk_ends(w, buf@, ix as int, max as int),
{
    let mut i = ix;
    while i < max
        invariant
            ix <= i,
            walk_ends(w, buf@, ix as int, max as int) == walk_ends(w, buf@, i as int, max as int),
        decreases max - i,
    {
        if i > BUFFER_SIZE - 4 {
            return false;
        }
        let bits = read_u32(buf, i);
        let info = match get_param_type(&bits) {
            Ok(info) => info,
            Err(_) => return true,
        };
        let kind = info.kind;
        let len = info.length as usize;
        if i + reach_of(w, kind) >= BUFFER_SIZE {
            return false;
        }
        let stops = match w {
            Walker::TagReport => false,
            Walker::EventNotification => kind == parameter_types::ANTENNA_EVENT && read_antenna_number(buf, i) > MAX_ANTENNAS,
            Walker::ReaderConfig => kind == parameter_types::ANTENNA_PROPERTIES && read_antenna_number(buf, i) > MAX_ANTENNAS,
        };
        if stops {
            return true;
        }
        if len == 0 {
            return false;
        }
        if i + len >= max {
            return true;
        }
        i = i + len;
    }
    true
}

/// Whether reading a tag report at `start` ends, as `tag_read_ends` says.
pub fn check_tag_read(buf: &[u8; BUFFER_SIZE], start: usize, max: usize) -> (r: bool)
    ensures
        r == tag_read_ends(buf@, start as int, max as int),
{
    if start > BUFFER_SIZE - 4 {
        return false;
    }
    let bits = read_u32(buf, start);
    match get_param_type(&bits) {
        Ok(info) => {
            if info.kind == parameter_types::TAG_REPORT_DATA && info.length >= 5 {
                check_walk(Walker::TagReport, buf, start + 4, max)
            } else {
                true
            }
        },
        Err(_) => true,
    }
}

/// Whether reading a reader event notification at `start` ends, as
/// `event_notification_ends` says.
pub fn check_event_notification(buf: &[u8; BUFFER_SIZE], start: usize, max: usize) -> (r: bool)
    ensures
        r == event_notification_ends(buf@, start as int, max as int),
{
    if start > BUFFER_SIZE - 4 {
        return false;
    }
    let bits = read_u32(buf, start);
    match get_param_type(&bits) {
        Ok(info) => {
            if info.kind == parameter_types::READER_EVENT_NOTIFICATION_DATA {
                check_walk(Walker::EventNotification, buf, start + 4, max)
            } else {
                true
            }
        },
        Err(_) => true,
    }
}

/// Whether reading an LLRP status at `start` stays inside the buffer, as
/// `llrp_status_ends` says.
pub fn check_llrp_status(buf: &[u8; BUFFER_SIZE], start: usize, max: usize) -> (r: bool)
    ensures
        r == llrp_status_ends(buf@, start as int, max as int),
{
    if start > BUFFER_SIZE - 4 {
        return false;
    }
    let bits = read_u32(buf, start);
    match get_param_type(&bits) {
        Ok(info) => {
            if info.kind == parameter_types::LLRP_STATUS {
                if start > BUFFER_SIZE - 8 {
                    return false;
                }
                let code = (buf[start + 4] as u16) * 256 + (buf[start + 5] as u16);
                let n = (buf[start + 6] as usize) * 256 + (buf[start + 7] as usize);
                if code != 0 && (start as u128) + 8 + (n as u128) + 1 <= (max as u128) {
                    (start as u128) + 8 + (n as u128) + 1 <= (BUFFER_SIZE as u128)
                } else {
                    true
                }
            } else {
                true
            }
        },
        Err(_) => true,
    }
}

} // verus!
