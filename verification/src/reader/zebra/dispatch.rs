//! What each message a Zebra reader sends means to the reading loop, and
//! what a batch of messages comes to.
use vstd::prelude::*;
use crate::llrp::message_types;
use crate::llrp::parameter_types::MOTOROLA_VENDOR_ID;
use crate::reader::MAX_ANTENNAS;
use crate::reader::zebra::{
    TagData, Walker, BUFFER_SIZE, check_tag_read, check_walk, check_event_notification, check_llrp_status,
    process_tag_read_at, process_reader_config, process_reader_event_notification, process_custom_message,
    process_llrp_status_parameter, tag_read_ends, tag_read_spec, walk_ends, reader_config_spec,
    event_notification_ends, event_notification_spec, llrp_status_ends, llrp_status_spec, custom_message_spec,
};

verus! {

/// What one message tells the reading loop.
#[derive(Debug, Clone, Copy)]
pub enum ReaderEvent {
    /// The reader is alive; the message id is acknowledged.
    Keepalive { id: u32 },
    /// A tag was seen.
    Tag(TagData),
    /// The states of all antennas.
    Antennas([u8; MAX_ANTENNAS]),
    /// One antenna changed state.
    AntennaChange(usize, u8),
    /// The answer to a request: its message type, and whether it succeeded.
    Status { kind: u16, success: bool },
    /// Nothing the loop uses, or nothing that could be read.
    Nothing,
}

/// The answers to requests whose status the start-up exchange follows.
pub open spec fn status_kind(kind: u16) -> bool {
    kind == message_types::ADD_ROSPEC_RESPONSE || kind == message_types::ENABLE_ROSPEC_RESPONSE
        || kind == message_types::START_ROSPEC_RESPONSE || kind == message_types::STOP_ROSPEC_RESPONSE
        || kind == message_types::DISABLE_ROSPEC_RESPONSE || kind == message_types::DELETE_ROSPEC_RESPONSE
        || kind == message_types::DELETE_ACCESS_SPEC_RESPONSE || kind == message_types::SET_READER_CONFIG_RESPONSE
}

/// An LLRP status at `start` says the request succeeded.
pub open spec fn status_ok(b: Seq<u8>, start: int, max: int) -> bool {
    llrp_status_ends(b, start, max) && llrp_status_spec(b, start, max) == Ok::<Option<Seq<char>>, &'static str>(None)
}

/// A custom message at `start` is a vendor answer of the reader's maker whose
/// LLRP status says the request succeeded.
pub open spec fn custom_ok(b: Seq<u8>, start: int, max: int) -> bool {
    &&& max >= start + 4
    &&& start + 5 <= BUFFER_SIZE
    &&& (custom_message_spec(b, start, max) matches Ok(Some((vendor, _))) && vendor == MOTOROLA_VENDOR_ID)
    &&& status_ok(b, start + 5, max)
}

/// Whether the LLRP status at `start` says the request succeeded; a status
/// that cannot be read safely counts as a failure.
fn read_status_ok(buf: &[u8; BUFFER_SIZE], start: usize, max: usize) -> (r: bool)
    ensures
        r == status_ok(buf@, start as int, max as int),
{
    if !check_llrp_status(buf, start, max) {
        return false;
    }
    match process_llrp_status_parameter(buf, start, &max) {
        Ok(None) => true,
        _ => false,
    }
}

/// What the message of type `kind` and id `id`, whose body runs from `start`
/// to `max` in `buf`, tells the reading loop; a tag it reports was seen at
/// `now`. A body that cannot be read without running past the buffer or
/// without end tells nothing.
pub fn decode_message(buf: &[u8; BUFFER_SIZE], kind: u16, id: u32, start: usize, max: usize, now: u128) -> (r: ReaderEvent)
    requires
        start + 5 <= usize::MAX,
    ensures
        kind == message_types::KEEPALIVE ==> r == (ReaderEvent::Keepalive { id }),
        kind == message_types::RO_ACCESS_REPORT ==> (if tag_read_ends(buf@, start as int, max as int) {
            match tag_read_spec(buf@, start as int, max as int, now) {
                Ok(Some(t)) => r == ReaderEvent::Tag(t),
                _ => r == ReaderEvent::Nothing,
            }
        } else {
            r == ReaderEvent::Nothing
        }),
        kind == message_types::GET_READER_CONFIG_RESPONSE ==> (if walk_ends(Walker::ReaderConfig, buf@, start as int, max as int) {
            match reader_config_spec(buf@, start as int, max as int) {
                Ok(Some(a)) => r matches ReaderEvent::Antennas(x) && x@ == a,
                _ => r == ReaderEvent::Nothing,
            }
        } else {
            r == ReaderEvent::Nothing
        }),
        kind == message_types::READER_EVENT_NOTIFICATION ==> (if event_notification_ends(buf@, start as int, max as int) {
            match event_notification_spec(buf@, start as int, max as int) {
                Ok(Some((ix, st))) => r == ReaderEvent::AntennaChange(ix, st),
                _ => r == ReaderEvent::Nothing,
            }
        } else {
            r == ReaderEvent::Nothing
        }),
        status_kind(kind) ==> r == (ReaderEvent::Status { kind, success: status_ok(buf@, start as int, max as int) }),
        kind == message_types::CUSTOM_MESSAGE ==> r == (ReaderEvent::Status {
            kind,
            success: custom_ok(buf@, start as int, max as int),
        }),
        !(kind == message_types::KEEPALIVE || kind == message_types::RO_ACCESS_REPORT || kind
            == message_types::GET_READER_CONFIG_RESPONSE || kind == message_types::READER_EVENT_NOTIFICATION
            || status_kind(kind) || kind == message_types::CUSTOM_MESSAGE) ==> r == ReaderEvent::Nothing,
{
    if kind == message_types::KEEPALIVE {
        ReaderEvent::Keepalive { id }
    } else if kind == message_types::RO_ACCESS_REPORT {
        if !check_tag_read(buf, start, max) {
            return ReaderEvent::Nothing;
        }
        match process_tag_read_at(buf, start, &max, now) {
            Ok(Some(t)) => ReaderEvent::Tag(t),
            _ => ReaderEvent::Nothing,
        }
    } else if kind == message_types::GET_READER_CONFIG_RESPONSE {
        if !check_walk(Walker::ReaderConfig, buf, start, max) {
            return ReaderEvent::Nothing;
        }
        match process_reader_config(buf, start, &max) {
            Ok(Some(a)) => ReaderEvent::Antennas(a),
            _ => ReaderEvent::Nothing,
        }
    } else if kind == message_types::READER_EVENT_NOTIFICATION {
        if !check_event_notification(buf, start, max) {
            return ReaderEvent::Nothing;
        }
        match process_reader_event_notification(buf, start, &max) {
            Ok(Some((ix, st))) => ReaderEvent::AntennaChange(ix, st),
            _ => ReaderEvent::Nothing,
        }
    } else if kind == message_types::ADD_ROSPEC_RESPONSE || kind == message_types::ENABLE_ROSPEC_RESPONSE
        || kind == message_types::START_ROSPEC_RESPONSE || kind == message_types::STOP_ROSPEC_RESPONSE
        || kind == message_types::DISABLE_ROSPEC_RESPONSE || kind == message_types::DELETE_ROSPEC_RESPONSE
        || kind == message_types::DELETE_ACCESS_SPEC_RESPONSE || kind == message_types::SET_READER_CONFIG_RESPONSE {
        ReaderEvent::Status { kind, success: read_status_ok(buf, start, max) }
    } else if kind == message_types::CUSTOM_MESSAGE {
        if max < start + 4 || start + 5 > BUFFER_SIZE {
            return ReaderEvent::Status { kind, success: false };
        }
        let success = match process_custom_message(buf, start, &max) {
            Ok(Some((vendor, _))) => vendor == MOTOROLA_VENDOR_ID && read_status_ok(buf, start + 5, max),
            _ => false,
        };
        ReaderEvent::Status { kind, success }
    } else {
        ReaderEvent::Nothing
    }
}

/// What a batch of messages from the reader comes to: the tags seen, the
/// antenna states reported, when the reader was last heard alive, and the
/// answers to requests in the order they came.
pub struct ReadData {
    pub tags: Vec<TagData>,
    pub antenna_data: bool,
    pub antennas: [u8; MAX_ANTENNAS],
    pub last_ka_received_at: u64,
    pub status_messages: Vec<(u16, bool)>,
}

impl ReadData {
    pub fn new(last_ka_received_at: u64) -> (r: ReadData)
        ensures
            r.tags@.len() == 0,
            !r.antenna_data,
            forall|i: int| 0 <= i < MAX_ANTENNAS ==> r.antennas@[i] == 0,
            r.last_ka_received_at == last_ka_received_at,
            r.status_messages@.len() == 0,
    {
        ReadData {
            tags: Vec::new(),
            antenna_data: false,
            antennas: [0; MAX_ANTENNAS],
            last_ka_received_at,
            status_messages: Vec::new(),
        }
    }

    /// Takes in one message's event, the reader heard alive at `now_secs`
    /// when it is a keepalive.
    pub fn apply(&mut self, event: ReaderEvent, now_secs: u64)
        ensures
            match event {
                ReaderEvent::Keepalive { .. } => {
                    &&& final(self).last_ka_received_at == (if now_secs > old(self).last_ka_received_at {
                        now_secs
                    } else {
                        old(self).last_ka_received_at
                    })
                    &&& final(self).tags@ == old(self).tags@
                    &&& final(self).antennas@ == old(self).antennas@
                    &&& final(self).antenna_data == old(self).antenna_data
                    &&& final(self).status_messages@ == old(self).status_messages@
                },
                ReaderEvent::Tag(t) => {
                    &&& final(self).tags@ == old(self).tags@.push(t)
                    &&& final(self).last_ka_received_at == old(self).last_ka_received_at
                    &&& final(self).antennas@ == old(self).antennas@
                    &&& final(self).antenna_data == old(self).antenna_data
                    &&& final(self).status_messages@ == old(self).status_messages@
                },
                ReaderEvent::Antennas(a) => {
                    &&& final(self).antennas@ == a@
                    &&& final(self).antenna_data
                    &&& final(self).tags@ == old(self).tags@
                    &&& final(self).last_ka_received_at == old(self).last_ka_received_at
                    &&& final(self).status_messages@ == old(self).status_messages@
                },
                ReaderEvent::AntennaChange(ix, st) => {
                    &&& ix < MAX_ANTENNAS ==> final(self).antennas@ == old(self).antennas@.update(ix as int, st)
                        && final(self).antenna_data
                    &&& ix >= MAX_ANTENNAS ==> final(self).antennas@ == old(self).antennas@
                        && final(self).antenna_data == old(self).antenna_data
                    &&& final(self).tags@ == old(self).tags@
                    &&& final(self).last_ka_received_at == old(self).last_ka_received_at
                    &&& final(self).status_messages@ == old(self).status_messages@
                },
                ReaderEvent::Status { kind, success } => {
                    &&& final(self).status_messages@ == old(self).status_messages@.push((kind, success))
                    &&& final(self).tags@ == old(self).tags@
                    &&& final(self).last_ka_received_at == old(self).last_ka_received_at
                    &&& final(self).antennas@ == old(self).antennas@
                    &&& final(self).antenna_data == old(self).antenna_data
                },
                ReaderEvent::Nothing => {
                    &&& final(self).tags@ == old(self).tags@
                    &&& final(self).last_ka_received_at == old(self).last_ka_received_at
                    &&& final(self).antennas@ == old(self).antennas@
                    &&& final(self).antenna_data == old(self).antenna_data
                    &&& final(self).status_messages@ == old(self).status_messages@
                },
            },
    {
        match event {
            ReaderEvent::Keepalive { .. } => {
                if now_secs > self.last_ka_received_at {
                    self.last_ka_received_at = now_secs;
                }
            },
            ReaderEvent::Tag(t) => self.tags.push(t),
            ReaderEvent::Antennas(a) => {
                self.antennas = a;
                self.antenna_data = true;
            },
            ReaderEvent::AntennaChange(ix, st) => {
                if ix < MAX_ANTENNAS {
                    self.antennas[ix] = st;
                    self.antenna_data = true;
                }
            },
            ReaderEvent::Status { kind, success } => self.status_messages.push((kind, success)),
            ReaderEvent::Nothing => {},
        }
    }
}

} // verus!
