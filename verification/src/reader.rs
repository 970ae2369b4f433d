//! Readers: constants shared by reader kinds, reader status, and the Zebra reader protocol.
use vstd::prelude::*;
use vstd::string::StringExecFns;
use crate::database::DBError;
use crate::text::str_equal;

pub mod zebra;
pub mod helpers;
pub mod handshake;
pub mod auto_connect;


verus! {

pub const READER_KIND_ZEBRA: &'static str = "ZEBRA";
pub const READER_KIND_RFID: &'static str = "RFID";
pub const READER_KIND_IMPINJ: &'static str = "IMPINJ";

pub const AUTO_CONNECT_TRUE: u8 = 1;
pub const AUTO_CONNECT_FALSE: u8 = 0;

/// Number of antenna ports a reader reports on.
pub const MAX_ANTENNAS: usize = 16;

/// Antenna port states as the portal records them.
pub const ANTENNA_STATUS_NONE: u8 = 0;
pub const ANTENNA_STATUS_CONNECTED: u8 = 1;
pub const ANTENNA_STATUS_DISCONNECTED: u8 = 2;

/// Where a reader connection stands in the start-up exchange with the reader.
#[derive(PartialEq, Eq, Structural, Clone, Copy, Debug)]
pub enum ReaderStatus {
    Unknown,
    Disconnected,
    ConnectingKeepalive,
    ConnectingPurgeTags,
    ConnectingSetNoFilter,
    ConnectingSetReaderConfig,
    ConnectingDeleteAccessSpec,
    ConnectingDeleteRospec,
    ConnectingAddRospec,
    ConnectingEnableRospec,
    ConnectingStartRospec,
    Connected,
}


/// A reader the portal knows: how to reach it and whether to connect to it at
/// start, with the state of its connection.
#[derive(Debug)]
pub struct Reader {
    id: i64,
    nickname: String,
    kind: String,
    ip_address: String,
    port: u16,
    auto_connect: u8,
    keepalive: bool,
    msg_id: u32,
    reading: bool,
    connected: bool,
}

pub struct ReaderView {
    pub id: i64,
    pub nickname: Seq<char>,
    pub kind: Seq<char>,
    pub ip_address: Seq<char>,
    pub port: u16,
    pub auto_connect: u8,
    pub keepalive: bool,
    pub msg_id: u32,
    pub reading: bool,
    pub connected: bool,
}

impl View for Reader {
    type V = ReaderView;

    closed spec fn view(&self) -> ReaderView {
        ReaderView {
            id: self.id,
            nickname: self.nickname@,
            kind: self.kind@,
            ip_address: self.ip_address@,
            port: self.port,
            auto_connect: self.auto_connect,
            keepalive: self.keepalive,
            msg_id: self.msg_id,
            reading: self.reading,
            connected: self.connected,
        }
    }
}

/// A reader as it starts: kept alive, no message sent yet, neither reading nor connected.
pub open spec fn fresh_reader(id: i64, kind: Seq<char>, nickname: Seq<char>, ip_address: Seq<char>, port: u16, auto_connect: u8) -> ReaderView {
    ReaderView { id, nickname, kind, ip_address, port, auto_connect, keepalive: true, msg_id: 0, reading: false, connected: false }
}

impl Reader {
    pub(crate) fn new_internal(id: i64, kind: String, nickname: String, ip_address: String, port: u16, auto_connect: u8) -> (r: Reader)
        ensures
            r@ == fresh_reader(id, kind@, nickname@, ip_address@, port, auto_connect),
    {
        Reader {
            id,
            nickname,
            kind,
            ip_address,
            port,
            auto_connect,
            keepalive: true,
            msg_id: 0,
            reading: false,
            connected: false,
        }
    }

    /// A reader of a kind the portal can talk to; the other kinds it knows of
    /// are not supported yet, and any other kind is unknown.
    pub fn new_no_repeaters(id: i64, kind: String, nickname: String, ip_address: String, port: u16, auto_connect: u8) -> (r: Result<Reader, DBError>)
        ensures
            kind@ == READER_KIND_ZEBRA@ ==> (r matches Ok(x) && x@ == fresh_reader(id, kind@, nickname@, ip_address@, port, auto_connect)),
            (kind@ == READER_KIND_IMPINJ@ || kind@ == READER_KIND_RFID@) ==> (r matches Err(DBError::DataRetrievalError(m)) && m@ == "not yet implemented"@),
            !(kind@ == READER_KIND_ZEBRA@ || kind@ == READER_KIND_IMPINJ@ || kind@ == READER_KIND_RFID@) ==> (r matches Err(
                DBError::DataRetrievalError(m),
            ) && m@ == "unknown reader kind specified"@),
    {
        proof {
            reveal_strlit("ZEBRA");
            reveal_strlit("IMPINJ");
            reveal_strlit("RFID");
            assert(READER_KIND_ZEBRA@[0] != READER_KIND_IMPINJ@[0]);
            assert(READER_KIND_ZEBRA@[0] != READER_KIND_RFID@[0]);
        }
        if str_equal(kind.as_str(), READER_KIND_ZEBRA) {
            Ok(Reader::new_internal(id, kind, nickname, ip_address, port, auto_connect))
        } else if str_equal(kind.as_str(), READER_KIND_IMPINJ) || str_equal(kind.as_str(), READER_KIND_RFID) {
            Err(DBError::DataRetrievalError(String::from_str("not yet implemented")))
        } else {
            Err(DBError::DataRetrievalError(String::from_str("unknown reader kind specified")))
        }
    }

    pub fn set_id(&mut self, id: i64)
        ensures
            final(self)@ == (ReaderView { id, ..old(self)@ }),
    {
        self.id = id;
    }

    pub fn id(&self) -> (r: i64)
        ensures
            r == self@.id,
    {
        self.id
    }

    pub fn set_nickname(&mut self, name: String)
        ensures
            final(self)@ == (ReaderView { nickname: name@, ..old(self)@ }),
    {
        self.nickname = name;
    }

    pub fn nickname(&self) -> (r: &str)
        ensures
            r@ == self@.nickname,
    {
        self.nickname.as_str()
    }

    pub fn set_kind(&mut self, kind: String)
        ensures
            final(self)@ == (ReaderView { kind: kind@, ..old(self)@ }),
    {
        self.kind = kind;
    }

    pub fn kind(&self) -> (r: &str)
        ensures
            r@ == self@.kind,
    {
        self.kind.as_str()
    }

    pub fn set_ip_address(&mut self, ip_address: String)
        ensures
            final(self)@ == (ReaderView { ip_address: ip_address@, ..old(self)@ }),
    {
        self.ip_address = ip_address;
    }

    pub fn ip_address(&self) -> (r: &str)
        ensures
            r@ == self@.ip_address,
    {
        self.ip_address.as_str()
    }

    pub fn set_port(&mut self, port: u16)
        ensures
            final(self)@ == (ReaderView { port, ..old(self)@ }),
    {
        self.port = port;
    }

    pub fn port(&self) -> (r: u16)
        ensures
            r == self@.port,
    {
        self.port
    }

    pub fn set_auto_connect(&mut self, ac: u8)
        ensures
            final(self)@ == (ReaderView { auto_connect: ac, ..old(self)@ }),
    {
        self.auto_connect = ac;
    }

    pub fn auto_connect(&self) -> (r: u8)
        ensures
            r == self@.auto_connect,
    {
        self.auto_connect
    }

    /// Two entries describe the same reader: name, kind, address and port agree.
    pub fn equal(&self, other: &Reader) -> (r: bool)
        ensures
            r == (self@.nickname == other@.nickname && self@.kind == other@.kind && self@.ip_address
                == other@.ip_address && self@.port == other@.port),
    {
        str_equal(self.nickname.as_str(), other.nickname()) && str_equal(self.kind.as_str(), other.kind())
            && str_equal(self.ip_address.as_str(), other.ip_address()) && self.port == other.port()
    }

    pub fn is_connected(&self) -> (r: Option<bool>)
        ensures
            r == Some(self@.connected),
    {
        Some(self.connected)
    }

    pub fn is_reading(&self) -> (r: Option<bool>)
        ensures
            r == Some(self@.reading),
    {
        Some(self.reading)
    }

    /// Records whether the reader is connected and reading.
    pub fn set_state(&mut self, connected: bool, reading: bool)
        ensures
            final(self)@ == (ReaderView { connected, reading, ..old(self)@ }),
    {
        self.connected = connected;
        self.reading = reading;
    }

    /// Stops keeping the connection alive and marks the reader disconnected.
    pub fn disconnect(&mut self) -> (r: Result<(), &'static str>)
        ensures
            r is Ok,
            final(self)@ == (ReaderView { keepalive: false, connected: false, ..old(self)@ }),
    {
        self.keepalive = false;
        self.connected = false;
        Ok(())
    }

    pub fn keepalive(&self) -> (r: bool)
        ensures
            r == self@.keepalive,
    {
        self.keepalive
    }

    /// The id of the last message sent to the reader.
    pub fn msg_id(&self) -> (r: u32)
        ensures
            r == self@.msg_id,
    {
        self.msg_id
    }

    /// The id of the next message sent to the reader: one more than the last.
    pub fn get_next_id(&mut self) -> (r: u32)
        requires
            old(self)@.msg_id < u32::MAX,
        ensures
            r == old(self)@.msg_id + 1,
            final(self)@ == (ReaderView { msg_id: r, ..old(self)@ }),
    {
        self.msg_id = self.msg_id + 1;
        self.msg_id
    }
}

} // verus!
