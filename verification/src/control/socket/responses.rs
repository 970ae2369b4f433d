//! The answers the portal sends its clients.
use vstd::prelude::*;
use crate::network::api::Api;
use crate::objects::read::Read;
use crate::objects::setting::Setting;
use crate::reader::MAX_ANTENNAS;
use crate::remote::uploader::Status;
use crate::control::socket::errors::Errors;
use crate::control::socket::notifications::APINotification;

verus! {

#[derive(Debug)]
pub enum Responses {
    Readers { readers: Vec<Reader> },
    ReaderAntennas { reader_name: String, antennas: [u8; MAX_ANTENNAS] },
    Error { error: Errors },
    Notification { kind: APINotification, time: String },
    Settings { settings: Vec<Setting> },
    SettingsAll {
        settings: Vec<Setting>,
        readers: Vec<Reader>,
        apis: Vec<Api>,
        auto_upload: Status,
        portal_version: &'static str,
    },
    ApiList { apis: Vec<Api> },
    Reads { list: Vec<Read> },
    Success { count: usize },
    Time { local: String, utc: String },
    ReadAutoUpload { status: Status },
    ConnectionSuccessful {
        name: String,
        kind: String,
        version: usize,
        reads_subscribed: bool,
        readers: Vec<Reader>,
        updatable: bool,
        auto_upload: Status,
        portal_version: &'static str,
    },
    Keepalive,
    Disconnect,
}

/// A reader as a client sees it.
#[derive(Debug)]
pub struct Reader {
    pub id: i64,
    pub name: String,
    pub kind: String,
    pub ip_address: String,
    pub port: u16,
    pub auto_connect: bool,
    pub reading: Option<bool>,
    pub connected: Option<bool>,
    pub antennas: [u8; MAX_ANTENNAS],
}

} // verus!
