//! The requests a client sends to the portal.
use vstd::prelude::*;
use crate::network::api::Api;
use crate::objects::read::Read;
use crate::objects::setting::Setting;
use crate::control::socket::notifications::APINotification;

verus! {

#[derive(Debug)]
pub enum Request {
    Unknown,
    ApiSave { id: i64, name: String, kind: String, uri: String, token: String },
    ApiSaveAll { list: Vec<Api> },
    ApiList,
    ApiRemoteAutoUpload { query: AutoUploadQuery },
    ApiRemoteManualUpload,
    ApiRemove { id: i64 },
    Connect { reads: bool },
    Disconnect,
    KeepaliveAck,
    Quit,
    Shutdown,
    Restart,
    ReaderAdd { id: i64, name: String, kind: String, ip_address: String, port: u16, auto_connect: bool },
    ReaderConnect { id: i64 },
    ReaderDisconnect { id: i64 },
    ReaderList,
    ReaderRemove { id: i64 },
    ReaderStart { id: i64 },
    ReaderStop { id: i64 },
    ReaderStartAll,
    ReaderStopAll,
    ReaderGetAll,
    ReadsAdd { read: Read },
    ReadsDeleteAll,
    ReadsDelete { start_seconds: i64, end_seconds: i64 },
    ReadsGetAll,
    ReadsGet { start_seconds: i64, end_seconds: i64 },
    SettingsSet { settings: Vec<Setting> },
    SettingsGet,
    SettingsGetAll,
    Subscribe { reads: bool },
    TimeGet,
    TimeSet { time: String },
    Update,
    SetNoficiation { kind: APINotification },
}

#[derive(Debug, Clone, Copy, PartialEq, Eq, Structural)]
pub enum AutoUploadQuery {
    Stop,
    Start,
    Status,
}

} // verus!
