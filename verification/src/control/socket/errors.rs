//! The errors the portal answers a client with.
use vstd::prelude::*;

verus! {

#[derive(Debug, Clone)]
pub enum Errors {
    UnknownCommand,
    TooManyConnections,
    TooManyRemoteApi,
    ServerError { message: String },
    DatabaseError { message: String },
    InvalidReaderType { message: String },
    ReaderConnection { message: String },
    NotFound,
    InvalidSetting { message: String },
    InvalidApiType { message: String },
    AlreadySubscribed { message: String },
    AlreadyRunning,
    NotRunning,
    NoRemoteApi,
    StartingUp,
    InvalidRead,
    NotAllowed { message: String },
}

} // verus!
