//! What the portal sends the remote read service.
use vstd::prelude::*;
use crate::objects::notification::RemoteNotification;
use crate::objects::read::Read;

verus! {

#[derive(Debug)]
pub struct UploadReadsRequest {
    pub reads: Vec<Read>,
}

#[derive(Debug)]
pub struct SaveNotificationRequest {
    pub notification: RemoteNotification,
}

} // verus!
