//! What the uploader last reported: its status and how many errors it met.
use vstd::prelude::*;
use crate::remote::uploader::Status;

verus! {

#[derive(Debug, Clone, Copy)]
pub struct UploadInfo {
    pub status: Status,
    pub errors: usize,
}

impl UploadInfo {
    pub fn new(status: Status, errors: usize) -> (r: Self)
        ensures
            r.status == status,
            r.errors == errors,
    {
        Self { status, errors }
    }

    pub fn update_status(&mut self, status: Status, errors: usize)
        ensures
            final(self).status == status,
            final(self).errors == errors,
    {
        self.status = status;
        self.errors = errors;
    }
}

} // verus!
