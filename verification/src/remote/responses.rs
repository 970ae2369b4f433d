//! What the remote read service answers.
use vstd::prelude::*;

verus! {

#[derive(Debug, Clone, Copy)]
pub struct UploadReadsResponse {
    pub count: usize,
}

} // verus!
