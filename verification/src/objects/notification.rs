//! A notification the remote service passes on, and when it happened.
use vstd::prelude::*;
use crate::control::socket::notifications::APINotification;

verus! {

#[derive(Debug)]
pub struct RemoteNotification {
    pub kind: APINotification,
    pub when: String,
}

impl Clone for RemoteNotification {
    fn clone(&self) -> (r: RemoteNotification)
        ensures
            r.kind == self.kind,
            r.when@ == self.when@,
    {
        RemoteNotification { kind: self.kind, when: self.when.clone() }
    }
}

} // verus!
