//! The background upload of reads: its status, and the decisions of each
//! turn of its loop. Sending the reads over HTTP is left to the caller.
use vstd::prelude::*;
use crate::control::socket::api_views;
use crate::database::DBError;
use crate::database::memstore::{
    not_uploaded, same_rows, same_sightings, status_updated, statuses_updated, valid_status, MemStore,
};
use crate::network::api::{Api, ApiView, API_TYPE_CHRONOKEEP_REMOTE, API_TYPE_CHRONOKEEP_REMOTE_SELF};
use crate::objects::read::{Read, ReadView, READ_UPLOADED_TRUE};
use crate::processor::read_views;
use crate::text::str_equal;

pub mod info;

verus! {

#[derive(Debug, Clone, Copy, PartialEq, Eq, Structural)]
pub enum Status {
    Running,
    Stopping,
    Stopped,
    Unknown,
}

/// A service kind that reads are uploaded to.
pub open spec fn is_remote_kind(k: Seq<char>) -> bool {
    k == API_TYPE_CHRONOKEEP_REMOTE@ || k == API_TYPE_CHRONOKEEP_REMOTE_SELF@
}

/// `i` is the first service that reads are uploaded to.
pub open spec fn first_remote(apis: Seq<ApiView>, i: int) -> bool {
    &&& 0 <= i < apis.len()
    &&& is_remote_kind(apis[i].kind)
    &&& forall|j: int| 0 <= j < i ==> !is_remote_kind(#[trigger] apis[j].kind)
}

/// Some service is one that reads are uploaded to.
pub open spec fn has_remote(apis: Seq<ApiView>) -> bool {
    exists|i: int| 0 <= i < apis.len() && is_remote_kind(#[trigger] apis[i].kind)
}

/// What the upload loop does after a turn.
#[derive(Debug)]
pub enum UploadAction {
    /// Leave the loop.
    Stop,
    /// Nothing to send: wait for the upload interval.
    Pause,
    /// Send these reads to this service, then wait for the upload interval.
    Send { api: Api, reads: Vec<Read> },
}

/// The uploader's status, and whether it was told to keep running.
pub struct Uploader {
    status: Status,
    keepalive: bool,
}

pub struct UploaderView {
    pub status: Status,
    pub keepalive: bool,
}

impl View for Uploader {
    type V = UploaderView;

    closed spec fn view(&self) -> UploaderView {
        UploaderView { status: self.status, keepalive: self.keepalive }
    }
}

/// The index of the first service that reads are uploaded to, if any.
pub(crate) fn find_remote(apis: &Vec<Api>) -> (r: Option<usize>)
    ensures
        r is None <==> !has_remote(api_views(apis@)),
        r matches Some(i) ==> first_remote(api_views(apis@), i as int),
{
    let ghost v = api_views(apis@);
    let mut i: usize = 0;
    while i < apis.len()
        invariant
            i <= apis@.len(),
            v == api_views(apis@),
            forall|j: int| 0 <= j < i ==> !is_remote_kind(#[trigger] v[j].kind),
        decreases apis.len() - i,
    {
        let k = apis[i].kind();
        assert(v[i as int] == apis@[i as int]@);
        if str_equal(k, API_TYPE_CHRONOKEEP_REMOTE) || str_equal(k, API_TYPE_CHRONOKEEP_REMOTE_SELF) {
            return Some(i);
        }
        i = i + 1;
    }
    None
}

impl Uploader {
    pub fn new() -> (r: Uploader)
        ensures
            r@.status == Status::Stopped,
            !r@.keepalive,
    {
        Uploader { status: Status::Stopped, keepalive: false }
    }

    pub fn status(&self) -> (r: Status)
        ensures
            r == self@.status,
    {
        self.status
    }

    pub fn running(&self) -> (r: bool)
        ensures
            r == (self@.status == Status::Running),
    {
        self.status == Status::Running
    }

    /// Tells the upload loop to stop after its current turn.
    pub fn stop(&mut self)
        ensures
            final(self)@.status == Status::Stopping,
            !final(self)@.keepalive,
    {
        self.keepalive = false;
        self.status = Status::Stopping;
    }

    /// Enters the upload loop: false, with nothing changed, where it already
    /// runs; otherwise it runs until a turn ends it.
    pub fn run(&mut self) -> (r: bool)
        ensures
            r == (old(self)@.status != Status::Running),
            r ==> final(self)@.status == Status::Running && final(self)@.keepalive,
            !r ==> final(self)@ == old(self)@,
    {
        if self.status == Status::Running {
            return false;
        }
        self.status = Status::Running;
        self.keepalive = true;
        true
    }

    /// One turn of the upload loop, with the program's keep-alive flag. The
    /// loop ends, and the uploader is stopped, when either flag is off or no
    /// service takes reads; otherwise the reads not yet uploaded are sent to
    /// the first service that takes them, where there are any.
    pub fn turn(&mut self, store: &MemStore, server_keepalive: bool) -> (r: UploadAction)
        ensures
            !(old(self)@.keepalive && server_keepalive) || !has_remote(store@.apis) ==> {
                &&& r is Stop
                &&& final(self)@.status == Status::Stopped
                &&& final(self)@.keepalive == old(self)@.keepalive
            },
            old(self)@.keepalive && server_keepalive && has_remote(store@.apis) ==> {
                &&& final(self)@ == old(self)@
                &&& (store@.reads.filter(not_uploaded()).len() == 0 <==> r is Pause)
                &&& (r is Pause || r is Send)
                &&& r matches UploadAction::Send { api, reads } ==> {
                    &&& exists|i: int| first_remote(store@.apis, i) && api@ == store@.apis[i]
                    &&& read_views(reads@) == store@.reads.filter(not_uploaded())
                }
            },
    {
        if !(self.keepalive && server_keepalive) {
            self.status = Status::Stopped;
            return UploadAction::Stop;
        }
        let apis = match store.get_apis() {
            Ok(a) => a,
            Err(_) => Vec::new(),
        };
        match find_remote(&apis) {
            None => {
                self.status = Status::Stopped;
                UploadAction::Stop
            },
            Some(i) => {
                let reads = match store.get_not_uploaded_reads() {
                    Ok(v) => v,
                    Err(_) => Vec::new(),
                };
                if reads.len() == 0 {
                    UploadAction::Pause
                } else {
                    let api = apis[i].clone();
                    assert(api@ == api_views(apis@)[i as int]);
                    UploadAction::Send { api, reads }
                }
            },
        }
    }
}

/// Some read of `us` has the id `id`.
pub open spec fn taken_id(us: Seq<ReadView>, id: u64) -> bool {
    exists|k: int| 0 <= k < us.len() && (#[trigger] us[k]).id == id
}

/// Recording reads the service took, each marked as uploaded, marks as
/// uploaded exactly the stored reads with their ids, changes nothing of
/// those but the status and the mark, and leaves every other read as it was.
pub proof fn law_record_marks_exactly_those(s: Seq<ReadView>, us: Seq<ReadView>)
    requires
        forall|k: int| 0 <= k < us.len() ==> (#[trigger] us[k]).uploaded == READ_UPLOADED_TRUE,
    ensures
        statuses_updated(s, us).len() == s.len(),
        forall|i: int| 0 <= i < s.len() ==> (#[trigger] statuses_updated(s, us)[i]) == (ReadView {
            status: statuses_updated(s, us)[i].status,
            uploaded: statuses_updated(s, us)[i].uploaded,
            ..s[i]
        }),
        forall|i: int| 0 <= i < s.len() && taken_id(us, s[i].id) ==> (#[trigger] statuses_updated(s, us)[i]).uploaded
            == READ_UPLOADED_TRUE,
        forall|i: int| 0 <= i < s.len() && !taken_id(us, s[i].id) ==> #[trigger] statuses_updated(s, us)[i] == s[i],
    decreases us.len(),
{
    if us.len() > 0 {
        let pre = us.drop_last();
        let u = us.last();
        law_record_marks_exactly_those(s, pre);
        let t0 = statuses_updated(s, pre);
        let t = statuses_updated(s, us);
        assert(t == status_updated(t0, u));
        assert forall|i: int| 0 <= i < s.len() implies (#[trigger] t[i]) == (ReadView {
            status: t[i].status,
            uploaded: t[i].uploaded,
            ..s[i]
        }) by {
            assert(t0[i] == (ReadView { status: t0[i].status, uploaded: t0[i].uploaded, ..s[i] }));
        }
        assert forall|i: int| 0 <= i < s.len() && taken_id(us, s[i].id) implies (#[trigger] t[i]).uploaded
            == READ_UPLOADED_TRUE by {
            let k = choose|k: int| 0 <= k < us.len() && (#[trigger] us[k]).id == s[i].id;
            assert(t0[i].id == s[i].id);
            if k == us.len() - 1 {
                assert(us[k] == u);
            } else {
                assert(pre[k] == us[k]);
                assert(taken_id(pre, s[i].id));
            }
        }
        assert forall|i: int| 0 <= i < s.len() && !taken_id(us, s[i].id) implies #[trigger] t[i] == s[i] by {
            assert(t0[i].id == s[i].id);
            if taken_id(pre, s[i].id) {
                let k = choose|k: int| 0 <= k < pre.len() && (#[trigger] pre[k]).id == s[i].id;
                assert(us[k] == pre[k]);
            }
            assert(us[us.len() - 1] == u);
        }
    }
}

/// The reads after the service took `modified`: each stored read whose id
/// is among them takes on their status and upload mark, the others stay.
pub fn record_uploaded(store: &mut MemStore, modified: &Vec<Read>) -> (r: Result<usize, DBError>)
    requires
        old(store).wf(),
    ensures
        final(store).wf(),
        same_rows(final(store)@, old(store)@),
        same_sightings(final(store)@, old(store)@),
        final(store)@.settings == old(store)@.settings,
        final(store)@.next_id == old(store)@.next_id,
        (forall|k: int| 0 <= k < modified@.len() ==> valid_status(#[trigger] modified@[k]@.status)) <==> r is Ok,
        r is Ok ==> final(store)@.reads == statuses_updated(old(store)@.reads, read_views(modified@)),
        r is Err ==> final(store)@ == old(store)@,
{
    store.update_reads_status(modified)
}

} // verus!
