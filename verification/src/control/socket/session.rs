//! What the control protocol decides about a client's connection and about
//! requests that change the portal's running state.
use vstd::prelude::*;
use vstd::string::StringExecFns;
use crate::control::socket::{MAX_CONNECTED, KEEPALIVE_INTERVAL_SECONDS};
use crate::control::socket::errors::Errors;
use crate::control::socket::requests::AutoUploadQuery;
use crate::reader::Reader;
use crate::reader::zebra::DEFAULT_ZEBRA_PORT;

verus! {

/// Which connected clients have asked to be sent new reads.
pub struct ReadRepeaters {
    flags: [bool; MAX_CONNECTED],
}

impl View for ReadRepeaters {
    type V = Seq<bool>;

    closed spec fn view(&self) -> Seq<bool> {
        self.flags@
    }
}

impl ReadRepeaters {
    pub fn new() -> (r: ReadRepeaters)
        ensures
            r@ == Seq::new(MAX_CONNECTED as nat, |i: int| false),
    {
        let r = ReadRepeaters { flags: [false; MAX_CONNECTED] };
        assert(r@ =~= Seq::new(MAX_CONNECTED as nat, |i: int| false));
        r
    }

    /// A client connects at slot `index`, asking for reads or not.
    pub fn connect(&mut self, index: usize, reads: bool)
        requires
            index < MAX_CONNECTED,
        ensures
            final(self)@ == old(self)@.update(index as int, reads),
    {
        self.flags[index] = reads;
    }

    /// A client changes whether it wants reads; asking for what it already has is refused.
    pub fn subscribe(&mut self, index: usize, reads: bool) -> (r: Result<(), Errors>)
        requires
            index < MAX_CONNECTED,
        ensures
            old(self)@[index as int] == reads ==> (r matches Err(Errors::AlreadySubscribed { message })
                && message@ == "reads already set to "@ + (if reads { "true"@ } else { "false"@ })
                && final(self)@ == old(self)@),
            old(self)@[index as int] != reads ==> r is Ok && final(self)@ == old(self)@.update(index as int, reads),
    {
        if self.flags[index] == reads {
            let mut message = String::from_str("reads already set to ");
            message.append(if reads { "true" } else { "false" });
            Err(Errors::AlreadySubscribed { message })
        } else {
            self.flags[index] = reads;
            Ok(())
        }
    }

    pub fn subscribed(&self, index: usize) -> (r: bool)
        requires
            index < MAX_CONNECTED,
        ensures
            r == self@[index as int],
    {
        self.flags[index]
    }
}

/// Which places for control connections are taken. The first
/// `MAX_CONNECTED` are for clients; the last is kept for the portal itself,
/// connecting from the same machine to tell itself to stop.
pub struct ClientSlots {
    taken: [bool; 5],
}

impl View for ClientSlots {
    type V = Seq<bool>;

    closed spec fn view(&self) -> Seq<bool> {
        self.taken@
    }
}

/// Where a new connection goes: the first free client place, or the
/// portal's own place for a connection from this machine, or nowhere.
pub open spec fn slot_for(s: Seq<bool>, local: bool) -> Option<int> {
    if exists|i: int| 0 <= i < MAX_CONNECTED && !(#[trigger] s[i]) {
        Some(choose|i: int| 0 <= i < MAX_CONNECTED && !s[i] && forall|j: int| 0 <= j < i ==> #[trigger] s[j])
    } else if local && !s[MAX_CONNECTED as int] {
        Some(MAX_CONNECTED as int)
    } else {
        None
    }
}

impl ClientSlots {
    pub fn new() -> (r: ClientSlots)
        ensures
            r@ == Seq::new((MAX_CONNECTED + 1) as nat, |i: int| false),
    {
        let r = ClientSlots { taken: [false; 5] };
        assert(r@ =~= Seq::new((MAX_CONNECTED + 1) as nat, |i: int| false));
        r
    }

    /// Places a new connection, `local` when it comes from this machine: the
    /// first free client place is taken; where all are taken, a local
    /// connection gets the portal's own place if it is free; otherwise the
    /// connection is refused with `TooManyConnections`.
    pub fn accept_client(&mut self, local: bool) -> (r: Result<usize, Errors>)
        ensures
            old(self)@.len() == MAX_CONNECTED + 1,
            slot_for(old(self)@, local) is None <==> r is Err,
            r matches Err(e) ==> e is TooManyConnections && final(self)@ == old(self)@,
            r matches Ok(i) ==> {
                &&& slot_for(old(self)@, local) == Some(i as int)
                &&& !old(self)@[i as int]
                &&& (i < MAX_CONNECTED ==> forall|j: int| 0 <= j < i ==> #[trigger] old(self)@[j])
                &&& (i == MAX_CONNECTED ==> local && forall|j: int| 0 <= j < MAX_CONNECTED ==> #[trigger] old(self)@[j])
                &&& final(self)@ == old(self)@.update(i as int, true)
            },
    {
        let mut i: usize = 0;
        while i < MAX_CONNECTED
            invariant
                i <= MAX_CONNECTED,
                self@ == old(self)@,
                self@.len() == MAX_CONNECTED + 1,
                forall|j: int| 0 <= j < i ==> #[trigger] self@[j],
            decreases MAX_CONNECTED - i,
        {
            if !self.taken[i] {
                proof {
                    let s = old(self)@;
                    assert(exists|k: int| 0 <= k < MAX_CONNECTED && !(#[trigger] s[k])) by {
                        assert(!s[i as int]);
                    }
                    let c = choose|k: int| 0 <= k < MAX_CONNECTED && !s[k] && forall|j: int| 0 <= j < k ==> #[trigger] s[j];
                    assert(0 <= i < MAX_CONNECTED && !s[i as int] && forall|j: int| 0 <= j < i ==> #[trigger] s[j]);
                    if c < i {
                        assert(s[c]);
                    }
                    if c > i {
                        assert(s[i as int]);
                    }
                    assert(c == i);
                }
                self.taken[i] = true;
                return Ok(i);
            }
            i = i + 1;
        }
        proof {
            let s = old(self)@;
            assert(!exists|k: int| 0 <= k < MAX_CONNECTED && !(#[trigger] s[k]));
        }
        if local && !self.taken[MAX_CONNECTED] {
            self.taken[MAX_CONNECTED] = true;
            Ok(MAX_CONNECTED)
        } else {
            Err(Errors::TooManyConnections)
        }
    }

    /// Frees a place when its connection closes.
    pub fn release(&mut self, index: usize)
        requires
            index <= MAX_CONNECTED,
        ensures
            final(self)@ == old(self)@.update(index as int, false),
    {
        self.taken[index] = false;
    }
}

/// What a connection does about a quiet client.
#[derive(Debug, Clone, Copy, PartialEq, Eq, Structural)]
pub enum KeepaliveAction {
    /// The client was heard from recently enough.
    Nothing,
    /// Ask the client whether it is still there.
    Ping,
    /// Nothing was heard for twice the interval: the client is gone.
    Disconnect,
}

/// What to do, at `now`, about a client last heard from at `last` (both in
/// seconds): a ping once the interval has passed, and a disconnect once
/// twice the interval has.
pub fn keepalive_due(last: u64, now: u64) -> (r: KeepaliveAction)
    ensures
        r == (if last + 2 * KEEPALIVE_INTERVAL_SECONDS < now {
            KeepaliveAction::Disconnect
        } else if last + KEEPALIVE_INTERVAL_SECONDS < now {
            KeepaliveAction::Ping
        } else {
            KeepaliveAction::Nothing
        }),
{
    if now <= last {
        KeepaliveAction::Nothing
    } else if now - last > 2 * KEEPALIVE_INTERVAL_SECONDS {
        KeepaliveAction::Disconnect
    } else if now - last > KEEPALIVE_INTERVAL_SECONDS {
        KeepaliveAction::Ping
    } else {
        KeepaliveAction::Nothing
    }
}

/// What a request about the automatic upload does.
#[derive(Debug, Clone, Copy, PartialEq, Eq, Structural)]
pub enum UploadPlan {
    /// Start the uploader and turn the automatic upload on.
    Start,
    /// The uploader runs already; the automatic upload is turned on anyway.
    AlreadyRunning,
    /// Stop the uploader and turn the automatic upload off.
    Stop,
    /// The uploader is not running; the automatic upload is turned off anyway.
    NotRunning,
    /// Tell the client the uploader's status.
    Report,
}

pub fn plan_upload_query(query: AutoUploadQuery, running: bool) -> (r: UploadPlan)
    ensures
        r == (match query {
            AutoUploadQuery::Start => if running { UploadPlan::AlreadyRunning } else { UploadPlan::Start },
            AutoUploadQuery::Stop => if running { UploadPlan::Stop } else { UploadPlan::NotRunning },
            AutoUploadQuery::Status => UploadPlan::Report,
        }),
{
    match query {
        AutoUploadQuery::Start => if running { UploadPlan::AlreadyRunning } else { UploadPlan::Start },
        AutoUploadQuery::Stop => if running { UploadPlan::Stop } else { UploadPlan::NotRunning },
        AutoUploadQuery::Status => UploadPlan::Report,
    }
}

/// The portal's clock may be set only while no reader is connected.
pub fn time_set_allowed(readers: &Vec<Reader>) -> (r: bool)
    ensures
        r == (forall|i: int| 0 <= i < readers@.len() ==> !(#[trigger] readers@[i])@.connected),
{
    let mut i: usize = 0;
    while i < readers.len()
        invariant
            i <= readers@.len(),
            forall|j: int| 0 <= j < i ==> !(#[trigger] readers@[j])@.connected,
        decreases readers.len() - i,
    {
        if let Some(true) = readers[i].is_connected() {
            return false;
        }
        i = i + 1;
    }
    true
}

/// The port a reader is reached at: ports below 100 mean the Zebra default.
pub fn reader_port(port: u16) -> (r: u16)
    ensures
        r == (if port < 100 { DEFAULT_ZEBRA_PORT } else { port }),
{
    if port < 100 { DEFAULT_ZEBRA_PORT } else { port }
}

} // verus!
