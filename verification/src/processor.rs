//! Holding reads until the database takes them.
use vstd::prelude::*;
use crate::objects::read::{Read, ReadView};
use crate::database::memstore::{
    same_rows, same_sightings, store_reads, valid_status, MemStore, MemStoreView,
};

verus! {

/// What the saving loop does after a turn: wait for more reads, or end.
#[derive(Debug, Clone, Copy, PartialEq, Eq, Structural)]
pub enum SaverAction {
    Wait,
    Stop,
}

/// A call that changes whether a read saver runs: `stop`, `start`, or a
/// turn of its loop with the program's keep-alive flag.
pub enum SaverCall {
    Stop,
    Start,
    Turn(bool),
}

/// Whether the saver runs after a run of calls, from `r`, as their contracts say.
pub open spec fn running_after(r: bool, calls: Seq<SaverCall>) -> bool
    decreases calls.len(),
{
    if calls.len() == 0 {
        r
    } else {
        let before = running_after(r, calls.drop_last());
        match calls.last() {
            SaverCall::Stop => false,
            SaverCall::Start => true,
            SaverCall::Turn(keepalive) => before && keepalive,
        }
    }
}

/// Some `start` in `calls` has been followed only by turns that keep the loop going.
pub open spec fn inside_loop(calls: Seq<SaverCall>) -> bool {
    exists|i: int| 0 <= i < calls.len() && calls[i] is Start
        && forall|j: int| i < j < calls.len() ==> #[trigger] calls[j] == SaverCall::Turn(true)
}

/// A new read saver runs exactly while a `start` is inside its loop: after
/// `stop`, or after a turn that ends the loop, it no longer runs.
pub proof fn law_saver_runs_only_inside_its_loop(calls: Seq<SaverCall>)
    ensures
        running_after(false, calls) == inside_loop(calls),
    decreases calls.len(),
{
    if calls.len() > 0 {
        let pre = calls.drop_last();
        let n = calls.len() - 1;
        law_saver_runs_only_inside_its_loop(pre);
        match calls.last() {
            SaverCall::Stop => {
                if inside_loop(calls) {
                    let i = choose|i: int| 0 <= i < calls.len() && calls[i] is Start
                        && forall|j: int| i < j < calls.len() ==> #[trigger] calls[j] == SaverCall::Turn(true);
                    assert(i != n);
                    assert(calls[n] == SaverCall::Turn(true));
                }
            },
            SaverCall::Start => {
                assert(calls[n] is Start);
                assert(forall|j: int| n < j < calls.len() ==> #[trigger] calls[j] == SaverCall::Turn(true));
            },
            SaverCall::Turn(keepalive) => {
                if inside_loop(calls) {
                    let i = choose|i: int| 0 <= i < calls.len() && calls[i] is Start
                        && forall|j: int| i < j < calls.len() ==> #[trigger] calls[j] == SaverCall::Turn(true);
                    assert(i != n);
                    assert(calls[n] == SaverCall::Turn(true));
                    assert(pre[i] == calls[i]);
                    assert forall|j: int| i < j < pre.len() implies #[trigger] pre[j] == SaverCall::Turn(true) by {
                        assert(pre[j] == calls[j]);
                    }
                    assert(inside_loop(pre));
                }
                if keepalive && inside_loop(pre) {
                    let i = choose|i: int| 0 <= i < pre.len() && pre[i] is Start
                        && forall|j: int| i < j < pre.len() ==> #[trigger] pre[j] == SaverCall::Turn(true);
                    assert(calls[i] == pre[i]);
                    assert forall|j: int| i < j < calls.len() implies #[trigger] calls[j] == SaverCall::Turn(true) by {
                        if j < n {
                            assert(pre[j] == calls[j]);
                        }
                    }
                    assert(inside_loop(calls));
                }
            },
        }
    }
}

/// The store takes these reads: each status is one it accepts and the ids
/// they need fit.
pub open spec fn saves_ok(st: MemStoreView, p: Seq<ReadView>) -> bool {
    &&& forall|k: int| 0 <= k < p.len() ==> valid_status(#[trigger] p[k].status)
    &&& st.next_id + p.len() <= u64::MAX
}

/// Writing the waiting reads `p` into the store: where there are some and the
/// store takes them, they are stored in order and none wait any more;
/// otherwise the store is unchanged and all of them still wait.
pub open spec fn flushed(
    before: MemStoreView,
    after: MemStoreView,
    p: Seq<ReadView>,
    left: Seq<ReadView>,
) -> bool {
    if p.len() > 0 && saves_ok(before, p) {
        &&& after.reads == store_reads(before.reads, before.next_id as int, p)
        &&& after.next_id == before.next_id + (after.reads.len() - before.reads.len())
        &&& same_rows(after, before)
        &&& same_sightings(after, before)
        &&& after.settings == before.settings
        &&& left == Seq::<ReadView>::empty()
    } else {
        &&& after == before
        &&& left == p
    }
}

/// The views of a list of reads.
pub open spec fn read_views(v: Seq<Read>) -> Seq<ReadView> {
    v.map_values(|r: Read| r@)
}

/// Reads waiting to be written to the database. The reader threads hand
/// reads in; the saving loop takes them out in the order they came.
pub struct ReadSaver {
    reads: Vec<Read>,
    running: bool,
    notified: bool,
}

/// What a read saver holds: the waiting reads, whether its loop runs, and
/// whether reads came in since the loop last took them.
pub struct ReadSaverView {
    pub pending: Seq<ReadView>,
    pub running: bool,
    pub notified: bool,
}

impl View for ReadSaver {
    type V = ReadSaverView;

    closed spec fn view(&self) -> ReadSaverView {
        ReadSaverView { pending: read_views(self.reads@), running: self.running, notified: self.notified }
    }
}

/// Copies of the reads, in order.
fn clone_reads(v: &Vec<Read>) -> (r: Vec<Read>)
    ensures
        read_views(r@) == read_views(v@),
{
    let mut out: Vec<Read> = Vec::new();
    let mut i: usize = 0;
    while i < v.len()
        invariant
            i <= v.len(),
            out@.len() == i,
            forall|j: int| 0 <= j < i ==> (#[trigger] out@[j])@ == v@[j]@,
        decreases v.len() - i,
    {
        let c = v[i].clone();
        out.push(c);
        i = i + 1;
    }
    assert(read_views(out@) =~= read_views(v@));
    out
}

impl ReadSaver {
    pub fn new() -> (r: ReadSaver)
        ensures
            r@.pending == Seq::<ReadView>::empty(),
            !r@.running,
            !r@.notified,
    {
        ReadSaver { reads: Vec::new(), running: false, notified: false }
    }

    /// Queues copies of the reads behind those already waiting.
    pub fn save_reads(&mut self, in_reads: &Vec<Read>) -> (r: Result<(), &'static str>)
        ensures
            r is Ok,
            final(self)@.pending == old(self)@.pending + read_views(in_reads@),
            final(self)@.running == old(self)@.running,
            final(self)@.notified,
    {
        let mut copies = clone_reads(in_reads);
        let ghost before = self.reads@;
        let ghost cp = copies@;
        self.reads.append(&mut copies);
        assert(read_views(self.reads@) =~= read_views(before) + read_views(in_reads@)) by {
            assert(self.reads@ =~= before + cp);
            assert(read_views(cp) == read_views(in_reads@));
        }
        self.notified = true;
        Ok(())
    }

    pub fn running(&self) -> (r: bool)
        ensures
            r == self@.running,
    {
        self.running
    }

    /// Enters the saving loop: the saver runs until a turn of `step` ends it.
    pub fn start(&mut self)
        ensures
            final(self)@ == (ReadSaverView { running: true, ..old(self)@ }),
            final(self)@.running == running_after(old(self)@.running, seq![SaverCall::Start]),
    {
        self.running = true;
    }

    /// Writes every waiting read into the store, or keeps them all waiting
    /// where the store refuses them.
    fn flush(&mut self, store: &mut MemStore)
        requires
            old(store).wf(),
        ensures
            final(store).wf(),
            flushed(old(store)@, final(store)@, old(self)@.pending, final(self)@.pending),
            final(self)@.running == old(self)@.running,
            final(self)@.notified == old(self)@.notified,
    {
        if self.reads.len() == 0 {
            return;
        }
        let notified = self.notified;
        let pending = self.take_pending();
        self.notified = notified;
        let ghost p = read_views(pending@);
        assert(forall|k: int| 0 <= k < pending@.len() ==> #[trigger] p[k] == pending@[k]@);
        match store.save_reads(&pending) {
            Ok(_) => {
                assert(saves_ok(old(store)@, p)) by {
                    assert forall|k: int| 0 <= k < p.len() implies valid_status(#[trigger] p[k].status) by {
                        if !valid_status(p[k].status) {
                            assert(!valid_status(pending@[k]@.status));
                        }
                    }
                }
            },
            Err(_) => {
                proof {
                    if saves_ok(old(store)@, p) {
                        assert forall|k: int| 0 <= k < pending@.len() implies valid_status(#[trigger] pending@[k]@.status) by {
                            assert(valid_status(p[k].status));
                        }
                    }
                }
                self.restore(pending);
                assert(self@.pending =~= old(self)@.pending);
            },
        }
    }

    /// One turn of the saving loop, after a wake-up, with the program's
    /// keep-alive flag. While both the flag and the saver run, reads that came
    /// in since the last turn are written to the store and the loop waits
    /// again; otherwise the saver stops, writes what is still waiting, and the
    /// loop ends.
    pub fn step(&mut self, store: &mut MemStore, keepalive: bool) -> (r: SaverAction)
        requires
            old(store).wf(),
        ensures
            final(store).wf(),
            r == (if keepalive && old(self)@.running { SaverAction::Wait } else { SaverAction::Stop }),
            final(self)@.running == (r == SaverAction::Wait),
            final(self)@.running == running_after(old(self)@.running, seq![SaverCall::Turn(keepalive)]),
            r == SaverAction::Wait ==> {
                if old(self)@.notified {
                    &&& flushed(old(store)@, final(store)@, old(self)@.pending, final(self)@.pending)
                    &&& !final(self)@.notified
                } else {
                    &&& final(store)@ == old(store)@
                    &&& final(self)@ == old(self)@
                }
            },
            r == SaverAction::Stop ==> {
                &&& flushed(old(store)@, final(store)@, old(self)@.pending, final(self)@.pending)
                &&& final(self)@.notified == old(self)@.notified
            },
    {
        proof {
            let c = seq![SaverCall::Turn(keepalive)];
            assert(c.drop_last() =~= Seq::<SaverCall>::empty());
            reveal_with_fuel(running_after, 2);
            assert(running_after(self@.running, c) == (self@.running && keepalive));
        }
        if keepalive && self.running {
            if self.notified {
                self.flush(store);
                self.notified = false;
            }
            SaverAction::Wait
        } else {
            self.running = false;
            self.flush(store);
            SaverAction::Stop
        }
    }

    /// Tells the saving loop to stop.
    pub fn stop(&mut self)
        ensures
            final(self)@ == (ReadSaverView { running: false, ..old(self)@ }),
            final(self)@.running == running_after(old(self)@.running, seq![SaverCall::Stop]),
    {
        self.running = false;
    }

    /// Takes every waiting read out, oldest first, and clears the notice.
    pub fn take_pending(&mut self) -> (r: Vec<Read>)
        ensures
            read_views(r@) == old(self)@.pending,
            final(self)@.pending == Seq::<ReadView>::empty(),
            final(self)@.running == old(self)@.running,
            !final(self)@.notified,
    {
        let mut out: Vec<Read> = Vec::new();
        std::mem::swap(&mut out, &mut self.reads);
        self.notified = false;
        assert(read_views(self.reads@) =~= Seq::<ReadView>::empty());
        out
    }

    /// Puts back reads the database refused, behind any that came in meanwhile.
    pub fn restore(&mut self, failed: Vec<Read>)
        ensures
            final(self)@.pending == old(self)@.pending + read_views(failed@),
            final(self)@.running == old(self)@.running,
            final(self)@.notified == old(self)@.notified,
    {
        let mut failed = failed;
        let ghost before = self.reads@;
        let ghost back = failed@;
        self.reads.append(&mut failed);
        assert(read_views(self.reads@) =~= read_views(before) + read_views(back)) by {
            assert(self.reads@ =~= before + back);
        }
    }
}

} // verus!
