//! Uploading reads in chunks: which chunks to send, and what the answers to
//! them make of the reads.
use vstd::prelude::*;
use vstd::string::StringExecFns;
use crate::objects::read::{Read, ReadView, new_read_view, READ_UPLOADED_TRUE};
use crate::processor::read_views;

verus! {

/// The most reads sent in one request.
pub const UPLOAD_CHUNK: usize = 50;

/// The ranges of a list of `n` reads sent one request each: with more than
/// fifty reads, every full fifty in turn and then the rest (empty when
/// nothing is left); otherwise all of them at once, or nothing.
pub open spec fn upload_chunks(n: nat) -> Seq<(int, int)> {
    if n > 50 {
        Seq::new(n / 50, |i: int| (50 * i, 50 * i + 50)).push((50 * (n / 50) as int, n as int))
    } else if n > 0 {
        seq![(0int, n as int)]
    } else {
        Seq::empty()
    }
}

/// The chunks cover the reads in order, one after another, none larger than fifty.
pub proof fn law_chunks_cover_in_order(n: nat)
    ensures
        n > 0 ==> upload_chunks(n).len() > 0 && upload_chunks(n)[0].0 == 0 && upload_chunks(n).last().1 == n,
        forall|i: int| 0 <= i < upload_chunks(n).len() ==> 0 <= (#[trigger] upload_chunks(n)[i]).0 <= upload_chunks(n)[i].1 <= n
            && upload_chunks(n)[i].1 - upload_chunks(n)[i].0 <= 50,
        forall|i: int| 0 <= i < upload_chunks(n).len() - 1 ==> (#[trigger] upload_chunks(n)[i]).1 == upload_chunks(n)[i + 1].0,
{
    if n > 50 {
        let k = n / 50;
        assert(50 * k <= n < 50 * k + 50) by (nonlinear_arith)
            requires
                k == n / 50,
        ;
        assert forall|i: int| 0 <= i < upload_chunks(n).len() implies 0 <= (#[trigger] upload_chunks(n)[i]).0
            <= upload_chunks(n)[i].1 <= n && upload_chunks(n)[i].1 - upload_chunks(n)[i].0 <= 50 by {
            if i < k {
                assert(50 * i + 50 <= 50 * k) by (nonlinear_arith)
                    requires
                        i < k,
                ;
            }
        }
    }
}

/// The ranges to send a list of `n` reads in.
pub fn plan_upload_chunks(n: usize) -> (r: Vec<(usize, usize)>)
    ensures
        r@.len() == upload_chunks(n as nat).len(),
        forall|i: int| 0 <= i < r@.len() ==> (#[trigger] r@[i]).0 as int == upload_chunks(n as nat)[i].0
            && r@[i].1 as int == upload_chunks(n as nat)[i].1,
{
    let mut out: Vec<(usize, usize)> = Vec::new();
    if n > 50 {
        let num_loops = n / 50;
        let mut counter: usize = 0;
        while counter < num_loops
            invariant
                num_loops == n / 50,
                counter <= num_loops,
                out@.len() == counter,
                forall|i: int| 0 <= i < counter ==> (#[trigger] out@[i]).0 as int == 50 * i && out@[i].1 as int == 50 * i + 50,
            decreases num_loops - counter,
        {
            assert(50 * counter + 50 <= n) by (nonlinear_arith)
                requires
                    counter < num_loops,
                    num_loops == n / 50,
            ;
            out.push((counter * 50, counter * 50 + 50));
            counter = counter + 1;
        }
        assert(50 * num_loops <= n) by (nonlinear_arith)
            requires
                num_loops == n / 50,
        ;
        out.push((num_loops * 50, n));
    } else if n > 0 {
        out.push((0, n));
    }
    out
}

/// A read as it is stored once the service has it.
pub open spec fn uploaded_view(r: ReadView) -> ReadView {
    new_read_view(r.id, r.identifier, r.seconds, r.milliseconds, r.reader_seconds, r.reader_milliseconds,
        r.antenna, r.reader, r.rssi, r.status, READ_UPLOADED_TRUE)
}

/// Copies of the reads marked as uploaded.
pub fn mark_uploaded(reads: &[Read]) -> (r: Vec<Read>)
    ensures
        read_views(r@) == read_views(reads@).map_values(|x: ReadView| uploaded_view(x)),
{
    let mut out: Vec<Read> = Vec::new();
    let mut i: usize = 0;
    while i < reads.len()
        invariant
            i <= reads@.len(),
            out@.len() == i,
            forall|j: int| 0 <= j < i ==> (#[trigger] out@[j])@ == uploaded_view(reads@[j]@),
        decreases reads.len() - i,
    {
        let x = &reads[i];
        out.push(Read::new(
            x.id(),
            String::from_str(x.chip()),
            x.seconds(),
            x.milliseconds(),
            x.reader_seconds(),
            x.reader_milliseconds(),
            x.antenna(),
            String::from_str(x.reader()),
            String::from_str(x.rssi()),
            x.status(),
            READ_UPLOADED_TRUE,
        ));
        i = i + 1;
    }
    assert(read_views(out@) =~= read_views(reads@).map_values(|x: ReadView| uploaded_view(x)));
    out
}

/// What an upload run comes to: the reads the service took, marked as
/// uploaded, and how many requests failed.
pub struct UploadTally {
    pub modified: Vec<Read>,
    pub errors: usize,
}

impl UploadTally {
    pub fn new() -> (r: UploadTally)
        ensures
            r.modified@.len() == 0,
            r.errors == 0,
    {
        UploadTally { modified: Vec::new(), errors: 0 }
    }

    /// Takes in the service's answer to one chunk: the number of reads it
    /// took, or `None` when the request failed. When it took them all, the
    /// chunk is kept as uploaded; otherwise the failure is counted.
    pub fn record(&mut self, chunk: &[Read], taken: Option<usize>)
        requires
            old(self).errors < usize::MAX,
        ensures
            taken == Some(chunk@.len() as usize) ==> read_views(final(self).modified@) == read_views(old(self).modified@)
                + read_views(chunk@).map_values(|x: ReadView| uploaded_view(x)),
            taken == Some(chunk@.len() as usize) ==> final(self).errors == old(self).errors,
            taken != Some(chunk@.len() as usize) ==> final(self).modified@ == old(self).modified@
                && final(self).errors == old(self).errors + 1,
    {
        match taken {
            Some(count) if count == chunk.len() => {
                let mut marked = mark_uploaded(chunk);
                let ghost before = self.modified@;
                let ghost m = marked@;
                self.modified.append(&mut marked);
                assert(self.modified@ =~= before + m);
                assert(read_views(self.modified@) =~= read_views(before) + read_views(m));
            },
            _ => {
                self.errors = self.errors + 1;
            },
        }
    }
}

} // verus!
