//! Cutting the bytes a reader sends into LLRP messages. A read from the
//! socket may end inside a message; those bytes wait in a second buffer
//! until the next read completes them.
use vstd::prelude::*;
use crate::llrp::bit_masks::{get_msg_type, msg_header, msg_header_valid, be32};
use crate::reader::zebra::BUFFER_SIZE;

verus! {

/// What the bytes at an index of a read buffer hold.
#[derive(Debug, Clone, Copy)]
pub enum Frame {
    /// A whole message: its header fields, and the index just past it.
    Message { version: u16, kind: u16, id: u32, end: usize },
    /// The start of a message the bytes read so far do not hold all of.
    Partial,
    /// Bytes that do not start a message, and why.
    Invalid(&'static str),
}

/// The frame the ten header bytes at `ix` of `b` describe, when `num` bytes were read.
pub open spec fn frame_at(b: Seq<u8>, ix: int, num: int) -> Frame {
    let h = b.subrange(ix, ix + 10);
    if msg_header(h) >= 0x2000 {
        Frame::Invalid("invalid reserved field")
    } else if !msg_header_valid(msg_header(h)) {
        Frame::Invalid("invalid version specified")
    } else if ix + be32(h, 2) > num {
        Frame::Partial
    } else {
        Frame::Message {
            version: (msg_header(h) / 1024) as u16,
            kind: (msg_header(h) % 1024) as u16,
            id: be32(h, 6) as u32,
            end: (ix + be32(h, 2)) as usize,
        }
    }
}

/// The message starting at `cur_ix` of the first `num` bytes read into `buf`.
pub fn next_frame(buf: &[u8], cur_ix: usize, num: usize) -> (r: Frame)
    requires
        cur_ix < num <= buf@.len(),
        cur_ix + 10 <= buf@.len(),
    ensures
        r == frame_at(buf@, cur_ix as int, num as int),
{
    let mut header: [u8; 10] = [0; 10];
    let len = buf.len();
    let mut k: usize = 0;
    while k < 10
        invariant
            k <= 10,
            len == buf@.len(),
            cur_ix + 10 <= buf@.len(),
            forall|j: int| 0 <= j < k ==> header@[j] == buf@[cur_ix + j],
        decreases 10 - k,
    {
        header[k] = buf[cur_ix + k];
        k = k + 1;
    }
    assert(header@ =~= buf@.subrange(cur_ix as int, cur_ix + 10));
    match get_msg_type(&header) {
        Err(e) => Frame::Invalid(e),
        Ok(info) => {
            if (cur_ix as u128) + (info.length as u128) > (num as u128) {
                Frame::Partial
            } else {
                Frame::Message {
                    version: info.version,
                    kind: info.kind,
                    id: info.id,
                    end: cur_ix + (info.length as usize),
                }
            }
        },
    }
}

/// Copies the start of a new read behind the few leftover bytes, so that the
/// leftover holds at least a message's first four bytes: four bytes, or all
/// that were read when fewer.
pub fn fill_leftover_header(
    leftover: &mut [u8; BUFFER_SIZE],
    leftover_num: usize,
    buf: &[u8; BUFFER_SIZE],
    num: usize,
)
    requires
        0 < leftover_num < 4,
        num <= BUFFER_SIZE,
    ensures
        final(leftover)@ == {
            let c = if num < 4 { num as int } else { 4 };
            old(leftover)@.subrange(0, leftover_num as int) + buf@.subrange(0, c) + old(
                leftover,
            )@.subrange(leftover_num + c, BUFFER_SIZE as int)
        },
{
    let copy_amount = if num < 4 { num } else { 4 };
    let ghost orig = leftover@;
    let mut k: usize = 0;
    while k < copy_amount
        invariant
            k <= copy_amount <= 4,
            0 < leftover_num < 4,
            leftover@.len() == BUFFER_SIZE,
            forall|j: int| 0 <= j < leftover_num + k ==> leftover@[j] == (if j < leftover_num { orig[j] } else { buf@[j - leftover_num] }),
            forall|j: int| leftover_num + k <= j < BUFFER_SIZE ==> leftover@[j] == orig[j],
        decreases copy_amount - k,
    {
        leftover[leftover_num + k] = buf[k];
        k = k + 1;
    }
    assert(leftover@ =~= orig.subrange(0, leftover_num as int) + buf@.subrange(0, copy_amount as int)
        + orig.subrange(leftover_num + copy_amount, BUFFER_SIZE as int));
}

/// Completes the leftover message with the first `rest` bytes of the new
/// read, placing them right behind the `leftover_num` bytes kept.
pub fn complete_leftover(leftover: &mut [u8; BUFFER_SIZE], leftover_num: usize, buf: &[u8; BUFFER_SIZE], rest: usize)
    requires
        leftover_num + rest <= BUFFER_SIZE,
    ensures
        final(leftover)@ == old(leftover)@.subrange(0, leftover_num as int) + buf@.subrange(0, rest as int)
            + old(leftover)@.subrange(leftover_num + rest, BUFFER_SIZE as int),
{
    let ghost orig = leftover@;
    let mut k: usize = 0;
    while k < rest
        invariant
            k <= rest,
            leftover_num + rest <= BUFFER_SIZE,
            leftover@.len() == BUFFER_SIZE,
            forall|j: int| 0 <= j < leftover_num + k ==> leftover@[j] == (if j < leftover_num { orig[j] } else { buf@[j - leftover_num] }),
            forall|j: int| leftover_num + k <= j < BUFFER_SIZE ==> leftover@[j] == orig[j],
        decreases rest - k,
    {
        leftover[leftover_num + k] = buf[k];
        k = k + 1;
    }
    assert(leftover@ =~= orig.subrange(0, leftover_num as int) + buf@.subrange(0, rest as int)
        + orig.subrange(leftover_num + rest, BUFFER_SIZE as int));
}

/// Keeps the unfinished message at `cur_ix..num` of the read at the front of
/// the leftover buffer, and gives back how many bytes it kept.
pub fn keep_leftover(leftover: &mut [u8; BUFFER_SIZE], buf: &[u8; BUFFER_SIZE], cur_ix: usize, num: usize) -> (r: usize)
    requires
        cur_ix <= num <= BUFFER_SIZE,
    ensures
        r == num - cur_ix,
        final(leftover)@ == buf@.subrange(cur_ix as int, num as int) + old(leftover)@.subrange(r as int, BUFFER_SIZE as int),
{
    let n = num - cur_ix;
    let ghost orig = leftover@;
    let mut k: usize = 0;
    while k < n
        invariant
            k <= n,
            n == num - cur_ix,
            cur_ix <= num <= BUFFER_SIZE,
            leftover@.len() == BUFFER_SIZE,
            forall|j: int| 0 <= j < k ==> leftover@[j] == buf@[cur_ix + j],
            forall|j: int| k <= j < BUFFER_SIZE ==> leftover@[j] == orig[j],
        decreases n - k,
    {
        leftover[k] = buf[cur_ix + k];
        k = k + 1;
    }
    assert(leftover@ =~= buf@.subrange(cur_ix as int, num as int) + orig.subrange(n as int, BUFFER_SIZE as int));
    n
}

/// A whole message of a batch: its type and id, and where its body lies
/// (behind the ten header bytes), in the leftover buffer or in the read.
#[derive(Debug, Clone, Copy, PartialEq, Eq, Structural)]
pub struct Span {
    pub in_leftover: bool,
    pub kind: u16,
    pub id: u32,
    pub start: usize,
    pub end: usize,
}

/// The leftover bytes once the start of a new read of `num` bytes fills in a
/// header the last read cut short (fewer than four bytes of it were kept).
pub open spec fn topped_up(l: Seq<u8>, n: int, b: Seq<u8>, num: int) -> Seq<u8> {
    if 0 < n < 4 {
        let c = if num < 4 { num } else { 4 };
        l.subrange(0, n) + b.subrange(0, c) + l.subrange(n + c, BUFFER_SIZE as int)
    } else {
        l
    }
}

/// The kept bytes start a message at least as long as what was kept.
pub open spec fn leftover_fits(l: Seq<u8>, n: int) -> bool {
    n > 0 && msg_header_valid(msg_header(l)) && be32(l, 2) >= n
}

/// Where the new read's own messages start: behind the rest of the message
/// the last read cut off, where the kept bytes start one.
pub open spec fn resume_at(l: Seq<u8>, n: int) -> int {
    if leftover_fits(l, n) { be32(l, 2) - n } else { 0 }
}

/// The new read holds the rest of the cut-off message, and it fits the buffer.
pub open spec fn leftover_completes(l: Seq<u8>, n: int, num: int) -> bool {
    leftover_fits(l, n) && be32(l, 2) <= BUFFER_SIZE && be32(l, 2) - n <= num
}

/// The messages found scanning `b`, `num` bytes read, from `ix` on: the
/// whole messages in order, where an unfinished one starts, and the error
/// that stopped the scan.
pub open spec fn scan(b: Seq<u8>, ix: int, num: int) -> (Seq<Span>, Option<int>, Option<&'static str>)
    decreases num - ix,
{
    if !(ix < num && ix + 10 <= BUFFER_SIZE) {
        (Seq::empty(), None, None)
    } else {
        match frame_at(b, ix, num) {
            Frame::Message { kind, id, end, .. } => {
                if end <= ix {
                    (Seq::empty(), None, Some("message of length zero"))
                } else if end > num {
                    // never: a whole message ends within the bytes read
                    (Seq::empty(), None, None)
                } else {
                    let rest = scan(b, end as int, num);
                    (seq![Span { in_leftover: false, kind, id, start: (ix + 10) as usize, end }] + rest.0, rest.1, rest.2)
                }
            },
            Frame::Partial => (Seq::empty(), Some(ix), None),
            Frame::Invalid(m) => (Seq::empty(), None, Some(m)),
        }
    }
}

/// Completes the message the last read cut off with the start of the new
/// read of `num` bytes. Gives back that message, where the new read holds its
/// rest, and the index where the new read's own messages start; nothing is
/// kept afterwards.
pub fn take_leftover(
    leftover: &mut [u8; BUFFER_SIZE],
    leftover_num: &mut usize,
    buf: &[u8; BUFFER_SIZE],
    num: usize,
) -> (r: (Option<Span>, usize))
    requires
        num <= BUFFER_SIZE,
        *old(leftover_num) <= BUFFER_SIZE,
    ensures
        ({
            let n = *old(leftover_num) as int;
            let l = topped_up(old(leftover)@, n, buf@, num as int);
            &&& r.1 == resume_at(l, n)
            &&& leftover_completes(l, n, num as int) ==> {
                &&& r.0 == Some(Span {
                    in_leftover: true,
                    kind: (msg_header(l) % 1024) as u16,
                    id: be32(l, 6) as u32,
                    start: 10,
                    end: be32(l, 2) as usize,
                })
                &&& final(leftover)@ == l.subrange(0, n) + buf@.subrange(0, be32(l, 2) - n) + l.subrange(
                    be32(l, 2),
                    BUFFER_SIZE as int,
                )
            }
            &&& !leftover_completes(l, n, num as int) ==> r.0 is None && final(leftover)@ == l
        }),
        *final(leftover_num) == 0,
{
    let n = *leftover_num;
    let mut cur_ix: usize = 0;
    let mut lead: Option<Span> = None;
    if n > 0 {
        if n < 4 {
            fill_leftover_header(leftover, n, buf, num);
        }
        match get_msg_type(leftover) {
            Ok(info) => {
                let length = info.length as usize;
                if length >= n {
                    cur_ix = length - n;
                    if n + cur_ix <= BUFFER_SIZE && cur_ix <= num {
                        complete_leftover(leftover, n, buf, cur_ix);
                        lead = Some(Span { in_leftover: true, kind: info.kind, id: info.id, start: 10, end: length });
                    }
                }
            },
            Err(_) => {},
        }
    }
    *leftover_num = 0;
    (lead, cur_ix)
}

/// Cuts the new read of `num` bytes, from `start` on, into whole messages.
/// An unfinished message at the end is kept at the front of the leftover
/// buffer for the next read; bytes that do not start a message stop the scan
/// with their error.
pub fn scan_batch(
    buf: &[u8; BUFFER_SIZE],
    num: usize,
    start: usize,
    leftover: &mut [u8; BUFFER_SIZE],
    leftover_num: &mut usize,
) -> (r: (Vec<Span>, Option<&'static str>))
    requires
        num <= BUFFER_SIZE,
        *old(leftover_num) == 0,
    ensures
        r.0@ == scan(buf@, start as int, num as int).0,
        r.1 == scan(buf@, start as int, num as int).2,
        scan(buf@, start as int, num as int).1 matches Some(p) ==> {
            &&& *final(leftover_num) == num - p
            &&& final(leftover)@ == buf@.subrange(p, num as int) + old(leftover)@.subrange(num - p, BUFFER_SIZE as int)
        },
        scan(buf@, start as int, num as int).1 is None ==> *final(leftover_num) == 0 && final(leftover)@ == old(leftover)@,
{
    let mut spans: Vec<Span> = Vec::new();
    let mut cur_ix = start;
    while cur_ix < num && cur_ix + 10 <= BUFFER_SIZE
        invariant
            num <= BUFFER_SIZE,
            *leftover_num == 0,
            leftover@ == old(leftover)@,
            spans@ + scan(buf@, cur_ix as int, num as int).0 == scan(buf@, start as int, num as int).0,
            scan(buf@, cur_ix as int, num as int).1 == scan(buf@, start as int, num as int).1,
            scan(buf@, cur_ix as int, num as int).2 == scan(buf@, start as int, num as int).2,
        decreases num - cur_ix,
    {
        let ghost sc = scan(buf@, cur_ix as int, num as int);
        match next_frame(buf, cur_ix, num) {
            Frame::Message { kind, id, end, .. } => {
                if end <= cur_ix {
                    assert(sc.0 =~= Seq::<Span>::empty());
                    assert(spans@ =~= spans@ + sc.0);
                    return (spans, Some("message of length zero"));
                }
                let ghost rest = scan(buf@, end as int, num as int);
                let ghost before = spans@;
                let span = Span { in_leftover: false, kind, id, start: cur_ix + 10, end };
                assert(sc.0 == seq![span] + rest.0);
                spans.push(span);
                assert(spans@ + rest.0 =~= before + sc.0);
                cur_ix = end;
            },
            Frame::Partial => {
                assert(spans@ + sc.0 =~= spans@);
                *leftover_num = keep_leftover(leftover, buf, cur_ix, num);
                return (spans, None);
            },
            Frame::Invalid(e) => {
                assert(spans@ + sc.0 =~= spans@);
                return (spans, Some(e));
            },
        }
    }
    assert(scan(buf@, cur_ix as int, num as int).0 =~= Seq::<Span>::empty());
    assert(spans@ + scan(buf@, cur_ix as int, num as int).0 =~= spans@);
    (spans, None)
}

} // verus!

