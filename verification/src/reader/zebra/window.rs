//! Read windows: the sightings of a tag within a window of time become one
//! read, the strongest of them.
use vstd::prelude::*;
use vstd::string::StringExecFns;
use crate::reader::zebra::TagData;
use crate::objects::read::{Read, ReadView, new_read_view, READ_STATUS_UNUSED, READ_UPLOADED_FALSE};
use crate::processor::{ReadSaver, read_views};
use crate::text::{decimal, hexadecimal, signed_byte_decimal, numeral, signed_decimal, str_equal};
use crate::types::TYPE_CHIP_DEC;
use crate::clock::now_micros;

verus! {

/// An open window: when it opened, and the strongest sighting in it so far.
pub type WindowEntry = (u128, TagData);

/// Entry `i` of `w` is the window of `tag`.
pub open spec fn tag_at(w: Seq<WindowEntry>, i: int, tag: u128) -> bool {
    0 <= i < w.len() && w[i].1.tag == tag
}

/// Some entry of `w` is the window of `tag`.
pub open spec fn has_window(w: Seq<WindowEntry>, tag: u128) -> bool {
    exists|i: int| #[trigger] tag_at(w, i, tag)
}

/// No tag has two open windows.
pub open spec fn tags_unique(w: Seq<WindowEntry>) -> bool {
    forall|i: int, j: int| 0 <= i < j < w.len() ==> w[i].1.tag != w[j].1.tag
}

/// The window of `tag`, where it has one.
pub open spec fn window_of(w: Seq<WindowEntry>, tag: u128) -> int {
    choose|i: int| #[trigger] tag_at(w, i, tag)
}

/// One sighting `t` meets the open windows. A tag without a window opens one
/// at the sighting's time. Within its window, a stronger sighting takes the
/// place of the kept one, keeping the window's start. After its window, the
/// kept sighting is handed out and a new window opens at this one.
pub open spec fn window_step(w: Seq<WindowEntry>, t: TagData, width: int) -> (Seq<WindowEntry>, Option<TagData>) {
    if has_window(w, t.tag) {
        let i = window_of(w, t.tag);
        let fs = w[i].0;
        let kept = w[i].1;
        if fs + width > t.portal_time {
            if t.rssi > kept.rssi {
                (w.update(i, (fs, TagData { first_seen: fs, ..t })), None)
            } else {
                (w, None)
            }
        } else {
            (w.update(i, (t.portal_time, t)), Some(kept))
        }
    } else {
        (w.push((t.portal_time, t)), None)
    }
}

/// The windows after the sightings `tags` met them in order, and the
/// sightings handed out on the way, in the order they were.
pub open spec fn window_fold(w: Seq<WindowEntry>, tags: Seq<TagData>, width: int) -> (Seq<WindowEntry>, Seq<TagData>)
    decreases tags.len(),
{
    if tags.len() == 0 {
        (w, Seq::empty())
    } else {
        let (w1, out1) = window_fold(w, tags.drop_last(), width);
        let (w2, o) = window_step(w1, tags.last(), width);
        match o {
            Some(k) => (w2, out1.push(k)),
            None => (w2, out1),
        }
    }
}

/// A window has run a second past its width before `now`.
pub open spec fn expired(e: WindowEntry, width: int, now: int) -> bool {
    e.0 + width + 1000000 < now
}

/// The windows still open at `now`.
pub open spec fn still_open(w: Seq<WindowEntry>, width: int, now: int) -> Seq<WindowEntry>
    decreases w.len(),
{
    if w.len() == 0 {
        w
    } else if expired(w.last(), width, now) {
        still_open(w.drop_last(), width, now)
    } else {
        still_open(w.drop_last(), width, now).push(w.last())
    }
}

/// The sightings kept by windows closed at `now`, in window order.
pub open spec fn closed_out(w: Seq<WindowEntry>, width: int, now: int) -> Seq<TagData>
    decreases w.len(),
{
    if w.len() == 0 {
        Seq::empty()
    } else if expired(w.last(), width, now) {
        closed_out(w.drop_last(), width, now).push(w.last().1)
    } else {
        closed_out(w.drop_last(), width, now)
    }
}

proof fn lemma_window_unique(w: Seq<WindowEntry>, tag: u128, i: int)
    requires
        tags_unique(w),
        tag_at(w, i, tag),
    ensures
        has_window(w, tag),
        window_of(w, tag) == i,
{
    let j = window_of(w, tag);
    assert(tag_at(w, j, tag));
}

/// A step keeps every tag's windows single.
pub proof fn law_step_keeps_tags_unique(w: Seq<WindowEntry>, t: TagData, width: int)
    requires
        tags_unique(w),
    ensures
        tags_unique(window_step(w, t, width).0),
{
    if has_window(w, t.tag) {
        let i = window_of(w, t.tag);
        assert(tag_at(w, i, t.tag));
    } else {
        let w2 = w.push((t.portal_time, t));
        assert forall|a: int, b: int| 0 <= a < b < w2.len() implies w2[a].1.tag != w2[b].1.tag by {
            if b == w.len() {
                if w2[a].1.tag == t.tag {
                    assert(tag_at(w, a, t.tag));
                }
            }
        }
    }
}

/// Within its window, a tag's kept sighting is the strongest seen: after a
/// sighting inside the window, the kept signal is the larger of the two and
/// the window's start does not move.
pub proof fn law_window_keeps_strongest(w: Seq<WindowEntry>, t: TagData, width: int, i: int)
    requires
        tags_unique(w),
        tag_at(w, i, t.tag),
        w[i].0 + width > t.portal_time,
    ensures
        window_step(w, t, width).1 is None,
        window_step(w, t, width).0[i].0 == w[i].0,
        window_step(w, t, width).0[i].1.rssi == (if t.rssi > w[i].1.rssi { t.rssi } else { w[i].1.rssi }),
        window_step(w, t, width).0.len() == w.len(),
{
    lemma_window_unique(w, t.tag, i);
}


/// The open read windows of one reader, at most one per tag, in the order
/// they opened.
pub struct ReadWindow {
    entries: Vec<WindowEntry>,
}

impl View for ReadWindow {
    type V = Seq<WindowEntry>;

    closed spec fn view(&self) -> Seq<WindowEntry> {
        self.entries@
    }
}

/// Whether `fs + width > pt`, without leaving `u128`.
fn inside(fs: u128, width: u128, pt: u128) -> (r: bool)
    ensures
        r == (fs + width > pt),
{
    pt < width || pt - width < fs
}

/// Whether `fs + width + 1000000 < now`, without leaving `u128`.
fn past(fs: u128, width: u128, now: u128) -> (r: bool)
    requires
        width <= 1000000000,
    ensures
        r == (fs + width + 1000000 < now),
{
    now > width + 1000000 && fs < now - (width + 1000000)
}

impl ReadWindow {
    pub fn new() -> (r: ReadWindow)
        ensures
            r@ == Seq::<WindowEntry>::empty(),
    {
        ReadWindow { entries: Vec::new() }
    }

    /// Where the window of `tag` is kept, if the tag has one.
    fn find(&self, tag: u128) -> (r: Option<usize>)
        requires
            tags_unique(self@),
        ensures
            r matches Some(i) ==> has_window(self@, tag) && window_of(self@, tag) == i,
            r is None ==> !has_window(self@, tag),
    {
        let mut i: usize = 0;
        while i < self.entries.len()
            invariant
                i <= self.entries@.len(),
                tags_unique(self@),
                forall|j: int| 0 <= j < i ==> self.entries@[j].1.tag != tag,
            decreases self.entries.len() - i,
        {
            if self.entries[i].1.tag == tag {
                proof {
                    lemma_window_unique(self@, tag, i as int);
                }
                return Some(i);
            }
            i = i + 1;
        }
        None
    }

    /// Meets one sighting with the windows, as `window_step` says.
    pub fn step(&mut self, t: TagData, width: u128) -> (r: Option<TagData>)
        requires
            tags_unique(old(self)@),
        ensures
            (final(self)@, r) == window_step(old(self)@, t, width as int),
            tags_unique(final(self)@),
    {
        proof {
            law_step_keeps_tags_unique(self@, t, width as int);
        }
        match self.find(t.tag) {
            Some(i) => {
                let (fs, kept) = self.entries[i];
                if inside(fs, width, t.portal_time) {
                    if t.rssi > kept.rssi {
                        self.entries.set(i, (fs, TagData { first_seen: fs, ..t }));
                    }
                    None
                } else {
                    self.entries.set(i, (t.portal_time, t));
                    Some(kept)
                }
            },
            None => {
                self.entries.push((t.portal_time, t));
                None
            },
        }
    }
}


/// Where a sighting goes among sightings ordered by time: after every one
/// seen at the same time or earlier.
pub open spec fn insert_pos(s: Seq<TagData>, x: TagData) -> int
    decreases s.len(),
{
    if s.len() == 0 {
        0
    } else if s.last().portal_time <= x.portal_time {
        s.len() as int
    } else {
        insert_pos(s.drop_last(), x)
    }
}

/// The sightings ordered by the portal's time, those seen at the same time
/// kept in the order they came.
pub open spec fn sort_by_time(s: Seq<TagData>) -> Seq<TagData>
    decreases s.len(),
{
    if s.len() == 0 {
        s
    } else {
        let p = sort_by_time(s.drop_last());
        p.insert(insert_pos(p, s.last()), s.last())
    }
}

proof fn lemma_insert_pos_bounds(s: Seq<TagData>, x: TagData)
    ensures
        0 <= insert_pos(s, x) <= s.len(),
    decreases s.len(),
{
    if s.len() > 0 {
        lemma_insert_pos_bounds(s.drop_last(), x);
    }
}

proof fn lemma_sort_len(s: Seq<TagData>)
    ensures
        sort_by_time(s).len() == s.len(),
    decreases s.len(),
{
    if s.len() > 0 {
        lemma_sort_len(s.drop_last());
        lemma_insert_pos_bounds(sort_by_time(s.drop_last()), s.last());
    }
}

/// Sightings ordered by the portal's time.
pub open spec fn time_ordered(s: Seq<TagData>) -> bool {
    forall|i: int, j: int| 0 <= i < j < s.len() ==> s[i].portal_time <= s[j].portal_time
}

proof fn lemma_insert_pos_splits(s: Seq<TagData>, x: TagData)
    requires
        time_ordered(s),
    ensures
        forall|k: int| 0 <= k < insert_pos(s, x) ==> s[k].portal_time <= x.portal_time,
        forall|k: int| insert_pos(s, x) <= k < s.len() ==> s[k].portal_time > x.portal_time,
    decreases s.len(),
{
    lemma_insert_pos_bounds(s, x);
    if s.len() > 0 {
        let p = s.drop_last();
        assert(time_ordered(p));
        lemma_insert_pos_splits(p, x);
        if s.last().portal_time <= x.portal_time {
            assert forall|k: int| 0 <= k < insert_pos(s, x) implies s[k].portal_time <= x.portal_time by {
                if k < s.len() - 1 {
                    assert(s[k].portal_time <= s[s.len() - 1].portal_time);
                }
            }
        } else {
            assert forall|k: int| 0 <= k < insert_pos(s, x) implies s[k].portal_time <= x.portal_time by {
                assert(s[k] == p[k]);
            }
            assert forall|k: int| insert_pos(s, x) <= k < s.len() implies s[k].portal_time > x.portal_time by {
                if k < s.len() - 1 {
                    assert(s[k] == p[k]);
                }
            }
        }
    }
}

/// The sightings the windows meet are ordered by time, and are the sightings
/// given, each as many times as it was given.
pub proof fn law_sort_orders_by_time(s: Seq<TagData>)
    ensures
        time_ordered(sort_by_time(s)),
        sort_by_time(s).to_multiset() == s.to_multiset(),
    decreases s.len(),
{
    broadcast use vstd::seq_lib::group_to_multiset_ensures;
    broadcast use vstd::multiset::group_multiset_axioms;
    if s.len() == 0 {
    } else {
        let pre = s.drop_last();
        let x = s.last();
        law_sort_orders_by_time(pre);
        let p = sort_by_time(pre);
        lemma_insert_pos_splits(p, x);
        lemma_insert_pos_bounds(p, x);
        let pos = insert_pos(p, x);
        let q = p.insert(pos, x);
        assert forall|i: int, j: int| 0 <= i < j < q.len() implies q[i].portal_time <= q[j].portal_time by {
            if i < pos && j < pos {
                assert(q[i] == p[i] && q[j] == p[j]);
            } else if i < pos && j == pos {
                assert(q[i] == p[i]);
            } else if i < pos {
                assert(q[i] == p[i] && q[j] == p[j - 1]);
            } else if i == pos {
                assert(q[j] == p[j - 1]);
            } else {
                assert(q[i] == p[i - 1] && q[j] == p[j - 1]);
            }
        }
        assert(q.remove(pos) =~= p);
        assert(q[pos] == x);
        assert(q.to_multiset().remove(x) == p.to_multiset());
        assert(q.to_multiset().count(x) > 0) by {
            assert(q.contains(x));
        }
        assert(q.to_multiset() =~= p.to_multiset().insert(x));
        assert(s =~= pre.push(x));
    }
}

/// The sightings ordered by the portal's time, ties in arrival order.
fn sort_tags(tags: &Vec<TagData>) -> (r: Vec<TagData>)
    ensures
        r@ == sort_by_time(tags@),
{
    let mut out: Vec<TagData> = Vec::new();
    let mut i: usize = 0;
    while i < tags.len()
        invariant
            i <= tags@.len(),
            out@ == sort_by_time(tags@.subrange(0, i as int)),
        decreases tags.len() - i,
    {
        let x = tags[i];
        proof {
            lemma_sort_len(tags@.subrange(0, i as int));
        }
        let mut j: usize = out.len();
        assert(out@.subrange(0, j as int) =~= out@);
        while j > 0 && out[j - 1].portal_time > x.portal_time
            invariant
                j <= out@.len(),
                insert_pos(out@, x) == insert_pos(out@.subrange(0, j as int), x),
            decreases j,
        {
            proof {
                assert(out@.subrange(0, j as int).drop_last() =~= out@.subrange(0, j - 1));
            }
            j = j - 1;
        }
        proof {
            if j == 0 {
                assert(out@.subrange(0, 0) =~= Seq::<TagData>::empty());
            } else {
                assert(out@.subrange(0, j as int).last() == out@[j - 1]);
            }
            assert(tags@.subrange(0, i + 1).drop_last() =~= tags@.subrange(0, i as int));
            assert(tags@.subrange(0, i + 1).last() == x);
        }
        out.insert(j, x);
        i = i + 1;
    }
    assert(tags@.subrange(0, tags@.len() as int) =~= tags@);
    out
}


proof fn lemma_still_open_from(w: Seq<WindowEntry>, width: int, now: int)
    ensures
        forall|k: int| 0 <= k < still_open(w, width, now).len() ==> exists|j: int| 0 <= j < w.len() && #[trigger] still_open(w, width, now)[k] == w[j],
    decreases w.len(),
{
    if w.len() > 0 {
        let pre = w.drop_last();
        lemma_still_open_from(pre, width, now);
        let so = still_open(w, width, now);
        let sp = still_open(pre, width, now);
        assert forall|k: int| 0 <= k < so.len() implies exists|j: int| 0 <= j < w.len() && #[trigger] so[k] == w[j] by {
            if k < sp.len() {
                assert(so[k] == sp[k]);
                let j = choose|j: int| 0 <= j < pre.len() && #[trigger] sp[k] == pre[j];
                assert(w[j] == pre[j]);
            } else {
                assert(so[k] == w[w.len() - 1]);
            }
        }
    }
}

/// Closing windows keeps every tag's window single.
pub proof fn law_still_open_tags_unique(w: Seq<WindowEntry>, width: int, now: int)
    requires
        tags_unique(w),
    ensures
        tags_unique(still_open(w, width, now)),
    decreases w.len(),
{
    if w.len() > 0 {
        let pre = w.drop_last();
        assert(tags_unique(pre));
        law_still_open_tags_unique(pre, width, now);
        lemma_still_open_from(pre, width, now);
        let sp = still_open(pre, width, now);
        if !expired(w.last(), width, now) {
            let so = sp.push(w.last());
            assert forall|a: int, b: int| 0 <= a < b < so.len() implies so[a].1.tag != so[b].1.tag by {
                if b == sp.len() {
                    let j = choose|j: int| 0 <= j < pre.len() && #[trigger] sp[a] == pre[j];
                    assert(so[a] == w[j]);
                } else {
                    assert(so[a] == sp[a] && so[b] == sp[b]);
                }
            }
        }
    }
}

/// Every window still open at `now` runs at least a second past its width;
/// every sighting handed out at `now` came from a window that did not.
pub proof fn law_closing_splits_by_time(w: Seq<WindowEntry>, width: int, now: int)
    ensures
        forall|k: int| 0 <= k < still_open(w, width, now).len() ==> !expired(#[trigger] still_open(w, width, now)[k], width, now),
        still_open(w, width, now).len() + closed_out(w, width, now).len() == w.len(),
    decreases w.len(),
{
    if w.len() > 0 {
        law_closing_splits_by_time(w.drop_last(), width, now);
        let so = still_open(w, width, now);
        let sp = still_open(w.drop_last(), width, now);
        assert forall|k: int| 0 <= k < so.len() implies !expired(#[trigger] so[k], width, now) by {
            if k < sp.len() {
                assert(so[k] == sp[k]);
            }
        }
    }
}

/// The read a kept sighting becomes: the chip as a decimal or hexadecimal
/// numeral, whole seconds and milliseconds of the portal's and the reader's
/// clocks, the antenna, the reader's name and the signal, unused and not
/// uploaded.
pub open spec fn tag_read_view(t: TagData, dec: bool, reader: Seq<char>) -> ReadView {
    new_read_view(
        0,
        if dec { numeral(t.tag as nat, 10) } else { numeral(t.tag as nat, 16) },
        (t.portal_time / 1000000) as u64,
        ((t.portal_time / 1000) % 1000) as u32,
        (t.reader_time / 1000000) as u64,
        ((t.reader_time / 1000) % 1000) as u32,
        t.antenna as u32,
        reader,
        signed_decimal(t.rssi as int),
        0,
        0,
    )
}

/// The reads the sightings become.
pub open spec fn tag_reads(tags: Seq<TagData>, dec: bool, reader: Seq<char>) -> Seq<ReadView> {
    tags.map_values(|t: TagData| tag_read_view(t, dec, reader))
}

/// Turns a kept sighting into a read.
pub fn tag_to_read(t: &TagData, dec: bool, r_name: &str) -> (r: Read)
    ensures
        r@ == tag_read_view(*t, dec, r_name@),
{
    let chip = if dec { decimal(t.tag) } else { hexadecimal(t.tag) };
    Read::new(
        0,
        chip,
        (t.portal_time / 1000000) as u64,
        ((t.portal_time / 1000) % 1000) as u32,
        (t.reader_time / 1000000) as u64,
        ((t.reader_time / 1000) % 1000) as u32,
        t.antenna as u32,
        String::from_str(r_name),
        signed_byte_decimal(t.rssi),
        READ_STATUS_UNUSED,
        READ_UPLOADED_FALSE,
    )
}

/// Turns kept sightings into reads, in order.
fn to_reads(tags: &Vec<TagData>, dec: bool, r_name: &str) -> (r: Vec<Read>)
    ensures
        read_views(r@) == tag_reads(tags@, dec, r_name@),
{
    let mut out: Vec<Read> = Vec::new();
    let mut i: usize = 0;
    while i < tags.len()
        invariant
            i <= tags@.len(),
            out@.len() == i,
            forall|j: int| 0 <= j < i ==> (#[trigger] out@[j])@ == tag_read_view(tags@[j], dec, r_name@),
        decreases tags.len() - i,
    {
        out.push(tag_to_read(&tags[i], dec, r_name));
        i = i + 1;
    }
    assert(read_views(out@) =~= tag_reads(tags@, dec, r_name@));
    out
}

/// The window width for a read window given in tenths of a second, in microseconds.
pub open spec fn window_width(read_window: u8) -> int {
    read_window * 100000
}

/// What a batch of sightings does at `now`: they meet the windows in time
/// order; then windows run a second past their width close. The result is
/// the windows left open and the sightings handed out, first those a later
/// sighting pushed out, then those whose windows closed.
pub open spec fn tags_outcome(w: Seq<WindowEntry>, tags: Seq<TagData>, width: int, now: int) -> (Seq<WindowEntry>, Seq<TagData>) {
    let (w1, out1) = window_fold(w, sort_by_time(tags), width);
    (still_open(w1, width, now), out1 + closed_out(w1, width, now))
}

impl ReadWindow {
    /// No tag has two open windows.
    pub closed spec fn wf(&self) -> bool {
        tags_unique(self@)
    }

    /// Meets the sightings with the windows in order, handing out what they push out.
    fn meet_all(&mut self, tags: &Vec<TagData>, width: u128) -> (r: Vec<TagData>)
        requires
            tags_unique(old(self)@),
        ensures
            (final(self)@, r@) == window_fold(old(self)@, tags@, width as int),
            tags_unique(final(self)@),
    {
        let mut out: Vec<TagData> = Vec::new();
        let mut i: usize = 0;
        while i < tags.len()
            invariant
                i <= tags@.len(),
                tags_unique(self@),
                (self@, out@) == window_fold(old(self)@, tags@.subrange(0, i as int), width as int),
            decreases tags.len() - i,
        {
            proof {
                assert(tags@.subrange(0, i + 1).drop_last() =~= tags@.subrange(0, i as int));
                assert(tags@.subrange(0, i + 1).last() == tags@[i as int]);
            }
            match self.step(tags[i], width) {
                Some(k) => out.push(k),
                None => {},
            }
            i = i + 1;
        }
        assert(tags@.subrange(0, tags@.len() as int) =~= tags@);
        out
    }

    /// Closes the windows run a second past their width before `now`, and
    /// hands out what they kept.
    fn close_expired(&mut self, width: u128, now: u128) -> (r: Vec<TagData>)
        requires
            tags_unique(old(self)@),
            width <= 1000000000,
        ensures
            final(self)@ == still_open(old(self)@, width as int, now as int),
            r@ == closed_out(old(self)@, width as int, now as int),
            tags_unique(final(self)@),
    {
        let ghost w = self@;
        let mut kept: Vec<WindowEntry> = Vec::new();
        let mut out: Vec<TagData> = Vec::new();
        let mut i: usize = 0;
        while i < self.entries.len()
            invariant
                i <= self.entries@.len(),
                w == self@,
                width <= 1000000000,
                kept@ == still_open(w.subrange(0, i as int), width as int, now as int),
                out@ == closed_out(w.subrange(0, i as int), width as int, now as int),
            decreases self.entries.len() - i,
        {
            proof {
                assert(w.subrange(0, i + 1).drop_last() =~= w.subrange(0, i as int));
                assert(w.subrange(0, i + 1).last() == w[i as int]);
            }
            let e = self.entries[i];
            if past(e.0, width, now) {
                out.push(e.1);
            } else {
                kept.push(e);
            }
            i = i + 1;
        }
        assert(w.subrange(0, w.len() as int) =~= w);
        proof {
            law_still_open_tags_unique(w, width as int, now as int);
        }
        self.entries = kept;
        out
    }

    /// The reads every open window would give if it closed now.
    pub fn window_reads(&self, chip_type: &str, r_name: &str) -> (r: Vec<Read>)
        ensures
            read_views(r@) == tag_reads(self@.map_values(|e: WindowEntry| e.1), chip_type@ == TYPE_CHIP_DEC@, r_name@),
    {
        let dec = str_equal(chip_type, TYPE_CHIP_DEC);
        let mut kept: Vec<TagData> = Vec::new();
        let mut i: usize = 0;
        while i < self.entries.len()
            invariant
                i <= self.entries@.len(),
                kept@.len() == i,
                forall|j: int| 0 <= j < i ==> #[trigger] kept@[j] == self.entries@[j].1,
            decreases self.entries.len() - i,
        {
            kept.push(self.entries[i].1);
            i = i + 1;
        }
        assert(kept@ =~= self@.map_values(|e: WindowEntry| e.1));
        to_reads(&kept, dec, r_name)
    }
}

/// Meets a batch of sightings with the read windows at `now` (microseconds
/// since the epoch): sorts the sightings by time, in place; turns what the
/// windows hand out into reads, chip numbers decimal when the chip type is
/// decimal and hexadecimal otherwise; queues those reads for saving; and
/// gives them back.
pub fn process_tags_at(
    window: &mut ReadWindow,
    tags: &mut Vec<TagData>,
    read_window: u8,
    chip_type: &str,
    read_saver: &mut ReadSaver,
    r_name: &str,
    now: u64,
) -> (r: Vec<Read>)
    requires
        old(window).wf(),
    ensures
        final(window).wf(),
        final(tags)@ == sort_by_time(old(tags)@),
        final(window)@ == tags_outcome(old(window)@, old(tags)@, window_width(read_window), now as int).0,
        read_views(r@) == tag_reads(
            tags_outcome(old(window)@, old(tags)@, window_width(read_window), now as int).1,
            chip_type@ == TYPE_CHIP_DEC@,
            r_name@,
        ),
        r@.len() > 0 ==> final(read_saver)@.pending == old(read_saver)@.pending + read_views(r@)
            && final(read_saver)@.notified,
        r@.len() == 0 ==> final(read_saver)@ == old(read_saver)@,
        final(read_saver)@.running == old(read_saver)@.running,
{
    let width: u128 = (read_window as u128) * 100000;
    let sorted = sort_tags(tags);
    let dec = str_equal(chip_type, TYPE_CHIP_DEC);
    let mut handed = window.meet_all(&sorted, width);
    let mut closed = window.close_expired(width, now as u128);
    let ghost first = handed@;
    let ghost second = closed@;
    handed.append(&mut closed);
    assert(handed@ == first + second);
    let reads = to_reads(&handed, dec, r_name);
    if reads.len() > 0 {
        let _ = read_saver.save_reads(&reads);
    }
    *tags = sorted;
    reads
}

/// Meets a batch of sightings with the read windows, at the time the clock
/// tells. Fails, changing nothing, when the clock reads before the epoch.
pub fn process_tags(
    window: &mut ReadWindow,
    tags: &mut Vec<TagData>,
    read_window: u8,
    chip_type: &str,
    read_saver: &mut ReadSaver,
    r_name: &str,
) -> (r: Result<Vec<Read>, &'static str>)
    requires
        old(window).wf(),
    ensures
        final(window).wf(),
        r is Err ==> final(window)@ == old(window)@ && final(tags)@ == old(tags)@ && final(read_saver)@ == old(read_saver)@,
        r matches Err(e) ==> e@ == "something went wrong trying to get current time"@,
        r matches Ok(reads) ==> exists|now: u64| {
            &&& final(window)@ == tags_outcome(old(window)@, old(tags)@, window_width(read_window), now as int).0
            &&& read_views(reads@) == tag_reads(
                tags_outcome(old(window)@, old(tags)@, window_width(read_window), now as int).1,
                chip_type@ == TYPE_CHIP_DEC@,
                r_name@,
            )
        },
        r is Ok ==> final(tags)@ == sort_by_time(old(tags)@),
        r matches Ok(reads) ==> (reads@.len() > 0 ==> final(read_saver)@.pending == old(
            read_saver,
        )@.pending + read_views(reads@)) && (reads@.len() == 0 ==> final(read_saver)@ == old(
            read_saver,
        )@),
{
    match now_micros() {
        None => Err("something went wrong trying to get current time"),
        Some(micros) => {
            let now = micros as u64;
            Ok(process_tags_at(window, tags, read_window, chip_type, read_saver, r_name, now))
        },
    }
}

} // verus!
