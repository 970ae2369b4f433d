//! An in-memory store of settings and chip reads, with the rules of the
//! portal's database: one value per setting name, and one read per chip and
//! time.
use vstd::prelude::*;
use vstd::string::StringExecFns;
use crate::database::DBError;
use crate::objects::read::{Read, ReadView, READ_UPLOADED_FALSE, READ_STATUS_TOO_SOON, READ_STATUS_UNUSED};
use crate::objects::setting::Setting;
use crate::objects::participant::{Participant, ParticipantView};
use crate::objects::bibchip::BibChip;
use crate::reader::{Reader, ReaderView};
use crate::network::api::{Api, ApiView};
use crate::control::socket::api_views;
use crate::processor::read_views;
use crate::text::{str_equal, decimal, numeral};
use crate::control::{
    SETTING_PORTAL_NAME, SETTING_CHIP_TYPE, SETTING_READ_WINDOW, SETTING_PLAY_SOUND, SETTING_VOLUME,
    SETTING_AUTO_REMOTE, SETTING_UPLOAD_INTERVAL, SETTING_NTFY_URL, SETTING_NTFY_USER,
    SETTING_NTFY_PASS, SETTING_NTFY_TOPIC, SETTING_ENABLE_NTFY, SETTING_VOICE, SETTING_SCREEN_TYPE,
};
use crate::defaults::{DEFAULT_CHIP_TYPE, DEFAULT_VOICE, DEFAULT_SCREEN_TYPE};

pub mod rows;
pub mod people;
pub mod sightings;

use rows::{
    reader_views, readers_wf, apis_wf, readers_after_save, apis_after_save, has_reader_id, has_api_id,
    reader_id_not, api_id_not, api_kind_ok, save_reader_row, get_reader_row, copy_reader_rows,
    delete_reader_row, save_api_row, copy_api_rows, delete_api_row,
};
use crate::reader::{READER_KIND_ZEBRA, READER_KIND_IMPINJ, READER_KIND_RFID};
use sightings::{
    sightings_ok, sightings_refer, sightings_after_save, sighting_pairs, sightings_joined, sighting_views, read_kept,
    participant_kept, seen_in, keep_sightings, save_sighting_rows, join_sightings, lemma_filter_no_duplicates, lemma_read_kept_ok, lemma_participant_kept_ok, lemma_same_ids_ok,
};
use crate::objects::sighting::Sighting;
use people::{
    participant_views, bibchip_views, participants_wf, bibchips_ok, participants_after_add, participant_bib_not,
    bibchips_after_add, bibchip_bib_not, add_participant_rows, copy_participant_rows, delete_participant_rows,
    add_bibchip_rows, delete_bibchip_rows, copy_bibchip_rows,
};

verus! {

/// The (name, value) pairs of a list of settings.
pub open spec fn setting_pairs(v: Seq<Setting>) -> Seq<(Seq<char>, Seq<char>)> {
    v.map_values(|s: Setting| s@)
}

/// Entry `i` of `s` has the name `n`.
pub open spec fn names_at(s: Seq<(Seq<char>, Seq<char>)>, i: int, n: Seq<char>) -> bool {
    0 <= i < s.len() && s[i].0 == n
}

/// Some entry of `s` has the name `n`.
pub open spec fn named(s: Seq<(Seq<char>, Seq<char>)>, n: Seq<char>) -> bool {
    exists|i: int| #[trigger] names_at(s, i, n)
}

/// No two entries share a name.
pub open spec fn names_unique(s: Seq<(Seq<char>, Seq<char>)>) -> bool {
    forall|i: int, j: int| 0 <= i < j < s.len() ==> s[i].0 != s[j].0
}

/// The settings as a map from name to value.
pub open spec fn settings_map(s: Seq<(Seq<char>, Seq<char>)>) -> Map<Seq<char>, Seq<char>> {
    Map::new(
        |n: Seq<char>| named(s, n),
        |n: Seq<char>| s[choose|i: int| #[trigger] names_at(s, i, n)].1,
    )
}

/// Two reads are of the same chip at the same time.
pub open spec fn same_key(a: ReadView, b: ReadView) -> bool {
    &&& a.identifier == b.identifier
    &&& a.seconds == b.seconds
    &&& a.milliseconds == b.milliseconds
}

/// Some read of `s` is of the chip and time of `r`.
pub open spec fn holds_key(s: Seq<ReadView>, r: ReadView) -> bool {
    exists|i: int| 0 <= i < s.len() && same_key(#[trigger] s[i], r)
}

/// No two reads of `s` are of the same chip at the same time.
pub open spec fn keys_unique(s: Seq<ReadView>) -> bool {
    forall|i: int, j: int| 0 <= i < j < s.len() ==> !same_key(#[trigger] s[i], #[trigger] s[j])
}

/// No two reads of `s` share an id.
pub open spec fn ids_unique(s: Seq<ReadView>) -> bool {
    forall|i: int, j: int| 0 <= i < j < s.len() ==> (#[trigger] s[i]).id != (#[trigger] s[j]).id
}

/// A read status the store accepts: unused, used or too soon.
pub open spec fn valid_status(st: u8) -> bool {
    st == 0 || st == 1 || st == 2
}

/// The stored reads after saving `incoming` in order: a read whose chip and
/// time are already held is skipped; any other is added with the next id.
pub open spec fn store_reads(stored: Seq<ReadView>, next: int, incoming: Seq<ReadView>) -> Seq<ReadView>
    decreases incoming.len(),
{
    if incoming.len() == 0 {
        stored
    } else {
        let before = store_reads(stored, next, incoming.drop_last());
        let r = incoming.last();
        if holds_key(before, r) {
            before
        } else {
            before.push(ReadView { id: (next + before.len() - stored.len()) as u64, ..r })
        }
    }
}

/// A read's seconds lie in `start..=end`.
pub open spec fn in_window(r: ReadView, start: i64, end: i64) -> bool {
    start <= r.seconds && r.seconds <= end
}

/// The test for reads inside `start..=end`.
pub open spec fn inside_span(start: i64, end: i64) -> spec_fn(ReadView) -> bool {
    |x: ReadView| in_window(x, start, end)
}

/// The test for reads outside `start..=end`.
pub open spec fn outside_span(start: i64, end: i64) -> spec_fn(ReadView) -> bool {
    |x: ReadView| !in_window(x, start, end)
}

/// The test for reads not yet uploaded.
pub open spec fn not_uploaded() -> spec_fn(ReadView) -> bool {
    |x: ReadView| x.uploaded == READ_UPLOADED_FALSE
}

/// The test for reads that were not too soon after an earlier one.
pub open spec fn useful() -> spec_fn(ReadView) -> bool {
    |x: ReadView| x.status != READ_STATUS_TOO_SOON
}

/// The reads, each marked as not uploaded.
pub open spec fn upload_reset(s: Seq<ReadView>) -> Seq<ReadView> {
    s.map_values(|x: ReadView| ReadView { uploaded: READ_UPLOADED_FALSE, ..x })
}

/// The reads, each marked as unused.
pub open spec fn status_reset(s: Seq<ReadView>) -> Seq<ReadView> {
    s.map_values(|x: ReadView| ReadView { status: READ_STATUS_UNUSED, ..x })
}

/// The reads after the one with the id of `u` takes its status and upload mark.
pub open spec fn status_updated(s: Seq<ReadView>, u: ReadView) -> Seq<ReadView> {
    s.map_values(|x: ReadView| if x.id == u.id { ReadView { status: u.status, uploaded: u.uploaded, ..x } } else { x })
}

/// The reads after each of `us`, in order, is applied by `status_updated`.
pub open spec fn statuses_updated(s: Seq<ReadView>, us: Seq<ReadView>) -> Seq<ReadView>
    decreases us.len(),
{
    if us.len() == 0 { s } else { status_updated(statuses_updated(s, us.drop_last()), us.last()) }
}

/// Two lists of reads that agree, read by read, on id, chip and time.
pub open spec fn same_keys(a: Seq<ReadView>, b: Seq<ReadView>) -> bool {
    a.len() == b.len() && forall|i: int| 0 <= i < a.len() ==> (#[trigger] a[i]).id == b[i].id && same_key(a[i], b[i])
}

proof fn lemma_statuses_keep_keys(s: Seq<ReadView>, us: Seq<ReadView>)
    ensures
        same_keys(s, statuses_updated(s, us)),
    decreases us.len(),
{
    if us.len() > 0 {
        lemma_statuses_keep_keys(s, us.drop_last());
    }
}

/// Saving keeps what was stored, in place, and only ever adds at the end.
proof fn lemma_store_reads_prefix(stored: Seq<ReadView>, next: int, incoming: Seq<ReadView>)
    ensures
        store_reads(stored, next, incoming).len() >= stored.len(),
        store_reads(stored, next, incoming).subrange(0, stored.len() as int) == stored,
    decreases incoming.len(),
{
    if incoming.len() > 0 {
        lemma_store_reads_prefix(stored, next, incoming.drop_last());
        let before = store_reads(stored, next, incoming.drop_last());
        assert(before.push(incoming.last()).subrange(0, stored.len() as int) =~= before.subrange(0, stored.len() as int));
        let r = incoming.last();
        let x = ReadView { id: (next + before.len() - stored.len()) as u64, ..r };
        assert(before.push(x).subrange(0, stored.len() as int) =~= before.subrange(0, stored.len() as int));
    }
}

/// A key held before saving is held after.
proof fn lemma_holds_key_kept(stored: Seq<ReadView>, next: int, incoming: Seq<ReadView>, x: ReadView)
    requires
        holds_key(stored, x),
    ensures
        holds_key(store_reads(stored, next, incoming), x),
{
    lemma_store_reads_prefix(stored, next, incoming);
    let after = store_reads(stored, next, incoming);
    let i = choose|i: int| 0 <= i < stored.len() && same_key(#[trigger] stored[i], x);
    assert(after.subrange(0, stored.len() as int)[i] == after[i]);
    assert(same_key(after[i], x));
}

/// After saving, the key of every incoming read is held.
proof fn lemma_store_reads_holds_all(stored: Seq<ReadView>, next: int, incoming: Seq<ReadView>)
    ensures
        forall|k: int| 0 <= k < incoming.len() ==> holds_key(store_reads(stored, next, incoming), #[trigger] incoming[k]),
    decreases incoming.len(),
{
    if incoming.len() > 0 {
        let pre = incoming.drop_last();
        lemma_store_reads_holds_all(stored, next, pre);
        let before = store_reads(stored, next, pre);
        let after = store_reads(stored, next, incoming);
        let r = incoming.last();
        assert forall|k: int| 0 <= k < incoming.len() implies holds_key(after, #[trigger] incoming[k]) by {
            if k < incoming.len() - 1 {
                assert(incoming[k] == pre[k]);
                assert(holds_key(before, pre[k]));
                let j = choose|j: int| 0 <= j < before.len() && same_key(#[trigger] before[j], pre[k]);
                if !holds_key(before, r) {
                    assert(after[j] == before[j]);
                }
            } else {
                if !holds_key(before, r) {
                    assert(same_key(after[before.len() as int], r));
                }
            }
        }
    }
}

/// Saving reads whose keys are all held changes nothing.
proof fn lemma_store_reads_all_held(stored: Seq<ReadView>, next: int, incoming: Seq<ReadView>)
    requires
        forall|k: int| 0 <= k < incoming.len() ==> holds_key(stored, #[trigger] incoming[k]),
    ensures
        store_reads(stored, next, incoming) == stored,
    decreases incoming.len(),
{
    if incoming.len() > 0 {
        let pre = incoming.drop_last();
        assert forall|k: int| 0 <= k < pre.len() implies holds_key(stored, #[trigger] pre[k]) by {
            assert(pre[k] == incoming[k]);
        }
        lemma_store_reads_all_held(stored, next, pre);
        assert(holds_key(stored, incoming[incoming.len() - 1]));
    }
}

/// Saving the same reads a second time adds nothing: the store keeps one read
/// per chip and time, whatever id the second save would hand out.
pub proof fn law_save_reads_idempotent(stored: Seq<ReadView>, next: int, incoming: Seq<ReadView>, next2: int)
    ensures
        store_reads(store_reads(stored, next, incoming), next2, incoming) == store_reads(stored, next, incoming),
{
    lemma_store_reads_holds_all(stored, next, incoming);
    lemma_store_reads_all_held(store_reads(stored, next, incoming), next2, incoming);
}

/// A read that saving leaves in the store is of the chip and time of a read
/// that was stored before or of one that was saved.
proof fn lemma_store_reads_sources(stored: Seq<ReadView>, next: int, incoming: Seq<ReadView>, x: ReadView)
    ensures
        holds_key(store_reads(stored, next, incoming), x) ==> holds_key(stored, x) || holds_key(incoming, x),
    decreases incoming.len(),
{
    if incoming.len() > 0 {
        let pre = incoming.drop_last();
        lemma_store_reads_sources(stored, next, pre, x);
        let before = store_reads(stored, next, pre);
        let after = store_reads(stored, next, incoming);
        let r = incoming.last();
        if holds_key(pre, x) {
            let k = choose|k: int| 0 <= k < pre.len() && same_key(#[trigger] pre[k], x);
            assert(incoming[k] == pre[k]);
        }
        if holds_key(after, x) && !holds_key(before, x) {
            let j = choose|j: int| 0 <= j < after.len() && same_key(#[trigger] after[j], x);
            assert(!holds_key(before, r) && after == before.push(ReadView { id: (next + before.len() - stored.len()) as u64, ..r }));
            if j < before.len() {
                assert(after[j] == before[j]);
            } else {
                assert(same_key(incoming[incoming.len() - 1], x));
            }
        }
    }
}

/// Saving reads that are of pairwise different chips or times (chip,
/// seconds and milliseconds), none of whose chip and time is stored yet,
/// stores every one of them: reads that differ only in milliseconds are two reads.
pub proof fn law_distinct_reads_all_stored(stored: Seq<ReadView>, next: int, incoming: Seq<ReadView>)
    requires
        forall|i: int, j: int| 0 <= i < j < incoming.len() ==> !(#[trigger] incoming[i].identifier == #[trigger] incoming[j].identifier
            && incoming[i].seconds == incoming[j].seconds && incoming[i].milliseconds == incoming[j].milliseconds),
        forall|i: int, k: int| 0 <= i < stored.len() && 0 <= k < incoming.len() ==> !(#[trigger] stored[i].identifier
            == #[trigger] incoming[k].identifier && stored[i].seconds == incoming[k].seconds
            && stored[i].milliseconds == incoming[k].milliseconds),
    ensures
        store_reads(stored, next, incoming).len() == stored.len() + incoming.len(),
    decreases incoming.len(),
{
    if incoming.len() > 0 {
        let pre = incoming.drop_last();
        let r = incoming.last();
        assert forall|i: int, j: int| 0 <= i < j < pre.len() implies !(#[trigger] pre[i].identifier == #[trigger] pre[j].identifier
            && pre[i].seconds == pre[j].seconds && pre[i].milliseconds == pre[j].milliseconds) by {
            assert(pre[i] == incoming[i] && pre[j] == incoming[j]);
        }
        assert forall|i: int, k: int| 0 <= i < stored.len() && 0 <= k < pre.len() implies !(#[trigger] stored[i].identifier
            == #[trigger] pre[k].identifier && stored[i].seconds == pre[k].seconds
            && stored[i].milliseconds == pre[k].milliseconds) by {
            assert(pre[k] == incoming[k]);
        }
        law_distinct_reads_all_stored(stored, next, pre);
        lemma_store_reads_sources(stored, next, pre, r);
        let before = store_reads(stored, next, pre);
        if holds_key(stored, r) {
            let i = choose|i: int| 0 <= i < stored.len() && same_key(#[trigger] stored[i], r);
            assert(incoming[incoming.len() - 1] == r);
            assert(false);
        }
        if holds_key(pre, r) {
            let k = choose|k: int| 0 <= k < pre.len() && same_key(#[trigger] pre[k], r);
            assert(pre[k] == incoming[k]);
            assert(incoming[incoming.len() - 1] == r);
            assert(false);
        }
        assert(!holds_key(before, r));
    }
}

/// Saving never stores two reads of the same chip at the same time.
pub proof fn law_save_reads_keys_unique(stored: Seq<ReadView>, next: int, incoming: Seq<ReadView>)
    requires
        keys_unique(stored),
    ensures
        keys_unique(store_reads(stored, next, incoming)),
    decreases incoming.len(),
{
    if incoming.len() > 0 {
        let pre = incoming.drop_last();
        law_save_reads_keys_unique(stored, next, pre);
        let before = store_reads(stored, next, pre);
        let r = incoming.last();
        if !holds_key(before, r) {
            let x = ReadView { id: (next + before.len() - stored.len()) as u64, ..r };
            let after = before.push(x);
            assert forall|i: int, j: int| 0 <= i < j < after.len() implies !same_key(
                #[trigger] after[i],
                #[trigger] after[j],
            ) by {
                if j == before.len() {
                    assert(after[i] == before[i]);
                    if same_key(before[i], r) {
                        assert(holds_key(before, r));
                    }
                } else {
                    assert(after[i] == before[i] && after[j] == before[j]);
                }
            }
        }
    }
}


/// `rand::random::<u8>()`: a byte from the thread's random generator.
/// Nothing is claimed of its value.
#[verifier::external_body]
pub(crate) fn random_byte() -> (r: u8) {
    rand::random::<u8>()
}

/// The settings with `name` given the value `value` if it has none.
pub open spec fn fill_setting(m: Map<Seq<char>, Seq<char>>, name: Seq<char>, value: Seq<char>) -> Map<Seq<char>, Seq<char>> {
    if m.contains_key(name) { m } else { m.insert(name, value) }
}

/// The settings after the defaults are filled in where a setting has no
/// value; a portal without a name is called "Chrono Portal" and a number.
pub open spec fn with_defaults(m: Map<Seq<char>, Seq<char>>, suffix: u8) -> Map<Seq<char>, Seq<char>> {
    let m1 = fill_setting(m, SETTING_PORTAL_NAME@, "Chrono Portal "@ + numeral(suffix as nat, 10));
    let m2 = fill_setting(m1, SETTING_CHIP_TYPE@, DEFAULT_CHIP_TYPE@);
    let m3 = fill_setting(m2, SETTING_READ_WINDOW@, "20"@);
    let m4 = fill_setting(m3, SETTING_PLAY_SOUND@, "true"@);
    let m5 = fill_setting(m4, SETTING_VOLUME@, "1"@);
    let m6 = fill_setting(m5, SETTING_VOICE@, DEFAULT_VOICE@);
    let m7 = fill_setting(m6, SETTING_AUTO_REMOTE@, "false"@);
    let m8 = fill_setting(m7, SETTING_UPLOAD_INTERVAL@, "5"@);
    let m9 = fill_setting(m8, SETTING_NTFY_URL@, ""@);
    let m10 = fill_setting(m9, SETTING_NTFY_USER@, ""@);
    let m11 = fill_setting(m10, SETTING_NTFY_PASS@, ""@);
    let m12 = fill_setting(m11, SETTING_NTFY_TOPIC@, ""@);
    let m13 = fill_setting(m12, SETTING_ENABLE_NTFY@, "false"@);
    fill_setting(m13, SETTING_SCREEN_TYPE@, DEFAULT_SCREEN_TYPE@)
}

/// A setting reads back what was last written to it, and writing one setting
/// leaves the others as they were.
pub proof fn law_setting_reads_back(m: Map<Seq<char>, Seq<char>>, name: Seq<char>, value: Seq<char>, other: Seq<char>)
    requires
        other != name,
    ensures
        m.insert(name, value).contains_key(name),
        m.insert(name, value)[name] == value,
        m.insert(name, value).contains_key(other) == m.contains_key(other),
        m.contains_key(other) ==> m.insert(name, value)[other] == m[other],
{
}

/// After the reads of a time span are deleted, asking for that span gives nothing.
pub proof fn law_deleted_span_reads_empty(s: Seq<ReadView>, start: i64, end: i64)
    ensures
        s.filter(outside_span(start, end)).filter(inside_span(start, end)).len() == 0,
    decreases s.len(),
{
    reveal(Seq::filter);
    if s.len() > 0 {
        let pre = s.drop_last();
        law_deleted_span_reads_empty(pre, start, end);
        let f = s.filter(outside_span(start, end));
        let fp = pre.filter(outside_span(start, end));
        if outside_span(start, end)(s.last()) {
            assert(f == fp.push(s.last()));
            assert(f.drop_last() =~= fp);
        } else {
            assert(f == fp);
        }
    }
}

/// In every state of the store, each sighting names a stored read and a
/// stored participant, and no pair is kept twice.
pub proof fn law_sightings_refer_to_stored_rows(store: &MemStore)
    requires
        store.wf(),
    ensures
        sightings_ok(store@.sightings, store@.reads, store@.participants),
{
}

pub struct MemStore {
    settings: Vec<Setting>,
    reads: Vec<Read>,
    next_id: u64,
    readers: Vec<Reader>,
    last_reader_id: i64,
    apis: Vec<Api>,
    last_api_id: i64,
    participants: Vec<Participant>,
    last_participant_id: u64,
    bibchips: Vec<BibChip>,
    sightings: Vec<(u64, u64)>,
}

pub struct MemStoreView {
    pub settings: Map<Seq<char>, Seq<char>>,
    pub reads: Seq<ReadView>,
    pub next_id: u64,
    pub readers: Seq<ReaderView>,
    pub last_reader_id: i64,
    pub apis: Seq<ApiView>,
    pub last_api_id: i64,
    pub participants: Seq<ParticipantView>,
    pub last_participant_id: u64,
    pub bibchips: Seq<(Seq<char>, Seq<char>)>,
    pub sightings: Seq<(u64, u64)>,
}

/// The sightings of two states of the store are the same.
pub open spec fn same_sightings(a: MemStoreView, b: MemStoreView) -> bool {
    a.sightings == b.sightings
}

/// The participants and bib links of two states of the store are the same.
pub open spec fn same_people(a: MemStoreView, b: MemStoreView) -> bool {
    &&& a.participants == b.participants
    &&& a.last_participant_id == b.last_participant_id
    &&& a.bibchips == b.bibchips
}

/// The readers, services, participants and bib links of two states of the
/// store are the same.
pub open spec fn same_rows(a: MemStoreView, b: MemStoreView) -> bool {
    &&& a.readers == b.readers
    &&& a.last_reader_id == b.last_reader_id
    &&& a.apis == b.apis
    &&& a.last_api_id == b.last_api_id
    &&& same_people(a, b)
}

impl View for MemStore {
    type V = MemStoreView;

    closed spec fn view(&self) -> MemStoreView {
        MemStoreView {
            settings: settings_map(setting_pairs(self.settings@)),
            reads: read_views(self.reads@),
            next_id: self.next_id,
            readers: reader_views(self.readers@),
            last_reader_id: self.last_reader_id,
            apis: api_views(self.apis@),
            last_api_id: self.last_api_id,
            participants: participant_views(self.participants@),
            last_participant_id: self.last_participant_id,
            bibchips: bibchip_views(self.bibchips@),
            sightings: self.sightings@,
        }
    }
}

proof fn lemma_settings_update(s: Seq<(Seq<char>, Seq<char>)>, i: int, name: Seq<char>, v: Seq<char>)
    requires
        names_unique(s),
        0 <= i < s.len(),
        s[i].0 == name,
    ensures
        names_unique(s.update(i, (name, v))),
        settings_map(s.update(i, (name, v))) =~= settings_map(s).insert(name, v),
{
    let t = s.update(i, (name, v));
    assert(names_at(t, i, name));
    assert forall|n: Seq<char>| #[trigger] named(t, n) == named(s, n) by {
        if exists|j: int| #[trigger] names_at(t, j, n) {
            let j = choose|j: int| #[trigger] names_at(t, j, n);
            assert(names_at(s, j, n));
        }
        if exists|j: int| #[trigger] names_at(s, j, n) {
            let j = choose|j: int| #[trigger] names_at(s, j, n);
            assert(names_at(t, j, n));
        }
    }
    assert forall|n: Seq<char>| #[trigger] settings_map(t).contains_key(n) implies settings_map(t)[n]
        == settings_map(s).insert(name, v)[n] by {
        let j = choose|j: int| #[trigger] names_at(t, j, n);
        if n == name {
            assert(j == i);
        } else {
            let k = choose|k: int| #[trigger] names_at(s, k, n);
            assert(names_at(s, j, n));
            assert(j == k);
        }
    }
}

proof fn lemma_settings_push(s: Seq<(Seq<char>, Seq<char>)>, name: Seq<char>, v: Seq<char>)
    requires
        names_unique(s),
        forall|j: int| 0 <= j < s.len() ==> s[j].0 != name,
    ensures
        names_unique(s.push((name, v))),
        settings_map(s.push((name, v))) =~= settings_map(s).insert(name, v),
{
    let t = s.push((name, v));
    let i = s.len() as int;
    assert(names_at(t, i, name));
    assert forall|n: Seq<char>| n != name implies #[trigger] named(t, n) == named(s, n) by {
        if exists|j: int| #[trigger] names_at(t, j, n) {
            let j = choose|j: int| #[trigger] names_at(t, j, n);
            assert(names_at(s, j, n));
        }
        if exists|j: int| #[trigger] names_at(s, j, n) {
            let j = choose|j: int| #[trigger] names_at(s, j, n);
            assert(names_at(t, j, n));
        }
    }
    assert forall|n: Seq<char>| #[trigger] settings_map(t).contains_key(n) implies settings_map(t)[n]
        == settings_map(s).insert(name, v)[n] by {
        let j = choose|j: int| #[trigger] names_at(t, j, n);
        if n == name {
            assert(j == i);
        } else {
            let k = choose|k: int| #[trigger] names_at(s, k, n);
            assert(names_at(s, j, n));
            assert(j == k);
        }
    }
}

impl MemStore {
    /// The store keeps one value per setting name, one read per chip and
    /// time, and ids below the next one it hands out.
    pub closed spec fn wf(&self) -> bool {
        &&& names_unique(setting_pairs(self.settings@))
        &&& keys_unique(read_views(self.reads@))
        &&& ids_unique(read_views(self.reads@))
        &&& forall|i: int| 0 <= i < self.reads@.len() ==> (#[trigger] self.reads@[i])@.id < self.next_id
        &&& readers_wf(reader_views(self.readers@), self.last_reader_id)
        &&& apis_wf(api_views(self.apis@), self.last_api_id)
        &&& participants_wf(participant_views(self.participants@), self.last_participant_id)
        &&& bibchips_ok(bibchip_views(self.bibchips@))
        &&& sightings_ok(self.sightings@, read_views(self.reads@), participant_views(self.participants@))
    }

    pub fn new() -> (r: MemStore)
        ensures
            r.wf(),
            r@.settings == Map::<Seq<char>, Seq<char>>::empty(),
            r@.reads == Seq::<ReadView>::empty(),
            r@.next_id == 1,
            r@.readers == Seq::<ReaderView>::empty(),
            r@.last_reader_id == 0,
            r@.apis == Seq::<ApiView>::empty(),
            r@.last_api_id == 0,
            r@.participants == Seq::<ParticipantView>::empty(),
            r@.last_participant_id == 0,
            r@.bibchips == Seq::<(Seq<char>, Seq<char>)>::empty(),
            r@.sightings == Seq::<(u64, u64)>::empty(),
    {
        let r = MemStore {
            settings: Vec::new(),
            reads: Vec::new(),
            next_id: 1,
            readers: Vec::new(),
            last_reader_id: 0,
            apis: Vec::new(),
            last_api_id: 0,
            participants: Vec::new(),
            last_participant_id: 0,
            bibchips: Vec::new(),
            sightings: Vec::new(),
        };
        assert(participant_views(r.participants@) =~= Seq::<ParticipantView>::empty());
        assert(bibchip_views(r.bibchips@) =~= Seq::<(Seq<char>, Seq<char>)>::empty());
        assert(reader_views(r.readers@) =~= Seq::<ReaderView>::empty());
        assert(api_views(r.apis@) =~= Seq::<ApiView>::empty());
        assert(settings_map(setting_pairs(r.settings@)) =~= Map::<Seq<char>, Seq<char>>::empty());
        assert(read_views(r.reads@) =~= Seq::<ReadView>::empty());
        r
    }

    /// Where the setting named `name` is kept, if it is.
    fn setting_index(&self, name: &str) -> (r: Option<usize>)
        requires
            self.wf(),
        ensures
            r matches Some(i) ==> i < self.settings@.len() && setting_pairs(self.settings@)[i as int].0
                == name@,
            r is None ==> forall|j: int|
                0 <= j < self.settings@.len() ==> setting_pairs(self.settings@)[j].0 != name@,
    {
        let mut i: usize = 0;
        while i < self.settings.len()
            invariant
                i <= self.settings@.len(),
                forall|j: int| 0 <= j < i ==> setting_pairs(self.settings@)[j].0 != name@,
            decreases self.settings.len() - i,
        {
            if str_equal(self.settings[i].Name().as_str(), name) {
                return Some(i);
            }
            i = i + 1;
        }
        None
    }

    /// Stores the setting, replacing any value it had, and hands back a copy.
    pub fn set_setting(&mut self, setting: &Setting) -> (r: Result<Setting, DBError>)
        requires
            old(self).wf(),
        ensures
            final(self).wf(),
            same_rows(final(self)@, old(self)@),
            same_sightings(final(self)@, old(self)@),
            r matches Ok(s) && s@ == setting@,
            final(self)@.settings == old(self)@.settings.insert(setting@.0, setting@.1),
            final(self)@.reads == old(self)@.reads,
            final(self)@.next_id == old(self)@.next_id,
    {
        let ghost pairs = setting_pairs(self.settings@);
        let ghost entry = setting@;
        match self.setting_index(setting.Name().as_str()) {
            Some(i) => {
                proof {
                    lemma_settings_update(pairs, i as int, entry.0, entry.1);
                }
                self.settings.set(i, setting.clone());
                assert(setting_pairs(self.settings@) =~= pairs.update(i as int, entry));
            },
            None => {
                proof {
                    lemma_settings_push(pairs, entry.0, entry.1);
                }
                self.settings.push(setting.clone());
                assert(setting_pairs(self.settings@) =~= pairs.push(entry));
            },
        }
        Ok(setting.clone())
    }

    /// Whether a read of the same chip at the same time is stored.
    fn holds_key_of(&self, r: &Read) -> (b: bool)
        ensures
            b == holds_key(read_views(self.reads@), r@),
    {
        let ghost s = read_views(self.reads@);
        let mut j: usize = 0;
        while j < self.reads.len()
            invariant
                j <= self.reads@.len(),
                s == read_views(self.reads@),
                forall|k: int| 0 <= k < j ==> !same_key(#[trigger] s[k], r@),
            decreases self.reads.len() - j,
        {
            let x = &self.reads[j];
            if str_equal(x.chip(), r.chip()) && x.seconds() == r.seconds() && x.milliseconds()
                == r.milliseconds() {
                assert(same_key(s[j as int], r@));
                return true;
            }
            j = j + 1;
        }
        false
    }

    /// Saves the reads in order, skipping any whose chip and time are already
    /// stored, and gives back how many were added. Nothing is saved if some
    /// read has a status the store does not know, or if the ids would run out.
    pub fn save_reads(&mut self, reads: &Vec<Read>) -> (r: Result<usize, DBError>)
        requires
            old(self).wf(),
        ensures
            final(self).wf(),
            same_rows(final(self)@, old(self)@),
            same_sightings(final(self)@, old(self)@),
            final(self)@.settings == old(self)@.settings,
            (exists|k: int| 0 <= k < reads@.len() && !valid_status(#[trigger] reads@[k]@.status)) ==> (r
                matches Err(DBError::DataInsertionError(m)) && m@ == "invalid chip read status"@
                && final(self)@ == old(self)@),
            (forall|k: int| 0 <= k < reads@.len() ==> valid_status(#[trigger] reads@[k]@.status)) ==> ((
            old(self)@.next_id + reads@.len() > u64::MAX) <==> r is Err),
            r is Err ==> final(self)@ == old(self)@,
            r matches Ok(n) ==> {
                &&& final(self)@.reads == store_reads(old(self)@.reads, old(self)@.next_id as int, read_views(reads@))
                &&& n == final(self)@.reads.len() - old(self)@.reads.len()
                &&& final(self)@.next_id == old(self)@.next_id + n
            },
    {
        let mut k: usize = 0;
        while k < reads.len()
            invariant
                k <= reads@.len(),
                forall|m: int| 0 <= m < k ==> valid_status(#[trigger] reads@[m]@.status),
                self.wf(),
                self@ == old(self)@,
            decreases reads.len() - k,
        {
            let st = reads[k].status();
            if !(st == 0 || st == 1 || st == 2) {
                return Err(DBError::DataInsertionError(String::from_str("invalid chip read status")));
            }
            k = k + 1;
        }
        if reads.len() as u64 > u64::MAX - self.next_id {
            return Err(DBError::DataInsertionError(String::from_str("database or disk is full")));
        }
        let ghost old_reads = read_views(self.reads@);
        let ghost old_next = self.next_id;
        let ghost incoming = read_views(reads@);
        let mut count: usize = 0;
        let mut i: usize = 0;
        while i < reads.len()
            invariant
                i <= reads@.len(),
                incoming == read_views(reads@),
                keys_unique(old_reads),
                old_next + reads@.len() <= u64::MAX,
                read_views(self.reads@) == store_reads(old_reads, old_next as int, incoming.subrange(0, i as int)),
                self.reads@.len() == old_reads.len() + count,
                count <= i,
                self.next_id == old_next + count,
                keys_unique(read_views(self.reads@)),
                ids_unique(read_views(self.reads@)),
                forall|m: int| 0 <= m < self.reads@.len() ==> (#[trigger] self.reads@[m])@.id < self.next_id,
                names_unique(setting_pairs(self.settings@)),
                self.settings@ == old(self).settings@,
                self.readers@ == old(self).readers@,
                self.last_reader_id == old(self).last_reader_id,
                self.apis@ == old(self).apis@,
                self.last_api_id == old(self).last_api_id,
                readers_wf(reader_views(self.readers@), self.last_reader_id),
                apis_wf(api_views(self.apis@), self.last_api_id),
                self.participants@ == old(self).participants@,
                self.last_participant_id == old(self).last_participant_id,
                self.bibchips@ == old(self).bibchips@,
                participants_wf(participant_views(self.participants@), self.last_participant_id),
                bibchips_ok(bibchip_views(self.bibchips@)),
                self.sightings@ == old(self).sightings@,
            decreases reads.len() - i,
        {
            let ghost pre = incoming.subrange(0, i as int);
            let ghost post = incoming.subrange(0, i + 1);
            proof {
                assert(post.drop_last() =~= pre);
                assert(post.last() == reads@[i as int]@);
            }
            if !self.holds_key_of(&reads[i]) {
                let mut c = reads[i].clone();
                c.set_id(self.next_id);
                let ghost before = self.reads@;
                self.reads.push(c);
                proof {
                    assert(read_views(self.reads@) =~= read_views(before).push(c@));
                    law_save_reads_keys_unique(old_reads, old_next as int, post);
                    let x = ReadView { id: (old_next + read_views(before).len() - old_reads.len()) as u64, ..reads@[i as int]@ };
                    assert(c@ == x);
                    let v = read_views(self.reads@);
                    assert forall|a: int, b: int| 0 <= a < b < v.len() implies (#[trigger] v[a]).id != (#[trigger] v[b]).id by {
                        assert(v[a] == before[a]@);
                        if b < before.len() {
                            assert(v[b] == before[b]@);
                            assert(read_views(before)[a] == before[a]@ && read_views(before)[b] == before[b]@);
                        }
                    }
                }
                self.next_id = self.next_id + 1;
                count = count + 1;
            }
            i = i + 1;
        }
        assert(incoming.subrange(0, reads@.len() as int) =~= incoming);
        proof {
            lemma_store_reads_prefix(old_reads, old_next as int, incoming);
            let fin = read_views(self.reads@);
            assert forall|i: int| 0 <= i < old_reads.len() implies (#[trigger] fin[i]).id == old_reads[i].id by {
                assert(fin.subrange(0, old_reads.len() as int)[i] == fin[i]);
            }
            lemma_same_ids_ok(self.sightings@, old_reads, participant_views(self.participants@), fin);
        }
        Ok(count)
    }

    /// Every stored read, oldest first.
    pub fn get_all_reads(&self) -> (r: Result<Vec<Read>, DBError>)
        ensures
            r matches Ok(v) && read_views(v@) == self@.reads,
    {
        let mut out: Vec<Read> = Vec::new();
        let mut i: usize = 0;
        while i < self.reads.len()
            invariant
                i <= self.reads@.len(),
                out@.len() == i,
                forall|j: int| 0 <= j < i ==> (#[trigger] out@[j])@ == self.reads@[j]@,
            decreases self.reads.len() - i,
        {
            out.push(self.reads[i].clone());
            i = i + 1;
        }
        assert(read_views(out@) =~= read_views(self.reads@));
        Ok(out)
    }

    /// The stored reads whose seconds lie in `start..=end`, oldest first.
    pub fn get_reads(&self, start: i64, end: i64) -> (r: Result<Vec<Read>, DBError>)
        ensures
            r matches Ok(v) && read_views(v@) == self@.reads.filter(inside_span(start, end)),
    {
        let ghost pred = inside_span(start, end);
        let ghost all = read_views(self.reads@);
        let mut out: Vec<Read> = Vec::new();
        let mut i: usize = 0;
        while i < self.reads.len()
            invariant
                i <= self.reads@.len(),
                all == read_views(self.reads@),
                pred == inside_span(start, end),
                read_views(out@) == all.subrange(0, i as int).filter(pred),
            decreases self.reads.len() - i,
        {
            let ghost before = out@;
            proof {
                reveal(Seq::filter);
                assert(all.subrange(0, i + 1).drop_last() =~= all.subrange(0, i as int));
            }
            let sec = self.reads[i].seconds();
            if (start < 0 || (sec as u64) >= (start as u64)) && end >= 0 && sec <= (end as u64) {
                out.push(self.reads[i].clone());
                assert(read_views(out@) =~= read_views(before).push(all[i as int]));
            }
            i = i + 1;
        }
        assert(all.subrange(0, self.reads@.len() as int) =~= all);
        Ok(out)
    }

    /// Removes the stored reads whose seconds lie in `start..=end`, and gives
    /// back how many went.
    pub fn delete_reads(&mut self, start: i64, end: i64) -> (r: Result<usize, DBError>)
        requires
            old(self).wf(),
        ensures
            final(self).wf(),
            same_rows(final(self)@, old(self)@),
            final(self)@.sightings == old(self)@.sightings.filter(read_kept(final(self)@.reads)),
            final(self)@.reads == old(self)@.reads.filter(outside_span(start, end)),
            r matches Ok(n) && n == old(self)@.reads.len() - final(self)@.reads.len(),
            final(self)@.settings == old(self)@.settings,
            final(self)@.next_id == old(self)@.next_id,
    {
        let ghost pred = outside_span(start, end);
        let ghost all = read_views(self.reads@);
        let mut kept: Vec<Read> = Vec::new();
        let mut i: usize = 0;
        while i < self.reads.len()
            invariant
                i <= self.reads@.len(),
                all == read_views(self.reads@),
                pred == outside_span(start, end),
                read_views(kept@) == all.subrange(0, i as int).filter(pred),
                kept@.len() <= i,
                keys_unique(all),
                keys_unique(read_views(kept@)),
                forall|k: int| 0 <= k < kept@.len() ==> exists|j: int| 0 <= j < i && (#[trigger] kept@[k])@ == all[j],
                forall|m: int| 0 <= m < self.reads@.len() ==> (#[trigger] self.reads@[m])@.id < self.next_id,
                forall|m: int| 0 <= m < kept@.len() ==> (#[trigger] kept@[m])@.id < self.next_id,
            decreases self.reads.len() - i,
        {
            let ghost before = kept@;
            proof {
                reveal(Seq::filter);
                assert(all.subrange(0, i + 1).drop_last() =~= all.subrange(0, i as int));
                assert(all.subrange(0, i as int).filter(pred).len() <= i) by {
                    all.subrange(0, i as int).lemma_filter_len(pred);
                }
            }
            let sec = self.reads[i].seconds();
            let inside = (start < 0 || (sec as u64) >= (start as u64)) && end >= 0 && sec <= (end as u64);
            if !inside {
                let c = self.reads[i].clone();
                kept.push(c);
                proof {
                    assert(read_views(kept@) =~= read_views(before).push(all[i as int]));
                    assert forall|a: int, b: int| 0 <= a < b < kept@.len() implies !same_key(
                        #[trigger] read_views(kept@)[a],
                        #[trigger] read_views(kept@)[b],
                    ) by {
                        if b == before.len() {
                            let j = choose|j: int| 0 <= j < i && (#[trigger] before[a])@ == all[j];
                            assert(kept@[a] == before[a]);
                            assert(!same_key(all[j], all[i as int]));
                        } else {
                            assert(read_views(kept@)[a] == read_views(before)[a]);
                            assert(read_views(kept@)[b] == read_views(before)[b]);
                        }
                    }
                    assert forall|k: int| 0 <= k < kept@.len() implies exists|j: int| 0 <= j < i + 1 && (#[trigger] kept@[k])@ == all[j] by {
                        if k < before.len() {
                            let j = choose|j: int| 0 <= j < i && (#[trigger] before[k])@ == all[j];
                            assert(kept@[k] == before[k]);
                        } else {
                            assert(kept@[k]@ == all[i as int]);
                        }
                    }
                }
            }
            i = i + 1;
        }
        assert(all.subrange(0, self.reads@.len() as int) =~= all);
        let removed = self.reads.len() - kept.len();
        self.reads = kept;
        let kept_sightings = keep_sightings(&self.sightings, &self.reads, &self.participants, false);
        proof {
            lemma_read_kept_ok(self.sightings@, all, participant_views(self.participants@), read_views(self.reads@));
        }
        self.sightings = kept_sightings;
        Ok(removed)
    }

    /// Removes every stored read, and gives back how many went.
    pub fn delete_all_reads(&mut self) -> (r: Result<usize, DBError>)
        requires
            old(self).wf(),
        ensures
            final(self).wf(),
            same_rows(final(self)@, old(self)@),
            final(self)@.sightings == Seq::<(u64, u64)>::empty(),
            final(self)@.reads == Seq::<ReadView>::empty(),
            r matches Ok(n) && n == old(self)@.reads.len(),
            final(self)@.settings == old(self)@.settings,
            final(self)@.next_id == old(self)@.next_id,
    {
        let n = self.reads.len();
        self.reads = Vec::new();
        self.sightings = Vec::new();
        assert(read_views(self.reads@) =~= Seq::<ReadView>::empty());
        Ok(n)
    }

    /// The stored reads not yet uploaded, oldest first.
    pub fn get_not_uploaded_reads(&self) -> (r: Result<Vec<Read>, DBError>)
        ensures
            r matches Ok(v) && read_views(v@) == self@.reads.filter(not_uploaded()),
    {
        let ghost pred = not_uploaded();
        let ghost all = read_views(self.reads@);
        let mut out: Vec<Read> = Vec::new();
        let mut i: usize = 0;
        while i < self.reads.len()
            invariant
                i <= self.reads@.len(),
                all == read_views(self.reads@),
                pred == not_uploaded(),
                read_views(out@) == all.subrange(0, i as int).filter(pred),
            decreases self.reads.len() - i,
        {
            let ghost before = out@;
            proof {
                reveal(Seq::filter);
                assert(all.subrange(0, i + 1).drop_last() =~= all.subrange(0, i as int));
            }
            if self.reads[i].uploaded() == READ_UPLOADED_FALSE {
                out.push(self.reads[i].clone());
                assert(read_views(out@) =~= read_views(before).push(all[i as int]));
            }
            i = i + 1;
        }
        assert(all.subrange(0, self.reads@.len() as int) =~= all);
        Ok(out)
    }

    /// The stored reads that were not too soon after an earlier one, oldest first.
    pub fn get_useful_reads(&self) -> (r: Result<Vec<Read>, DBError>)
        ensures
            r matches Ok(v) && read_views(v@) == self@.reads.filter(useful()),
    {
        let ghost pred = useful();
        let ghost all = read_views(self.reads@);
        let mut out: Vec<Read> = Vec::new();
        let mut i: usize = 0;
        while i < self.reads.len()
            invariant
                i <= self.reads@.len(),
                all == read_views(self.reads@),
                pred == useful(),
                read_views(out@) == all.subrange(0, i as int).filter(pred),
            decreases self.reads.len() - i,
        {
            let ghost before = out@;
            proof {
                reveal(Seq::filter);
                assert(all.subrange(0, i + 1).drop_last() =~= all.subrange(0, i as int));
            }
            if self.reads[i].status() != READ_STATUS_TOO_SOON {
                out.push(self.reads[i].clone());
                assert(read_views(out@) =~= read_views(before).push(all[i as int]));
            }
            i = i + 1;
        }
        assert(all.subrange(0, self.reads@.len() as int) =~= all);
        Ok(out)
    }

    /// Marks every stored read as not uploaded, and gives back how many there are.
    pub fn reset_reads_upload(&mut self) -> (r: Result<usize, DBError>)
        requires
            old(self).wf(),
        ensures
            final(self).wf(),
            same_rows(final(self)@, old(self)@),
            same_sightings(final(self)@, old(self)@),
            final(self)@.reads == upload_reset(old(self)@.reads),
            r matches Ok(n) && n == old(self)@.reads.len(),
            final(self)@.settings == old(self)@.settings,
            final(self)@.next_id == old(self)@.next_id,
    {
        let ghost all = read_views(self.reads@);
        let n = self.reads.len();
        let mut i: usize = 0;
        while i < n
            invariant
                i <= n,
                n == self.reads@.len(),
                all.len() == n,
                forall|j: int| 0 <= j < i ==> (#[trigger] self.reads@[j])@ == upload_reset(all)[j],
                forall|j: int| i <= j < n ==> (#[trigger] self.reads@[j])@ == all[j],
                names_unique(setting_pairs(self.settings@)),
                self.settings@ == old(self).settings@,
                self.readers@ == old(self).readers@,
                self.last_reader_id == old(self).last_reader_id,
                self.apis@ == old(self).apis@,
                self.last_api_id == old(self).last_api_id,
                readers_wf(reader_views(self.readers@), self.last_reader_id),
                apis_wf(api_views(self.apis@), self.last_api_id),
                self.participants@ == old(self).participants@,
                self.last_participant_id == old(self).last_participant_id,
                self.bibchips@ == old(self).bibchips@,
                participants_wf(participant_views(self.participants@), self.last_participant_id),
                bibchips_ok(bibchip_views(self.bibchips@)),
                self.sightings@ == old(self).sightings@,
                self.next_id == old(self).next_id,
            decreases n - i,
        {
            let mut c = self.reads[i].clone();
            c.set_uploaded(READ_UPLOADED_FALSE);
            self.reads.set(i, c);
            i = i + 1;
        }
        assert(read_views(self.reads@) =~= upload_reset(all));
        proof {
            assert(keys_unique(all));
            assert forall|a: int, b: int| 0 <= a < b < n implies !same_key(
                #[trigger] read_views(self.reads@)[a],
                #[trigger] read_views(self.reads@)[b],
            ) by {
                assert(!same_key(all[a], all[b]));
            }
            assert forall|m: int| 0 <= m < self.reads@.len() implies (#[trigger] self.reads@[m])@.id < self.next_id by {
                assert(all[m].id < self.next_id);
            }
        }
        proof {
            let fin = read_views(self.reads@);
            assert forall|i: int| 0 <= i < all.len() implies (#[trigger] fin[i]).id == all[i].id by {
                assert(fin[i] == upload_reset(all)[i]);
            }
            lemma_same_ids_ok(self.sightings@, all, participant_views(self.participants@), fin);
        }
        Ok(n)
    }

    /// Marks every stored read as unused, and gives back how many there are.
    pub fn reset_reads_status(&mut self) -> (r: Result<usize, DBError>)
        requires
            old(self).wf(),
        ensures
            final(self).wf(),
            same_rows(final(self)@, old(self)@),
            final(self)@.sightings == Seq::<(u64, u64)>::empty(),
            final(self)@.reads == status_reset(old(self)@.reads),
            r matches Ok(n) && n == old(self)@.reads.len(),
            final(self)@.settings == old(self)@.settings,
            final(self)@.next_id == old(self)@.next_id,
    {
        let ghost all = read_views(self.reads@);
        let n = self.reads.len();
        let mut i: usize = 0;
        while i < n
            invariant
                i <= n,
                n == self.reads@.len(),
                all.len() == n,
                forall|j: int| 0 <= j < i ==> (#[trigger] self.reads@[j])@ == status_reset(all)[j],
                forall|j: int| i <= j < n ==> (#[trigger] self.reads@[j])@ == all[j],
                names_unique(setting_pairs(self.settings@)),
                self.settings@ == old(self).settings@,
                self.readers@ == old(self).readers@,
                self.last_reader_id == old(self).last_reader_id,
                self.apis@ == old(self).apis@,
                self.last_api_id == old(self).last_api_id,
                readers_wf(reader_views(self.readers@), self.last_reader_id),
                apis_wf(api_views(self.apis@), self.last_api_id),
                self.participants@ == old(self).participants@,
                self.last_participant_id == old(self).last_participant_id,
                self.bibchips@ == old(self).bibchips@,
                participants_wf(participant_views(self.participants@), self.last_participant_id),
                bibchips_ok(bibchip_views(self.bibchips@)),
                self.sightings@ == old(self).sightings@,
                self.next_id == old(self).next_id,
            decreases n - i,
        {
            let mut c = self.reads[i].clone();
            c.set_status(READ_STATUS_UNUSED);
            self.reads.set(i, c);
            i = i + 1;
        }
        assert(read_views(self.reads@) =~= status_reset(all));
        proof {
            assert(keys_unique(all));
            assert forall|a: int, b: int| 0 <= a < b < n implies !same_key(
                #[trigger] read_views(self.reads@)[a],
                #[trigger] read_views(self.reads@)[b],
            ) by {
                assert(!same_key(all[a], all[b]));
            }
            assert forall|m: int| 0 <= m < self.reads@.len() implies (#[trigger] self.reads@[m])@.id < self.next_id by {
                assert(all[m].id < self.next_id);
            }
        }
        self.sightings = Vec::new();
        Ok(n)
    }

    /// Gives the stored read with the id of each of `reads`, in order, that
    /// read's status and upload mark, and gives back how many reads were
    /// given. Nothing changes if one of them has a status the store does not know.
    pub fn update_reads_status(&mut self, reads: &Vec<Read>) -> (r: Result<usize, DBError>)
        requires
            old(self).wf(),
        ensures
            final(self).wf(),
            same_rows(final(self)@, old(self)@),
            same_sightings(final(self)@, old(self)@),
            final(self)@.settings == old(self)@.settings,
            final(self)@.next_id == old(self)@.next_id,
            (exists|k: int| 0 <= k < reads@.len() && !valid_status(#[trigger] reads@[k]@.status)) ==> (r
                matches Err(DBError::DataInsertionError(m)) && m@ == "invalid chip read status"@
                && final(self)@ == old(self)@),
            (forall|k: int| 0 <= k < reads@.len() ==> valid_status(#[trigger] reads@[k]@.status)) ==> (r
                matches Ok(n) && n == reads@.len()
                && final(self)@.reads == statuses_updated(old(self)@.reads, read_views(reads@))),
    {
        let mut k: usize = 0;
        while k < reads.len()
            invariant
                k <= reads@.len(),
                forall|m: int| 0 <= m < k ==> valid_status(#[trigger] reads@[m]@.status),
                self.wf(),
                self@ == old(self)@,
            decreases reads.len() - k,
        {
            let st = reads[k].status();
            if !(st == 0 || st == 1 || st == 2) {
                return Err(DBError::DataInsertionError(String::from_str("invalid chip read status")));
            }
            k = k + 1;
        }
        let ghost start = read_views(self.reads@);
        let ghost ups = read_views(reads@);
        let mut u: usize = 0;
        while u < reads.len()
            invariant
                u <= reads@.len(),
                ups == read_views(reads@),
                read_views(self.reads@) == statuses_updated(start, ups.subrange(0, u as int)),
                self.reads@.len() == start.len(),
                keys_unique(start),
                ids_unique(start),
                forall|m: int| 0 <= m < start.len() ==> (#[trigger] start[m]).id < self.next_id,
                names_unique(setting_pairs(self.settings@)),
                self.settings@ == old(self).settings@,
                self.readers@ == old(self).readers@,
                self.last_reader_id == old(self).last_reader_id,
                self.apis@ == old(self).apis@,
                self.last_api_id == old(self).last_api_id,
                readers_wf(reader_views(self.readers@), self.last_reader_id),
                apis_wf(api_views(self.apis@), self.last_api_id),
                self.participants@ == old(self).participants@,
                self.last_participant_id == old(self).last_participant_id,
                self.bibchips@ == old(self).bibchips@,
                participants_wf(participant_views(self.participants@), self.last_participant_id),
                bibchips_ok(bibchip_views(self.bibchips@)),
                self.sightings@ == old(self).sightings@,
                self.next_id == old(self).next_id,
            decreases reads.len() - u,
        {
            let id = reads[u].id();
            let st = reads[u].status();
            let up = reads[u].uploaded();
            let ghost pre = read_views(self.reads@);
            let n = self.reads.len();
            let mut i: usize = 0;
            while i < n
                invariant
                    i <= n,
                    n == self.reads@.len(),
                    pre.len() == n,
                    u < reads@.len(),
                    ups == read_views(reads@),
                    self.settings@ == old(self).settings@,
                    self.readers@ == old(self).readers@,
                    self.last_reader_id == old(self).last_reader_id,
                    self.apis@ == old(self).apis@,
                    self.last_api_id == old(self).last_api_id,
                    readers_wf(reader_views(self.readers@), self.last_reader_id),
                    apis_wf(api_views(self.apis@), self.last_api_id),
                    self.participants@ == old(self).participants@,
                    self.last_participant_id == old(self).last_participant_id,
                    self.bibchips@ == old(self).bibchips@,
                    participants_wf(participant_views(self.participants@), self.last_participant_id),
                    bibchips_ok(bibchip_views(self.bibchips@)),
                    self.sightings@ == old(self).sightings@,
                    self.next_id == old(self).next_id,
                    id == ups[u as int].id,
                    st == ups[u as int].status,
                    up == ups[u as int].uploaded,
                    forall|j: int| 0 <= j < i ==> (#[trigger] self.reads@[j])@ == status_updated(pre, ups[u as int])[j],
                    forall|j: int| i <= j < n ==> (#[trigger] self.reads@[j])@ == pre[j],
                decreases n - i,
            {
                if self.reads[i].id() == id {
                    let mut c = self.reads[i].clone();
                    c.set_status(st);
                    c.set_uploaded(up);
                    self.reads.set(i, c);
                }
                i = i + 1;
            }
            proof {
                assert(read_views(self.reads@) =~= status_updated(pre, ups[u as int]));
                assert(ups.subrange(0, u + 1).drop_last() =~= ups.subrange(0, u as int));
            }
            u = u + 1;
        }
        proof {
            assert(ups.subrange(0, reads@.len() as int) =~= ups);
            lemma_statuses_keep_keys(start, ups);
            let fin = read_views(self.reads@);
            assert forall|a: int, b: int| 0 <= a < b < fin.len() implies !same_key(#[trigger] fin[a], #[trigger] fin[b]) by {
                assert(!same_key(start[a], start[b]));
            }
            assert forall|a: int, b: int| 0 <= a < b < fin.len() implies (#[trigger] fin[a]).id != (#[trigger] fin[b]).id by {
                assert(start[a].id != start[b].id);
            }
            assert forall|m: int| 0 <= m < self.reads@.len() implies (#[trigger] self.reads@[m])@.id < self.next_id by {
                assert(fin[m].id == start[m].id);
            }
        }
        Ok(reads.len())
    }

    /// Saves a reader, and gives back its id. Only Zebra readers are taken. A
    /// reader with an id updates the reader of that id, if there is one; one
    /// without gets the next id. Either way a reader of the same nickname
    /// that is not the one saved goes.
    pub fn save_reader(&mut self, reader: &Reader) -> (r: Result<i64, DBError>)
        requires
            old(self).wf(),
        ensures
            final(self).wf(),
            final(self)@.settings == old(self)@.settings,
            final(self)@.reads == old(self)@.reads,
            final(self)@.next_id == old(self)@.next_id,
            final(self)@.apis == old(self)@.apis,
            final(self)@.last_api_id == old(self)@.last_api_id,
            same_people(final(self)@, old(self)@),
            same_sightings(final(self)@, old(self)@),
            reader@.kind == READER_KIND_ZEBRA@ && (reader@.id > 0 || old(self)@.last_reader_id < i64::MAX) ==> {
                &&& r matches Ok(i) && i == (if reader@.id > 0 { reader@.id as int } else { old(self)@.last_reader_id + 1 })
                &&& final(self)@.readers == readers_after_save(old(self)@.readers, reader@, old(self)@.last_reader_id)
                &&& final(self)@.last_reader_id == (if reader@.id > 0 { old(self)@.last_reader_id as int } else { old(self)@.last_reader_id + 1 })
            },
            reader@.kind == READER_KIND_ZEBRA@ && reader@.id <= 0 && old(self)@.last_reader_id == i64::MAX ==> (r matches Err(
                DBError::DataInsertionError(m),
            ) && m@ == "database or disk is full"@),
            (reader@.kind == READER_KIND_IMPINJ@ || reader@.kind == READER_KIND_RFID@) ==> (r matches Err(
                DBError::DataInsertionError(m),
            ) && m@ == "not yet implemented"@),
            !(reader@.kind == READER_KIND_ZEBRA@ || reader@.kind == READER_KIND_IMPINJ@ || reader@.kind
                == READER_KIND_RFID@) ==> (r matches Err(DBError::DataInsertionError(m)) && m@
                == "unknown reader kind specified"@),
            r is Err ==> final(self)@ == old(self)@,
    {
        save_reader_row(&mut self.readers, &mut self.last_reader_id, reader)
    }

    /// The reader with the id `id`, or `NotFound`.
    pub fn get_reader(&self, id: &i64) -> (r: Result<Reader, DBError>)
        requires
            self.wf(),
        ensures
            has_reader_id(self@.readers, *id) ==> (r matches Ok(x) && exists|i: int|
                0 <= i < self@.readers.len() && self@.readers[i].id == *id && x@ == #[trigger] self@.readers[i]),
            !has_reader_id(self@.readers, *id) ==> (r matches Err(e) && e is NotFound),
    {
        let r = get_reader_row(&self.readers, *id);
        proof {
            if has_reader_id(self@.readers, *id) {
                let i = choose|i: int| 0 <= i < self.readers@.len() && self.readers@[i]@.id == *id && r->Ok_0@ == #[trigger] self.readers@[i]@;
                assert(self@.readers[i] == self.readers@[i]@);
            }
        }
        r
    }

    /// Every reader, in the order saved.
    pub fn get_readers(&self) -> (r: Result<Vec<Reader>, DBError>)
        requires
            self.wf(),
        ensures
            r matches Ok(v) && reader_views(v@) == self@.readers,
    {
        Ok(copy_reader_rows(&self.readers))
    }

    /// Removes the reader with the id `id`, and gives back how many went.
    pub fn delete_reader(&mut self, id: &i64) -> (r: Result<usize, DBError>)
        requires
            old(self).wf(),
        ensures
            final(self).wf(),
            final(self)@.readers == old(self)@.readers.filter(reader_id_not(*id)),
            r matches Ok(n) && n == (if has_reader_id(old(self)@.readers, *id) { 1int } else { 0int }),
            final(self)@.last_reader_id == old(self)@.last_reader_id,
            final(self)@.settings == old(self)@.settings,
            final(self)@.reads == old(self)@.reads,
            final(self)@.next_id == old(self)@.next_id,
            final(self)@.apis == old(self)@.apis,
            final(self)@.last_api_id == old(self)@.last_api_id,
            same_people(final(self)@, old(self)@),
            same_sightings(final(self)@, old(self)@),
    {
        let ghost before = reader_views(self.readers@);
        let n = delete_reader_row(&mut self.readers, *id);
        proof {
            let after = reader_views(self.readers@);
            assert forall|i: int| 0 <= i < after.len() implies (#[trigger] after[i]).id <= self.last_reader_id by {
                assert(after.contains(after[i]));
                before.lemma_filter_contains_rev(reader_id_not(*id), after[i]);
            }
        }
        Ok(n)
    }

    /// Saves a remote service, and gives back its id. Only the remote service
    /// kinds are taken. A service with an id updates the service of that id,
    /// if there is one; one without gets the next id. Either way a service of
    /// the same nickname, or of the same address and token, that is not the
    /// one saved goes.
    pub fn save_api(&mut self, api: &Api) -> (r: Result<i64, DBError>)
        requires
            old(self).wf(),
        ensures
            final(self).wf(),
            final(self)@.settings == old(self)@.settings,
            final(self)@.reads == old(self)@.reads,
            final(self)@.next_id == old(self)@.next_id,
            final(self)@.readers == old(self)@.readers,
            final(self)@.last_reader_id == old(self)@.last_reader_id,
            same_people(final(self)@, old(self)@),
            same_sightings(final(self)@, old(self)@),
            api_kind_ok(api@.kind) && (api@.id > 0 || old(self)@.last_api_id < i64::MAX) ==> {
                &&& r matches Ok(i) && i == (if api@.id > 0 { api@.id as int } else { old(self)@.last_api_id + 1 })
                &&& final(self)@.apis == apis_after_save(old(self)@.apis, api@, old(self)@.last_api_id)
                &&& final(self)@.last_api_id == (if api@.id > 0 { old(self)@.last_api_id as int } else { old(self)@.last_api_id + 1 })
            },
            api_kind_ok(api@.kind) && api@.id <= 0 && old(self)@.last_api_id == i64::MAX ==> (r matches Err(
                DBError::DataInsertionError(m),
            ) && m@ == "database or disk is full"@),
            !api_kind_ok(api@.kind) ==> (r matches Err(DBError::DataInsertionError(m)) && m@
                == "invalid kind specified"@),
            r is Err ==> final(self)@ == old(self)@,
    {
        save_api_row(&mut self.apis, &mut self.last_api_id, api)
    }

    /// Every remote service, in the order saved.
    pub fn get_apis(&self) -> (r: Result<Vec<Api>, DBError>)
        ensures
            r matches Ok(v) && api_views(v@) == self@.apis,
    {
        Ok(copy_api_rows(&self.apis))
    }

    /// Removes the service with the id `id`, and gives back how many went.
    pub fn delete_api(&mut self, id: &i64) -> (r: Result<usize, DBError>)
        requires
            old(self).wf(),
        ensures
            final(self).wf(),
            final(self)@.apis == old(self)@.apis.filter(api_id_not(*id)),
            r matches Ok(n) && n == (if has_api_id(old(self)@.apis, *id) { 1int } else { 0int }),
            final(self)@.last_api_id == old(self)@.last_api_id,
            final(self)@.settings == old(self)@.settings,
            final(self)@.reads == old(self)@.reads,
            final(self)@.next_id == old(self)@.next_id,
            final(self)@.readers == old(self)@.readers,
            final(self)@.last_reader_id == old(self)@.last_reader_id,
            same_people(final(self)@, old(self)@),
            same_sightings(final(self)@, old(self)@),
    {
        let ghost before = api_views(self.apis@);
        let n = delete_api_row(&mut self.apis, *id);
        proof {
            let after = api_views(self.apis@);
            assert forall|i: int| 0 <= i < after.len() implies (#[trigger] after[i]).id <= self.last_api_id by {
                assert(after.contains(after[i]));
                before.lemma_filter_contains_rev(api_id_not(*id), after[i]);
            }
        }
        Ok(n)
    }

    /// Adds participants in order, each under the next id; a participant
    /// replaces any with its bib or its chip. Gives back how many were added.
    pub fn add_participants(&mut self, participants: &Vec<Participant>) -> (r: Result<usize, DBError>)
        requires
            old(self).wf(),
        ensures
            final(self).wf(),
            final(self)@.settings == old(self)@.settings,
            final(self)@.reads == old(self)@.reads,
            final(self)@.next_id == old(self)@.next_id,
            final(self)@.readers == old(self)@.readers,
            final(self)@.last_reader_id == old(self)@.last_reader_id,
            final(self)@.apis == old(self)@.apis,
            final(self)@.last_api_id == old(self)@.last_api_id,
            final(self)@.bibchips == old(self)@.bibchips,
            old(self)@.last_participant_id + participants@.len() <= i64::MAX ==> {
                &&& r matches Ok(n) && n == participants@.len()
                &&& final(self)@.sightings == old(self)@.sightings.filter(participant_kept(final(self)@.participants))
                &&& final(self)@.participants == participants_after_add(
                    old(self)@.participants,
                    participant_views(participants@),
                    old(self)@.last_participant_id,
                )
                &&& final(self)@.last_participant_id == old(self)@.last_participant_id + participants@.len()
            },
            old(self)@.last_participant_id + participants@.len() > i64::MAX ==> (r matches Err(
                DBError::DataInsertionError(m),
            ) && m@ == "database or disk is full"@ && final(self)@ == old(self)@),
    {
        let ghost pv = participant_views(self.participants@);
        let added = add_participant_rows(&mut self.participants, &mut self.last_participant_id, participants);
        match added {
            Some(n) => {
                let kept_sightings = keep_sightings(&self.sightings, &self.reads, &self.participants, true);
                proof {
                    lemma_participant_kept_ok(self.sightings@, read_views(self.reads@), pv, participant_views(self.participants@));
                }
                self.sightings = kept_sightings;
                Ok(n)
            },
            None => Err(DBError::DataInsertionError(String::from_str("database or disk is full"))),
        }
    }

    /// Every participant, in the order added.
    pub fn get_participants(&self) -> (r: Result<Vec<Participant>, DBError>)
        ensures
            r matches Ok(v) && participant_views(v@) == self@.participants,
    {
        Ok(copy_participant_rows(&self.participants))
    }

    /// Removes every participant and every bib link, and gives back how many
    /// participants went.
    pub fn delete_participants(&mut self) -> (r: Result<usize, DBError>)
        requires
            old(self).wf(),
        ensures
            final(self).wf(),
            final(self)@.participants == Seq::<ParticipantView>::empty(),
            final(self)@.bibchips == Seq::<(Seq<char>, Seq<char>)>::empty(),
            final(self)@.sightings == Seq::<(u64, u64)>::empty(),
            r matches Ok(n) && n == old(self)@.participants.len(),
            final(self)@.last_participant_id == old(self)@.last_participant_id,
            final(self)@.settings == old(self)@.settings,
            final(self)@.reads == status_reset(old(self)@.reads),
            final(self)@.next_id == old(self)@.next_id,
            final(self)@.readers == old(self)@.readers,
            final(self)@.last_reader_id == old(self)@.last_reader_id,
            final(self)@.apis == old(self)@.apis,
            final(self)@.last_api_id == old(self)@.last_api_id,
    {
        let n = self.participants.len();
        self.bibchips = Vec::new();
        let _ = self.delete_sightings();
        self.participants = Vec::new();
        assert(participant_views(self.participants@) =~= Seq::<ParticipantView>::empty());
        assert(bibchip_views(self.bibchips@) =~= Seq::<(Seq<char>, Seq<char>)>::empty());
        Ok(n)
    }

    /// Removes the participant with the bib `bib` and the links of that bib,
    /// and gives back how many participants went.
    pub fn delete_participant(&mut self, bib: &str) -> (r: Result<usize, DBError>)
        requires
            old(self).wf(),
        ensures
            final(self).wf(),
            final(self)@.participants == old(self)@.participants.filter(participant_bib_not(bib@)),
            final(self)@.bibchips == old(self)@.bibchips.filter(bibchip_bib_not(bib@)),
            final(self)@.sightings == old(self)@.sightings.filter(participant_kept(final(self)@.participants)),
            r matches Ok(n) && n == old(self)@.participants.len() - final(self)@.participants.len(),
            final(self)@.last_participant_id == old(self)@.last_participant_id,
            final(self)@.settings == old(self)@.settings,
            final(self)@.reads == old(self)@.reads,
            final(self)@.next_id == old(self)@.next_id,
            final(self)@.readers == old(self)@.readers,
            final(self)@.last_reader_id == old(self)@.last_reader_id,
            final(self)@.apis == old(self)@.apis,
            final(self)@.last_api_id == old(self)@.last_api_id,
    {
        let _ = delete_bibchip_rows(&mut self.bibchips, bib);
        let ghost before = participant_views(self.participants@);
        let n = delete_participant_rows(&mut self.participants, bib);
        let kept_sightings = keep_sightings(&self.sightings, &self.reads, &self.participants, true);
        proof {
            lemma_participant_kept_ok(self.sightings@, read_views(self.reads@), before, participant_views(self.participants@));
        }
        self.sightings = kept_sightings;
        proof {
            let after = participant_views(self.participants@);
            assert forall|i: int| 0 <= i < after.len() implies (#[trigger] after[i]).id <= self.last_participant_id by {
                assert(after.contains(after[i]));
                before.lemma_filter_contains_rev(participant_bib_not(bib@), after[i]);
            }
        }
        Ok(n)
    }

    /// Adds bib links in order; each replaces any link for its chip. Gives
    /// back how many were added.
    pub fn add_bibchips(&mut self, bibchips: &Vec<BibChip>) -> (r: Result<usize, DBError>)
        requires
            old(self).wf(),
        ensures
            final(self).wf(),
            final(self)@.bibchips == bibchips_after_add(old(self)@.bibchips, bibchip_views(bibchips@)),
            r matches Ok(n) && n == bibchips@.len(),
            final(self)@.participants == old(self)@.participants,
            final(self)@.last_participant_id == old(self)@.last_participant_id,
            final(self)@.settings == old(self)@.settings,
            final(self)@.reads == old(self)@.reads,
            final(self)@.next_id == old(self)@.next_id,
            final(self)@.readers == old(self)@.readers,
            final(self)@.last_reader_id == old(self)@.last_reader_id,
            final(self)@.apis == old(self)@.apis,
            final(self)@.last_api_id == old(self)@.last_api_id,
    {
        Ok(add_bibchip_rows(&mut self.bibchips, bibchips))
    }

    /// Every bib link, in the order added.
    pub fn get_bibchips(&self) -> (r: Result<Vec<BibChip>, DBError>)
        ensures
            r matches Ok(v) && bibchip_views(v@) == self@.bibchips,
    {
        Ok(copy_bibchip_rows(&self.bibchips))
    }

    /// Removes every bib link, and gives back how many went.
    pub fn delete_all_bibchips(&mut self) -> (r: Result<usize, DBError>)
        requires
            old(self).wf(),
        ensures
            final(self).wf(),
            final(self)@.bibchips == Seq::<(Seq<char>, Seq<char>)>::empty(),
            r matches Ok(n) && n == old(self)@.bibchips.len(),
            final(self)@.participants == old(self)@.participants,
            final(self)@.last_participant_id == old(self)@.last_participant_id,
            final(self)@.settings == old(self)@.settings,
            final(self)@.reads == old(self)@.reads,
            final(self)@.next_id == old(self)@.next_id,
            final(self)@.readers == old(self)@.readers,
            final(self)@.last_reader_id == old(self)@.last_reader_id,
            final(self)@.apis == old(self)@.apis,
            final(self)@.last_api_id == old(self)@.last_api_id,
    {
        let n = self.bibchips.len();
        self.bibchips = Vec::new();
        assert(bibchip_views(self.bibchips@) =~= Seq::<(Seq<char>, Seq<char>)>::empty());
        Ok(n)
    }

    /// Removes the links of the bib `bib`, and gives back how many went.
    pub fn delete_bibchips(&mut self, bib: &str) -> (r: Result<usize, DBError>)
        requires
            old(self).wf(),
        ensures
            final(self).wf(),
            final(self)@.bibchips == old(self)@.bibchips.filter(bibchip_bib_not(bib@)),
            r matches Ok(n) && n == old(self)@.bibchips.len() - final(self)@.bibchips.len(),
            final(self)@.participants == old(self)@.participants,
            final(self)@.last_participant_id == old(self)@.last_participant_id,
            final(self)@.settings == old(self)@.settings,
            final(self)@.reads == old(self)@.reads,
            final(self)@.next_id == old(self)@.next_id,
            final(self)@.readers == old(self)@.readers,
            final(self)@.last_reader_id == old(self)@.last_reader_id,
            final(self)@.apis == old(self)@.apis,
            final(self)@.last_api_id == old(self)@.last_api_id,
    {
        Ok(delete_bibchip_rows(&mut self.bibchips, bib))
    }

    /// Saves sightings in order, each pair of read and participant once, and
    /// gives back how many were added. Nothing is saved if a sighting names a
    /// read or a participant that is not stored.
    pub fn save_sightings(&mut self, sightings: &Vec<Sighting>) -> (r: Result<usize, DBError>)
        requires
            old(self).wf(),
        ensures
            final(self).wf(),
            same_rows(final(self)@, old(self)@),
            final(self)@.settings == old(self)@.settings,
            final(self)@.reads == old(self)@.reads,
            final(self)@.next_id == old(self)@.next_id,
            sightings_refer(sighting_pairs(sightings@), old(self)@.reads, old(self)@.participants) ==> (r matches Ok(n)
                && final(self)@.sightings == sightings_after_save(old(self)@.sightings, sighting_pairs(sightings@))
                && n == final(self)@.sightings.len() - old(self)@.sightings.len()),
            !sightings_refer(sighting_pairs(sightings@), old(self)@.reads, old(self)@.participants) ==> (r matches Err(
                DBError::DataInsertionError(m),
            ) && m@ == "FOREIGN KEY constraint failed"@ && final(self)@ == old(self)@),
    {
        match save_sighting_rows(&mut self.sightings, &self.reads, &self.participants, sightings) {
            Some(n) => Ok(n),
            None => Err(DBError::DataInsertionError(String::from_str("FOREIGN KEY constraint failed"))),
        }
    }

    /// Every sighting with its participant and its read.
    pub fn get_all_sightings(&self) -> (r: Result<Vec<Sighting>, DBError>)
        requires
            self.wf(),
        ensures
            r matches Ok(v) && sighting_views(v@) == sightings_joined(self@.sightings, self@.reads, self@.participants),
    {
        proof {
            self.lemma_ids_distinct();
        }
        Ok(join_sightings(&self.sightings, &self.reads, &self.participants, None))
    }

    /// The sightings whose read's seconds lie in `start..=end`, with their
    /// participants and reads.
    pub fn get_sightings(&self, start: i64, end: i64) -> (r: Result<Vec<Sighting>, DBError>)
        requires
            self.wf(),
        ensures
            r matches Ok(v) && sighting_views(v@) == sightings_joined(
                self@.sightings.filter(seen_in(self@.reads, start, end)),
                self@.reads,
                self@.participants,
            ),
    {
        proof {
            self.lemma_ids_distinct();
        }
        Ok(join_sightings(&self.sightings, &self.reads, &self.participants, Some((start, end))))
    }

    /// Removes every sighting and marks every read as unused again; gives
    /// back how many sightings went.
    pub fn delete_sightings(&mut self) -> (r: Result<usize, DBError>)
        requires
            old(self).wf(),
        ensures
            final(self).wf(),
            same_rows(final(self)@, old(self)@),
            final(self)@.sightings == Seq::<(u64, u64)>::empty(),
            final(self)@.reads == status_reset(old(self)@.reads),
            r matches Ok(n) && n == old(self)@.sightings.len(),
            final(self)@.settings == old(self)@.settings,
            final(self)@.next_id == old(self)@.next_id,
    {
        let n = self.sightings.len();
        let _ = self.reset_reads_status();
        Ok(n)
    }

    /// The reads, and the participants, have ids no two alike.
    proof fn lemma_ids_distinct(&self)
        requires
            self.wf(),
        ensures
            forall|a: int, b: int| 0 <= a < b < self.reads@.len() ==> (#[trigger] self.reads@[a])@.id != (#[trigger] self.reads@[b])@.id,
            forall|a: int, b: int| 0 <= a < b < self.participants@.len() ==> (#[trigger] self.participants@[a])@.id != (#[trigger] self.participants@[b])@.id,
    {
        assert forall|a: int, b: int| 0 <= a < b < self.reads@.len() implies (#[trigger] self.reads@[a])@.id != (#[trigger] self.reads@[b])@.id by {
            assert(read_views(self.reads@)[a] == self.reads@[a]@ && read_views(self.reads@)[b] == self.reads@[b]@);
        }
        assert forall|a: int, b: int| 0 <= a < b < self.participants@.len() implies (#[trigger] self.participants@[a])@.id != (#[trigger] self.participants@[b])@.id by {
            assert(participant_views(self.participants@)[a] == self.participants@[a]@);
            assert(participant_views(self.participants@)[b] == self.participants@[b]@);
        }
    }

    /// Gives the setting `name` the value `value` unless it has one.
    pub fn ensure_setting(&mut self, name: &str, value: String)
        requires
            old(self).wf(),
        ensures
            final(self).wf(),
            same_rows(final(self)@, old(self)@),
            same_sightings(final(self)@, old(self)@),
            final(self)@.settings == fill_setting(old(self)@.settings, name@, value@),
            final(self)@.reads == old(self)@.reads,
            final(self)@.next_id == old(self)@.next_id,
    {
        if self.get_setting(name).is_err() {
            let _ = self.set_setting(&Setting::new(String::from_str(name), value));
        }
    }

    /// Fills in the default of every setting that has no value, naming an
    /// unnamed portal with `suffix`.
    pub fn setup_with(&mut self, suffix: u8)
        requires
            old(self).wf(),
        ensures
            final(self).wf(),
            same_rows(final(self)@, old(self)@),
            same_sightings(final(self)@, old(self)@),
            final(self)@.settings == with_defaults(old(self)@.settings, suffix),
            final(self)@.reads == old(self)@.reads,
            final(self)@.next_id == old(self)@.next_id,
    {
        proof {
            reveal_strlit("");
        }
        let ghost m0 = self@.settings;
        let mut name = String::from_str("Chrono Portal ");
        name.append(decimal(suffix as u128).as_str());
        assert(name@ == "Chrono Portal "@ + numeral(suffix as nat, 10));
        self.ensure_setting(SETTING_PORTAL_NAME, name);
        assert(self@.settings == fill_setting(m0, SETTING_PORTAL_NAME@, "Chrono Portal "@ + numeral(suffix as nat, 10)));
        let ghost m1 = self@.settings;
        self.ensure_setting(SETTING_CHIP_TYPE, String::from_str(DEFAULT_CHIP_TYPE));
        assert(self@.settings == fill_setting(m1, SETTING_CHIP_TYPE@, DEFAULT_CHIP_TYPE@));
        let ghost m2 = self@.settings;
        self.ensure_setting(SETTING_READ_WINDOW, String::from_str("20"));
        assert(self@.settings == fill_setting(m2, SETTING_READ_WINDOW@, "20"@));
        let ghost m3 = self@.settings;
        self.ensure_setting(SETTING_PLAY_SOUND, String::from_str("true"));
        assert(self@.settings == fill_setting(m3, SETTING_PLAY_SOUND@, "true"@));
        let ghost m4 = self@.settings;
        self.ensure_setting(SETTING_VOLUME, String::from_str("1"));
        assert(self@.settings == fill_setting(m4, SETTING_VOLUME@, "1"@));
        let ghost m5 = self@.settings;
        self.ensure_setting(SETTING_VOICE, String::from_str(DEFAULT_VOICE));
        assert(self@.settings == fill_setting(m5, SETTING_VOICE@, DEFAULT_VOICE@));
        let ghost m6 = self@.settings;
        self.ensure_setting(SETTING_AUTO_REMOTE, String::from_str("false"));
        assert(self@.settings == fill_setting(m6, SETTING_AUTO_REMOTE@, "false"@));
        let ghost m7 = self@.settings;
        self.ensure_setting(SETTING_UPLOAD_INTERVAL, String::from_str("5"));
        assert(self@.settings == fill_setting(m7, SETTING_UPLOAD_INTERVAL@, "5"@));
        let ghost m8 = self@.settings;
        self.ensure_setting(SETTING_NTFY_URL, String::from_str(""));
        assert(self@.settings == fill_setting(m8, SETTING_NTFY_URL@, ""@));
        let ghost m9 = self@.settings;
        self.ensure_setting(SETTING_NTFY_USER, String::from_str(""));
        assert(self@.settings == fill_setting(m9, SETTING_NTFY_USER@, ""@));
        let ghost m10 = self@.settings;
        self.ensure_setting(SETTING_NTFY_PASS, String::from_str(""));
        assert(self@.settings == fill_setting(m10, SETTING_NTFY_PASS@, ""@));
        let ghost m11 = self@.settings;
        self.ensure_setting(SETTING_NTFY_TOPIC, String::from_str(""));
        assert(self@.settings == fill_setting(m11, SETTING_NTFY_TOPIC@, ""@));
        let ghost m12 = self@.settings;
        self.ensure_setting(SETTING_ENABLE_NTFY, String::from_str("false"));
        assert(self@.settings == fill_setting(m12, SETTING_ENABLE_NTFY@, "false"@));
        let ghost m13 = self@.settings;
        self.ensure_setting(SETTING_SCREEN_TYPE, String::from_str(DEFAULT_SCREEN_TYPE));
        assert(self@.settings == fill_setting(m13, SETTING_SCREEN_TYPE@, DEFAULT_SCREEN_TYPE@));
    }

    /// Fills in the default of every setting that has no value; an unnamed
    /// portal gets a random number in its name.
    pub fn setup(&mut self) -> (r: Result<(), DBError>)
        requires
            old(self).wf(),
        ensures
            final(self).wf(),
            same_rows(final(self)@, old(self)@),
            same_sightings(final(self)@, old(self)@),
            r is Ok,
            exists|suffix: u8| final(self)@.settings == with_defaults(old(self)@.settings, suffix),
            final(self)@.reads == old(self)@.reads,
            final(self)@.next_id == old(self)@.next_id,
    {
        let suffix = random_byte();
        self.setup_with(suffix);
        Ok(())
    }

    /// The setting named `name`, or `NotFound`.
    pub fn get_setting(&self, name: &str) -> (r: Result<Setting, DBError>)
        requires
            self.wf(),
        ensures
            r is Ok <==> self@.settings.contains_key(name@),
            r matches Ok(s) ==> s@ == (name@, self@.settings[name@]),
            r matches Err(e) ==> e is NotFound,
    {
        let ghost pairs = setting_pairs(self.settings@);
        match self.setting_index(name) {
            Some(i) => {
                proof {
                    assert(names_at(pairs, i as int, name@));
                    let k = choose|k: int| #[trigger] names_at(pairs, k, name@);
                    assert(k == i);
                }
                Ok(self.settings[i].clone())
            },
            None => {
                assert(!settings_map(pairs).contains_key(name@)) by {
                    if named(pairs, name@) {
                        let j = choose|j: int| #[trigger] names_at(pairs, j, name@);
                        assert(pairs[j].0 != name@);
                    }
                }
                Err(DBError::NotFound)
            },
        }
    }
}

} // verus!
