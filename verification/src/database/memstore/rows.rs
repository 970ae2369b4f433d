//! The readers and services the store keeps, with the rules of their tables:
//! ids handed out in increasing order and never reused, and a new entry
//! replacing any that shares its nickname (and, for services, its address and
//! token).
use vstd::prelude::*;
use vstd::string::StringExecFns;
use crate::database::DBError;
use crate::reader::{Reader, ReaderView, fresh_reader, READER_KIND_ZEBRA, READER_KIND_IMPINJ, READER_KIND_RFID};
use crate::network::api::{Api, ApiView, API_TYPE_CHRONOKEEP_REMOTE, API_TYPE_CHRONOKEEP_REMOTE_SELF};
use crate::control::socket::api_views;
use crate::text::str_equal;

verus! {

/// The views of a list of readers.
pub open spec fn reader_views(v: Seq<Reader>) -> Seq<ReaderView> {
    v.map_values(|r: Reader| r@)
}

/// The row kept for reader `r` under `id`: its name, kind, address, port and
/// start-up flag, as a reader not yet connected.
pub open spec fn reader_row(id: i64, r: ReaderView) -> ReaderView {
    fresh_reader(id, r.kind, r.nickname, r.ip_address, r.port, r.auto_connect)
}

/// Reader rows with positive ids, no two alike, no two nicknames alike, all
/// of Zebra readers as a fresh row holds them.
pub open spec fn reader_rows_ok(rows: Seq<ReaderView>) -> bool {
    &&& forall|i: int| 0 <= i < rows.len() ==> {
        &&& 0 < (#[trigger] rows[i]).id
        &&& rows[i] == reader_row(rows[i].id, rows[i])
        &&& rows[i].kind == READER_KIND_ZEBRA@
    }
    &&& forall|i: int, j: int| 0 <= i < j < rows.len() ==> {
        &&& (#[trigger] rows[i]).id != (#[trigger] rows[j]).id
        &&& rows[i].nickname != rows[j].nickname
    }
}

/// The reader rows, with ids at most `last`, the largest id handed out.
pub open spec fn readers_wf(rows: Seq<ReaderView>, last: i64) -> bool {
    &&& last >= 0
    &&& reader_rows_ok(rows)
    &&& forall|i: int| 0 <= i < rows.len() ==> (#[trigger] rows[i]).id <= last
}

/// Some row has the id `id`.
pub open spec fn has_reader_id(rows: Seq<ReaderView>, id: i64) -> bool {
    exists|i: int| 0 <= i < rows.len() && (#[trigger] rows[i]).id == id
}

/// The rows a saved reader `r` leaves in place: those of another name, and its own row.
pub open spec fn reader_kept_beside(r: ReaderView) -> spec_fn(ReaderView) -> bool {
    |x: ReaderView| x.nickname != r.nickname || x.id == r.id
}

/// Row `x`, or the row for `r` where `x` has its id.
pub open spec fn reader_replaced(r: ReaderView) -> spec_fn(ReaderView) -> ReaderView {
    |x: ReaderView| if x.id == r.id { reader_row(r.id, r) } else { x }
}

/// The rows after saving reader `r` with `last` the largest id handed out.
/// A reader with an id updates the row of that id, if there is one, and any
/// other row of its name goes; one without an id is added under the id after
/// `last`, and any row of its name goes.
pub open spec fn readers_after_save(rows: Seq<ReaderView>, r: ReaderView, last: i64) -> Seq<ReaderView> {
    if r.id > 0 {
        if has_reader_id(rows, r.id) {
            rows.filter(reader_kept_beside(r)).map_values(reader_replaced(r))
        } else {
            rows
        }
    } else {
        rows.filter(reader_kept_beside(r)).push(reader_row((last + 1) as i64, r))
    }
}

/// The test for rows of another id than `id`.
pub open spec fn reader_id_not(id: i64) -> spec_fn(ReaderView) -> bool {
    |x: ReaderView| x.id != id
}

/// A kind of service the store takes.
pub open spec fn api_kind_ok(kind: Seq<char>) -> bool {
    kind == API_TYPE_CHRONOKEEP_REMOTE@ || kind == API_TYPE_CHRONOKEEP_REMOTE_SELF@
}

/// Two services clash: they share a nickname, or an address and token.
pub open spec fn apis_clash(a: ApiView, b: ApiView) -> bool {
    a.nickname == b.nickname || (a.uri == b.uri && a.token == b.token)
}

/// Service rows with positive ids, no two alike, no two clashing, all of a
/// kind the store takes.
pub open spec fn api_rows_ok(rows: Seq<ApiView>) -> bool {
    &&& forall|i: int| 0 <= i < rows.len() ==> 0 < (#[trigger] rows[i]).id && api_kind_ok(rows[i].kind)
    &&& forall|i: int, j: int| 0 <= i < j < rows.len() ==> {
        &&& (#[trigger] rows[i]).id != (#[trigger] rows[j]).id
        &&& !apis_clash(rows[i], rows[j])
    }
}

/// The service rows, with ids at most `last`, the largest id handed out.
pub open spec fn apis_wf(rows: Seq<ApiView>, last: i64) -> bool {
    &&& last >= 0
    &&& api_rows_ok(rows)
    &&& forall|i: int| 0 <= i < rows.len() ==> (#[trigger] rows[i]).id <= last
}

/// Some row has the id `id`.
pub open spec fn has_api_id(rows: Seq<ApiView>, id: i64) -> bool {
    exists|i: int| 0 <= i < rows.len() && (#[trigger] rows[i]).id == id
}

/// The rows a saved service `a` leaves in place: its own row, and those it does not clash with.
pub open spec fn api_kept_beside(a: ApiView) -> spec_fn(ApiView) -> bool {
    |x: ApiView| x.id == a.id || !apis_clash(x, a)
}

/// Row `x`, or service `a` where `x` has its id.
pub open spec fn api_replaced(a: ApiView) -> spec_fn(ApiView) -> ApiView {
    |x: ApiView| if x.id == a.id { a } else { x }
}

/// The rows after saving service `a` with `last` the largest id handed out.
/// A service with an id updates the row of that id, if there is one, and the
/// rows it clashes with go; one without an id is added under the id after
/// `last`, and the rows it clashes with go.
pub open spec fn apis_after_save(rows: Seq<ApiView>, a: ApiView, last: i64) -> Seq<ApiView> {
    if a.id > 0 {
        if has_api_id(rows, a.id) {
            rows.filter(api_kept_beside(a)).map_values(api_replaced(a))
        } else {
            rows
        }
    } else {
        rows.filter(api_kept_beside(a)).push(ApiView { id: (last + 1) as i64, ..a })
    }
}

/// The test for rows of another id than `id`.
pub open spec fn api_id_not(id: i64) -> spec_fn(ApiView) -> bool {
    |x: ApiView| x.id != id
}

/// A copy of a stored reader, as a fresh reader with its fields.
fn copy_reader(x: &Reader) -> (r: Reader)
    ensures
        r@ == reader_row(x@.id, x@),
{
    Reader::new_internal(
        x.id(),
        String::from_str(x.kind()),
        String::from_str(x.nickname()),
        String::from_str(x.ip_address()),
        x.port(),
        x.auto_connect(),
    )
}

/// The rows that stay when `reader` is saved, with its own row rewritten.
fn readers_beside(rows: &Vec<Reader>, reader: &Reader) -> (kept: Vec<Reader>)
    requires
        reader_rows_ok(reader_views(rows@)),
        reader@.kind == READER_KIND_ZEBRA@,
        reader@.id > 0 ==> has_reader_id(reader_views(rows@), reader@.id),
    ensures
        reader_views(kept@) == reader_views(rows@).filter(reader_kept_beside(reader@)).map_values(reader_replaced(reader@)),
        forall|k: int| 0 <= k < kept@.len() ==> (#[trigger] kept@[k])@.nickname != reader@.nickname || kept@[k]@.id == reader@.id,
        forall|k: int| 0 <= k < kept@.len() ==> has_reader_id(reader_views(rows@), (#[trigger] kept@[k])@.id),
        reader_rows_ok(reader_views(kept@)),
{
    let ghost all = reader_views(rows@);
    let ghost pred = reader_kept_beside(reader@);
    let ghost f = reader_replaced(reader@);
    let ghost mut src: Seq<int> = Seq::empty();
    let mut kept: Vec<Reader> = Vec::new();
    let mut i: usize = 0;
    while i < rows.len()
        invariant
            i <= rows@.len(),
            all == reader_views(rows@),
            pred == reader_kept_beside(reader@),
            f == reader_replaced(reader@),
            reader_rows_ok(all),
            reader@.kind == READER_KIND_ZEBRA@,
            reader_views(kept@) == all.subrange(0, i as int).filter(pred).map_values(f),
            src.len() == kept@.len(),
            forall|k: int| 0 <= k < src.len() ==> 0 <= #[trigger] src[k] < i && pred(all[src[k]]) && kept@[k]@ == f(all[src[k]]),
            forall|a: int, b: int| 0 <= a < b < src.len() ==> #[trigger] src[a] < #[trigger] src[b],
        decreases rows.len() - i,
    {
        proof {
            reveal(Seq::filter);
            assert(all.subrange(0, i + 1).drop_last() =~= all.subrange(0, i as int));
        }
        let x = &rows[i];
        let same_name = str_equal(x.nickname(), reader.nickname());
        if !same_name || x.id() == reader.id() {
            let c = if x.id() == reader.id() {
                Reader::new_internal(
                    reader.id(),
                    String::from_str(reader.kind()),
                    String::from_str(reader.nickname()),
                    String::from_str(reader.ip_address()),
                    reader.port(),
                    reader.auto_connect(),
                )
            } else {
                copy_reader(x)
            };
            assert(c@ == f(all[i as int]));
            let ghost before = kept@;
            kept.push(c);
            proof {
                assert(all.subrange(0, i + 1).filter(pred) == all.subrange(0, i as int).filter(pred).push(all[i as int]));
                assert(reader_views(kept@) =~= reader_views(before).push(c@));
                assert(all.subrange(0, i as int).filter(pred).push(all[i as int]).map_values(f) =~= all.subrange(
                    0,
                    i as int,
                ).filter(pred).map_values(f).push(f(all[i as int])));
                assert(reader_views(kept@) =~= all.subrange(0, i + 1).filter(pred).map_values(f));
                src = src.push(i as int);
                assert forall|k: int| 0 <= k < src.len() implies 0 <= #[trigger] src[k] < i + 1 && pred(all[src[k]])
                    && kept@[k]@ == f(all[src[k]]) by {
                    if k < before.len() {
                        assert(kept@[k] == before[k]);
                    }
                }
            }
        } else {
            proof {
                assert(all.subrange(0, i + 1).filter(pred) == all.subrange(0, i as int).filter(pred));
            }
        }
        i = i + 1;
    }
    assert(all.subrange(0, rows@.len() as int) =~= all);
    let ghost kv = reader_views(kept@);
    assert forall|k: int| 0 <= k < kept@.len() implies (#[trigger] kept@[k])@.nickname != reader@.nickname
        || kept@[k]@.id == reader@.id by {
        assert(pred(all[src[k]]));
    }
    assert forall|k: int| 0 <= k < kept@.len() implies has_reader_id(all, (#[trigger] kept@[k])@.id) by {
        assert(all[src[k]].id == kept@[k]@.id);
    }
    assert forall|k: int| 0 <= k < kv.len() implies {
        &&& 0 < (#[trigger] kv[k]).id
        &&& kv[k] == reader_row(kv[k].id, kv[k])
        &&& kv[k].kind == READER_KIND_ZEBRA@
    } by {
        assert(kv[k] == kept@[k]@);
        assert(0 < all[src[k]].id);
    }
    assert forall|a: int, b: int| 0 <= a < b < kv.len() implies (#[trigger] kv[a]).id != (#[trigger] kv[b]).id
        && kv[a].nickname != kv[b].nickname by {
        assert(kv[a] == kept@[a]@ && kv[b] == kept@[b]@);
        assert(src[a] < src[b]);
        assert(all[src[a]].id != all[src[b]].id);
        assert(all[src[a]].nickname != all[src[b]].nickname);
        assert(pred(all[src[a]]) && pred(all[src[b]]));
    }
    kept
}

/// Whether some row has the id `id`.
fn find_reader_id(rows: &Vec<Reader>, id: i64) -> (r: Option<usize>)
    ensures
        r matches Some(i) ==> i < rows@.len() && rows@[i as int]@.id == id,
        r is None <==> !has_reader_id(reader_views(rows@), id),
{
    let mut i: usize = 0;
    while i < rows.len()
        invariant
            i <= rows@.len(),
            forall|j: int| 0 <= j < i ==> (#[trigger] rows@[j])@.id != id,
        decreases rows.len() - i,
    {
        if rows[i].id() == id {
            assert(reader_views(rows@)[i as int].id == id);
            return Some(i);
        }
        i = i + 1;
    }
    proof {
        if has_reader_id(reader_views(rows@), id) {
            let j = choose|j: int| 0 <= j < rows@.len() && (#[trigger] reader_views(rows@)[j]).id == id;
            assert(rows@[j]@.id == id);
        }
    }
    None
}

/// Saves a reader row by the rules of the readers table, and gives back its id.
pub(crate) fn save_reader_row(rows: &mut Vec<Reader>, last: &mut i64, reader: &Reader) -> (r: Result<i64, DBError>)
    requires
        readers_wf(reader_views(old(rows)@), *old(last)),
    ensures
        readers_wf(reader_views(final(rows)@), *final(last)),
        reader@.kind == READER_KIND_ZEBRA@ && (reader@.id > 0 || *old(last) < i64::MAX) ==> {
            &&& r matches Ok(i) && i == (if reader@.id > 0 { reader@.id as int } else { *old(last) + 1 })
            &&& reader_views(final(rows)@) == readers_after_save(reader_views(old(rows)@), reader@, *old(last))
            &&& *final(last) == (if reader@.id > 0 { *old(last) as int } else { *old(last) + 1 })
        },
        reader@.kind == READER_KIND_ZEBRA@ && reader@.id <= 0 && *old(last) == i64::MAX ==> (r matches Err(
            DBError::DataInsertionError(m),
        ) && m@ == "database or disk is full"@),
        (reader@.kind == READER_KIND_IMPINJ@ || reader@.kind == READER_KIND_RFID@) ==> (r matches Err(
            DBError::DataInsertionError(m),
        ) && m@ == "not yet implemented"@),
        !(reader@.kind == READER_KIND_ZEBRA@ || reader@.kind == READER_KIND_IMPINJ@ || reader@.kind
            == READER_KIND_RFID@) ==> (r matches Err(DBError::DataInsertionError(m)) && m@
            == "unknown reader kind specified"@),
        r is Err ==> final(rows)@ == old(rows)@ && *final(last) == *old(last),
{
    proof {
        reveal_strlit("ZEBRA");
        reveal_strlit("IMPINJ");
        reveal_strlit("RFID");
        assert(READER_KIND_ZEBRA@[0] != READER_KIND_IMPINJ@[0]);
        assert(READER_KIND_ZEBRA@[0] != READER_KIND_RFID@[0]);
    }
    if !str_equal(reader.kind(), READER_KIND_ZEBRA) {
        if str_equal(reader.kind(), READER_KIND_IMPINJ) || str_equal(reader.kind(), READER_KIND_RFID) {
            return Err(DBError::DataInsertionError(String::from_str("not yet implemented")));
        }
        return Err(DBError::DataInsertionError(String::from_str("unknown reader kind specified")));
    }
    let ghost start = reader_views(rows@);
    let id = reader.id();
    if id > 0 {
        if find_reader_id(rows, id).is_none() {
            return Ok(id);
        }
        let kept = readers_beside(rows, reader);
        *rows = kept;
        proof {
            assert forall|i: int| 0 <= i < reader_views(rows@).len() implies (#[trigger] reader_views(rows@)[i]).id <= *last by {
                let j = choose|j: int| 0 <= j < start.len() && (#[trigger] start[j]).id == rows@[i]@.id;
            }
        }
        Ok(id)
    } else {
        if *last == i64::MAX {
            return Err(DBError::DataInsertionError(String::from_str("database or disk is full")));
        }
        let mut kept = readers_beside(rows, reader);
        let new_id = *last + 1;
        proof {
            let fv = start.filter(reader_kept_beside(reader@));
            assert forall|i: int| 0 <= i < fv.len() implies reader_replaced(reader@)(fv[i]) == fv[i] by {
                assert(fv[i].id > 0) by {
                    assert(fv.contains(fv[i]));
                    start.lemma_filter_contains_rev(reader_kept_beside(reader@), fv[i]);
                    let j = choose|j: int| 0 <= j < start.len() && start[j] == fv[i];
                }
            }
            assert(fv.map_values(reader_replaced(reader@)) =~= fv);
        }
        let ghost before = kept@;
        kept.push(Reader::new_internal(
            new_id,
            String::from_str(reader.kind()),
            String::from_str(reader.nickname()),
            String::from_str(reader.ip_address()),
            reader.port(),
            reader.auto_connect(),
        ));
        assert(reader_views(kept@) =~= reader_views(before).push(reader_row(new_id, reader@)));
        proof {
            let kv = reader_views(kept@);
            assert forall|i: int| 0 <= i < kv.len() implies (#[trigger] kv[i]).id <= new_id by {
                if i < before.len() {
                    assert(kv[i] == before[i]@);
                    let j = choose|j: int| 0 <= j < start.len() && (#[trigger] start[j]).id == before[i]@.id;
                }
            }
            assert forall|a: int, b: int| 0 <= a < b < kv.len() implies (#[trigger] kv[a]).id != (#[trigger] kv[b]).id
                && kv[a].nickname != kv[b].nickname by {
                if b == before.len() {
                    assert(kv[a] == before[a]@);
                    let j = choose|j: int| 0 <= j < start.len() && (#[trigger] start[j]).id == before[a]@.id;
                    assert(before[a]@.nickname != reader@.nickname || before[a]@.id == reader@.id);
                } else {
                    assert(kv[a] == reader_views(before)[a] && kv[b] == reader_views(before)[b]);
                }
            }
        }
        *rows = kept;
        *last = new_id;
        Ok(new_id)
    }
}

/// A copy of the row with the id `id`, or `NotFound`.
pub(crate) fn get_reader_row(rows: &Vec<Reader>, id: i64) -> (r: Result<Reader, DBError>)
    requires
        reader_rows_ok(reader_views(rows@)),
    ensures
        has_reader_id(reader_views(rows@), id) ==> (r matches Ok(x) && exists|i: int|
            0 <= i < rows@.len() && rows@[i]@.id == id && x@ == #[trigger] rows@[i]@),
        !has_reader_id(reader_views(rows@), id) ==> (r matches Err(e) && e is NotFound),
{
    match find_reader_id(rows, id) {
        Some(i) => {
            let x = copy_reader(&rows[i]);
            assert(reader_views(rows@)[i as int] == rows@[i as int]@);
            Ok(x)
        },
        None => Err(DBError::NotFound),
    }
}

/// Copies of all the rows, in order.
pub(crate) fn copy_reader_rows(rows: &Vec<Reader>) -> (r: Vec<Reader>)
    requires
        reader_rows_ok(reader_views(rows@)),
    ensures
        reader_views(r@) == reader_views(rows@),
{
    let mut out: Vec<Reader> = Vec::new();
    let mut i: usize = 0;
    while i < rows.len()
        invariant
            i <= rows@.len(),
            reader_rows_ok(reader_views(rows@)),
            out@.len() == i,
            forall|j: int| 0 <= j < i ==> (#[trigger] out@[j])@ == rows@[j]@,
        decreases rows.len() - i,
    {
        let c = copy_reader(&rows[i]);
        assert(reader_views(rows@)[i as int] == rows@[i as int]@);
        out.push(c);
        i = i + 1;
    }
    assert(reader_views(out@) =~= reader_views(rows@));
    out
}

/// Removes the row with the id `id`, and gives back how many went.
pub(crate) fn delete_reader_row(rows: &mut Vec<Reader>, id: i64) -> (n: usize)
    requires
        reader_rows_ok(reader_views(old(rows)@)),
    ensures
        reader_views(final(rows)@) == reader_views(old(rows)@).filter(reader_id_not(id)),
        n == old(rows)@.len() - final(rows)@.len(),
        n == (if has_reader_id(reader_views(old(rows)@), id) { 1int } else { 0int }),
        reader_rows_ok(reader_views(final(rows)@)),
{
    match find_reader_id(rows, id) {
        None => {
            proof {
                let all = reader_views(rows@);
                assert(all.filter(reader_id_not(id)) =~= all) by {
                    reveal(Seq::filter);
                    assert forall|j: int| 0 <= j < all.len() implies reader_id_not(id)(all[j]) by {
                        assert(all[j] == rows@[j]@);
                    }
                    lemma_filter_all(all, reader_id_not(id));
                }
            }
            0
        },
        Some(i) => {
            let ghost all = reader_views(rows@);
            let _ = rows.remove(i);
            proof {
                assert(reader_views(rows@) =~= all.remove(i as int));
                lemma_filter_one_out(all, i as int, id);
                assert forall|a: int, b: int| 0 <= a < b < reader_views(rows@).len() implies (#[trigger] reader_views(rows@)[a]).id
                    != (#[trigger] reader_views(rows@)[b]).id && reader_views(rows@)[a].nickname != reader_views(rows@)[b].nickname by {
                    let aa = if a < i { a } else { a + 1 };
                    let bb = if b < i { b } else { b + 1 };
                    assert(reader_views(rows@)[a] == all[aa] && reader_views(rows@)[b] == all[bb]);
                }
                assert forall|k: int| 0 <= k < reader_views(rows@).len() implies {
                    &&& 0 < (#[trigger] reader_views(rows@)[k]).id
                    &&& reader_views(rows@)[k] == reader_row(reader_views(rows@)[k].id, reader_views(rows@)[k])
                    &&& reader_views(rows@)[k].kind == READER_KIND_ZEBRA@
                } by {
                    let kk = if k < i { k } else { k + 1 };
                    assert(reader_views(rows@)[k] == all[kk]);
                }
            }
            1
        },
    }
}

/// A filter that keeps every element gives the sequence back.
proof fn lemma_filter_all<A>(s: Seq<A>, pred: spec_fn(A) -> bool)
    requires
        forall|j: int| 0 <= j < s.len() ==> pred(s[j]),
    ensures
        s.filter(pred) == s,
    decreases s.len(),
{
    reveal(Seq::filter);
    if s.len() > 0 {
        lemma_filter_all(s.drop_last(), pred);
        assert(s.drop_last().push(s.last()) =~= s);
    } else {
        assert(s.filter(pred) =~= s);
    }
}

/// Filtering out an id that only row `i` has removes just that row.
proof fn lemma_filter_one_out(s: Seq<ReaderView>, i: int, id: i64)
    requires
        0 <= i < s.len(),
        s[i].id == id,
        forall|a: int, b: int| 0 <= a < b < s.len() ==> (#[trigger] s[a]).id != (#[trigger] s[b]).id,
    ensures
        s.filter(reader_id_not(id)) == s.remove(i),
    decreases s.len(),
{
    reveal(Seq::filter);
    let p = reader_id_not(id);
    if i == s.len() - 1 {
        assert forall|j: int| 0 <= j < s.drop_last().len() implies p(s.drop_last()[j]) by {
            assert(s[j].id != s[i].id);
        }
        lemma_filter_all(s.drop_last(), p);
        assert(s.remove(i) =~= s.drop_last());
    } else {
        lemma_filter_one_out(s.drop_last(), i, id);
        assert(s[s.len() - 1].id != s[i].id);
        assert(s.remove(i) =~= s.drop_last().remove(i).push(s.last()));
    }
}

/// Whether some service row has the id `id`.
fn find_api_id(rows: &Vec<Api>, id: i64) -> (r: Option<usize>)
    ensures
        r matches Some(i) ==> i < rows@.len() && rows@[i as int]@.id == id,
        r is None <==> !has_api_id(api_views(rows@), id),
{
    let mut i: usize = 0;
    while i < rows.len()
        invariant
            i <= rows@.len(),
            forall|j: int| 0 <= j < i ==> (#[trigger] rows@[j])@.id != id,
        decreases rows.len() - i,
    {
        if rows[i].id() == id {
            assert(api_views(rows@)[i as int].id == id);
            return Some(i);
        }
        i = i + 1;
    }
    proof {
        if has_api_id(api_views(rows@), id) {
            let j = choose|j: int| 0 <= j < rows@.len() && (#[trigger] api_views(rows@)[j]).id == id;
            assert(rows@[j]@.id == id);
        }
    }
    None
}

/// Whether two services clash.
fn clash(x: &Api, a: &Api) -> (r: bool)
    ensures
        r == apis_clash(x@, a@),
{
    str_equal(x.nickname(), a.nickname()) || (str_equal(x.uri(), a.uri()) && str_equal(x.token(), a.token()))
}

/// The service rows that stay when `api` is saved, with its own row rewritten.
fn apis_beside(rows: &Vec<Api>, api: &Api) -> (kept: Vec<Api>)
    requires
        api_rows_ok(api_views(rows@)),
        api_kind_ok(api@.kind),
    ensures
        api_views(kept@) == api_views(rows@).filter(api_kept_beside(api@)).map_values(api_replaced(api@)),
        forall|k: int| 0 <= k < kept@.len() ==> (#[trigger] kept@[k])@.id == api@.id || !apis_clash(kept@[k]@, api@),
        forall|k: int| 0 <= k < kept@.len() ==> has_api_id(api_views(rows@), (#[trigger] kept@[k])@.id),
        api_rows_ok(api_views(kept@)),
{
    let ghost all = api_views(rows@);
    let ghost pred = api_kept_beside(api@);
    let ghost f = api_replaced(api@);
    let ghost mut src: Seq<int> = Seq::empty();
    let mut kept: Vec<Api> = Vec::new();
    let mut i: usize = 0;
    while i < rows.len()
        invariant
            i <= rows@.len(),
            all == api_views(rows@),
            pred == api_kept_beside(api@),
            f == api_replaced(api@),
            api_rows_ok(all),
            api_kind_ok(api@.kind),
            api_views(kept@) == all.subrange(0, i as int).filter(pred).map_values(f),
            src.len() == kept@.len(),
            forall|k: int| 0 <= k < src.len() ==> 0 <= #[trigger] src[k] < i && pred(all[src[k]]) && kept@[k]@ == f(all[src[k]]),
            forall|a: int, b: int| 0 <= a < b < src.len() ==> #[trigger] src[a] < #[trigger] src[b],
        decreases rows.len() - i,
    {
        proof {
            reveal(Seq::filter);
            assert(all.subrange(0, i + 1).drop_last() =~= all.subrange(0, i as int));
        }
        let x = &rows[i];
        if x.id() == api.id() || !clash(x, api) {
            let c = if x.id() == api.id() { api.clone() } else { x.clone() };
            assert(c@ == f(all[i as int]));
            let ghost before = kept@;
            kept.push(c);
            proof {
                assert(all.subrange(0, i + 1).filter(pred) == all.subrange(0, i as int).filter(pred).push(all[i as int]));
                assert(api_views(kept@) =~= api_views(before).push(c@));
                assert(all.subrange(0, i as int).filter(pred).push(all[i as int]).map_values(f) =~= all.subrange(
                    0,
                    i as int,
                ).filter(pred).map_values(f).push(f(all[i as int])));
                assert(api_views(kept@) =~= all.subrange(0, i + 1).filter(pred).map_values(f));
                src = src.push(i as int);
                assert forall|k: int| 0 <= k < src.len() implies 0 <= #[trigger] src[k] < i + 1 && pred(all[src[k]])
                    && kept@[k]@ == f(all[src[k]]) by {
                    if k < before.len() {
                        assert(kept@[k] == before[k]);
                    }
                }
            }
        } else {
            proof {
                assert(all.subrange(0, i + 1).filter(pred) == all.subrange(0, i as int).filter(pred));
            }
        }
        i = i + 1;
    }
    assert(all.subrange(0, rows@.len() as int) =~= all);
    let ghost kv = api_views(kept@);
    assert forall|k: int| 0 <= k < kept@.len() implies (#[trigger] kept@[k])@.id == api@.id || !apis_clash(kept@[k]@, api@) by {
        assert(pred(all[src[k]]));
    }
    assert forall|k: int| 0 <= k < kept@.len() implies has_api_id(all, (#[trigger] kept@[k])@.id) by {
        assert(all[src[k]].id == kept@[k]@.id);
    }
    assert forall|k: int| 0 <= k < kv.len() implies 0 < (#[trigger] kv[k]).id && api_kind_ok(kv[k].kind) by {
        assert(kv[k] == kept@[k]@);
        assert(0 < all[src[k]].id);
    }
    assert forall|a: int, b: int| 0 <= a < b < kv.len() implies {
        &&& (#[trigger] kv[a]).id != (#[trigger] kv[b]).id
        &&& !apis_clash(kv[a], kv[b])
    } by {
        assert(kv[a] == kept@[a]@ && kv[b] == kept@[b]@);
        assert(src[a] < src[b]);
        assert(all[src[a]].id != all[src[b]].id);
        assert(!apis_clash(all[src[a]], all[src[b]]));
        assert(pred(all[src[a]]) && pred(all[src[b]]));
    }
    kept
}

/// Saves a service row by the rules of the services table, and gives back its id.
pub(crate) fn save_api_row(rows: &mut Vec<Api>, last: &mut i64, api: &Api) -> (r: Result<i64, DBError>)
    requires
        apis_wf(api_views(old(rows)@), *old(last)),
    ensures
        apis_wf(api_views(final(rows)@), *final(last)),
        api_kind_ok(api@.kind) && (api@.id > 0 || *old(last) < i64::MAX) ==> {
            &&& r matches Ok(i) && i == (if api@.id > 0 { api@.id as int } else { *old(last) + 1 })
            &&& api_views(final(rows)@) == apis_after_save(api_views(old(rows)@), api@, *old(last))
            &&& *final(last) == (if api@.id > 0 { *old(last) as int } else { *old(last) + 1 })
        },
        api_kind_ok(api@.kind) && api@.id <= 0 && *old(last) == i64::MAX ==> (r matches Err(
            DBError::DataInsertionError(m),
        ) && m@ == "database or disk is full"@),
        !api_kind_ok(api@.kind) ==> (r matches Err(DBError::DataInsertionError(m)) && m@
            == "invalid kind specified"@),
        r is Err ==> final(rows)@ == old(rows)@ && *final(last) == *old(last),
{
    if !(str_equal(api.kind(), API_TYPE_CHRONOKEEP_REMOTE) || str_equal(api.kind(), API_TYPE_CHRONOKEEP_REMOTE_SELF)) {
        return Err(DBError::DataInsertionError(String::from_str("invalid kind specified")));
    }
    let ghost start = api_views(rows@);
    let id = api.id();
    if id > 0 {
        if find_api_id(rows, id).is_none() {
            return Ok(id);
        }
        let kept = apis_beside(rows, api);
        *rows = kept;
        proof {
            assert forall|i: int| 0 <= i < api_views(rows@).len() implies (#[trigger] api_views(rows@)[i]).id <= *last by {
                let j = choose|j: int| 0 <= j < start.len() && (#[trigger] start[j]).id == rows@[i]@.id;
            }
        }
        Ok(id)
    } else {
        if *last == i64::MAX {
            return Err(DBError::DataInsertionError(String::from_str("database or disk is full")));
        }
        let mut kept = apis_beside(rows, api);
        let new_id = *last + 1;
        proof {
            let fv = start.filter(api_kept_beside(api@));
            assert forall|i: int| 0 <= i < fv.len() implies api_replaced(api@)(fv[i]) == fv[i] by {
                assert(fv[i].id > 0) by {
                    assert(fv.contains(fv[i]));
                    start.lemma_filter_contains_rev(api_kept_beside(api@), fv[i]);
                    let j = choose|j: int| 0 <= j < start.len() && start[j] == fv[i];
                }
            }
            assert(fv.map_values(api_replaced(api@)) =~= fv);
        }
        let ghost before = kept@;
        let fresh = Api::new(
            new_id,
            String::from_str(api.nickname()),
            String::from_str(api.kind()),
            String::from_str(api.token()),
            String::from_str(api.uri()),
        );
        kept.push(fresh);
        assert(api_views(kept@) =~= api_views(before).push(ApiView { id: new_id, ..api@ }));
        proof {
            let kv = api_views(kept@);
            assert forall|i: int| 0 <= i < kv.len() implies (#[trigger] kv[i]).id <= new_id by {
                if i < before.len() {
                    assert(kv[i] == before[i]@);
                    let j = choose|j: int| 0 <= j < start.len() && (#[trigger] start[j]).id == before[i]@.id;
                }
            }
            assert forall|a: int, b: int| 0 <= a < b < kv.len() implies {
                &&& (#[trigger] kv[a]).id != (#[trigger] kv[b]).id
                &&& !apis_clash(kv[a], kv[b])
            } by {
                if b == before.len() {
                    assert(kv[a] == before[a]@);
                    let j = choose|j: int| 0 <= j < start.len() && (#[trigger] start[j]).id == before[a]@.id;
                    assert(before[a]@.id == api@.id || !apis_clash(before[a]@, api@));
                } else {
                    assert(kv[a] == api_views(before)[a] && kv[b] == api_views(before)[b]);
                }
            }
        }
        *rows = kept;
        *last = new_id;
        Ok(new_id)
    }
}

/// Copies of all the service rows, in order.
pub(crate) fn copy_api_rows(rows: &Vec<Api>) -> (r: Vec<Api>)
    ensures
        api_views(r@) == api_views(rows@),
{
    let mut out: Vec<Api> = Vec::new();
    let mut i: usize = 0;
    while i < rows.len()
        invariant
            i <= rows@.len(),
            out@.len() == i,
            forall|j: int| 0 <= j < i ==> (#[trigger] out@[j])@ == rows@[j]@,
        decreases rows.len() - i,
    {
        out.push(rows[i].clone());
        i = i + 1;
    }
    assert(api_views(out@) =~= api_views(rows@));
    out
}

/// Filtering out an id that only service row `i` has removes just that row.
proof fn lemma_api_filter_one_out(s: Seq<ApiView>, i: int, id: i64)
    requires
        0 <= i < s.len(),
        s[i].id == id,
        forall|a: int, b: int| 0 <= a < b < s.len() ==> (#[trigger] s[a]).id != (#[trigger] s[b]).id,
    ensures
        s.filter(api_id_not(id)) == s.remove(i),
    decreases s.len(),
{
    reveal(Seq::filter);
    let p = api_id_not(id);
    if i == s.len() - 1 {
        assert forall|j: int| 0 <= j < s.drop_last().len() implies p(s.drop_last()[j]) by {
            assert(s[j].id != s[i].id);
        }
        lemma_filter_all(s.drop_last(), p);
        assert(s.remove(i) =~= s.drop_last());
    } else {
        lemma_api_filter_one_out(s.drop_last(), i, id);
        assert(s[s.len() - 1].id != s[i].id);
        assert(s.remove(i) =~= s.drop_last().remove(i).push(s.last()));
    }
}

/// Removes the service row with the id `id`, and gives back how many went.
pub(crate) fn delete_api_row(rows: &mut Vec<Api>, id: i64) -> (n: usize)
    requires
        api_rows_ok(api_views(old(rows)@)),
    ensures
        api_views(final(rows)@) == api_views(old(rows)@).filter(api_id_not(id)),
        n == old(rows)@.len() - final(rows)@.len(),
        n == (if has_api_id(api_views(old(rows)@), id) { 1int } else { 0int }),
        api_rows_ok(api_views(final(rows)@)),
{
    match find_api_id(rows, id) {
        None => {
            proof {
                let all = api_views(rows@);
                assert(all.filter(api_id_not(id)) =~= all) by {
                    assert forall|j: int| 0 <= j < all.len() implies api_id_not(id)(all[j]) by {
                        assert(all[j] == rows@[j]@);
                    }
                    lemma_filter_all(all, api_id_not(id));
                }
            }
            0
        },
        Some(i) => {
            let ghost all = api_views(rows@);
            let _ = rows.remove(i);
            proof {
                assert(api_views(rows@) =~= all.remove(i as int));
                lemma_api_filter_one_out(all, i as int, id);
                let v = api_views(rows@);
                assert forall|a: int, b: int| 0 <= a < b < v.len() implies {
                    &&& (#[trigger] v[a]).id != (#[trigger] v[b]).id
                    &&& !apis_clash(v[a], v[b])
                } by {
                    let aa = if a < i { a } else { a + 1 };
                    let bb = if b < i { b } else { b + 1 };
                    assert(v[a] == all[aa] && v[b] == all[bb]);
                }
                assert forall|k: int| 0 <= k < v.len() implies 0 < (#[trigger] v[k]).id && api_kind_ok(v[k].kind) by {
                    let kk = if k < i { k } else { k + 1 };
                    assert(v[k] == all[kk]);
                }
            }
            1
        },
    }
}

/// A reader saved without an id is kept, as saved, under the id after the
/// last one handed out, and no other reader keeps its nickname.
pub proof fn law_new_reader_reads_back(rows: Seq<ReaderView>, r: ReaderView, last: i64)
    requires
        readers_wf(rows, last),
        r.id <= 0,
        last < i64::MAX,
    ensures
        readers_after_save(rows, r, last).last() == reader_row((last + 1) as i64, r),
        has_reader_id(readers_after_save(rows, r, last), (last + 1) as i64),
        forall|i: int| 0 <= i < readers_after_save(rows, r, last).len() - 1 ==>
            (#[trigger] readers_after_save(rows, r, last)[i]).nickname != r.nickname,
{
    let after = readers_after_save(rows, r, last);
    let fv = rows.filter(reader_kept_beside(r));
    assert(after == fv.push(reader_row((last + 1) as i64, r)));
    assert(after[after.len() - 1].id == last + 1);
    assert forall|i: int| 0 <= i < after.len() - 1 implies (#[trigger] after[i]).nickname != r.nickname by {
        assert(after[i] == fv[i]);
        rows.lemma_filter_pred(reader_kept_beside(r), i);
        assert(fv.contains(fv[i]));
        rows.lemma_filter_contains_rev(reader_kept_beside(r), fv[i]);
    }
}

/// A reader saved with the id of a stored reader takes that reader's place,
/// and no other reader keeps its nickname.
pub proof fn law_updated_reader_reads_back(rows: Seq<ReaderView>, r: ReaderView, last: i64)
    requires
        readers_wf(rows, last),
        r.id > 0,
        has_reader_id(rows, r.id),
    ensures
        exists|i: int| 0 <= i < readers_after_save(rows, r, last).len()
            && #[trigger] readers_after_save(rows, r, last)[i] == reader_row(r.id, r),
        forall|i: int| 0 <= i < readers_after_save(rows, r, last).len()
            && (#[trigger] readers_after_save(rows, r, last)[i]).nickname == r.nickname ==> readers_after_save(rows, r, last)[i].id == r.id,
{
    let after = readers_after_save(rows, r, last);
    let pred = reader_kept_beside(r);
    let fv = rows.filter(pred);
    assert(after == fv.map_values(reader_replaced(r)));
    let j = choose|j: int| 0 <= j < rows.len() && (#[trigger] rows[j]).id == r.id;
    assert(pred(rows[j]));
    rows.lemma_filter_contains(pred, j);
    let k = choose|k: int| 0 <= k < fv.len() && fv[k] == rows[j];
    assert(after[k] == reader_row(r.id, r));
    assert forall|i: int| 0 <= i < after.len() && (#[trigger] after[i]).nickname == r.nickname implies after[i].id == r.id by {
        rows.lemma_filter_pred(pred, i);
    }
}

/// A reader deleted by id is no longer kept.
pub proof fn law_deleted_reader_is_gone(rows: Seq<ReaderView>, id: i64)
    ensures
        !has_reader_id(rows.filter(reader_id_not(id)), id),
{
    let fv = rows.filter(reader_id_not(id));
    if has_reader_id(fv, id) {
        let i = choose|i: int| 0 <= i < fv.len() && (#[trigger] fv[i]).id == id;
        rows.lemma_filter_pred(reader_id_not(id), i);
    }
}

/// A service saved without an id is kept, as saved, under the id after the
/// last one handed out, and no other service shares its nickname, or its
/// address and token.
pub proof fn law_new_api_reads_back(rows: Seq<ApiView>, a: ApiView, last: i64)
    requires
        apis_wf(rows, last),
        a.id <= 0,
        last < i64::MAX,
    ensures
        apis_after_save(rows, a, last).last() == (ApiView { id: (last + 1) as i64, ..a }),
        forall|i: int| 0 <= i < apis_after_save(rows, a, last).len() - 1 ==>
            !apis_clash(#[trigger] apis_after_save(rows, a, last)[i], a),
{
    let after = apis_after_save(rows, a, last);
    let fv = rows.filter(api_kept_beside(a));
    assert(after == fv.push(ApiView { id: (last + 1) as i64, ..a }));
    assert forall|i: int| 0 <= i < after.len() - 1 implies !apis_clash(#[trigger] after[i], a) by {
        assert(after[i] == fv[i]);
        rows.lemma_filter_pred(api_kept_beside(a), i);
        assert(fv.contains(fv[i]));
        rows.lemma_filter_contains_rev(api_kept_beside(a), fv[i]);
    }
}

/// A service deleted by id is no longer kept.
pub proof fn law_deleted_api_is_gone(rows: Seq<ApiView>, id: i64)
    ensures
        !has_api_id(rows.filter(api_id_not(id)), id),
{
    let fv = rows.filter(api_id_not(id));
    if has_api_id(fv, id) {
        let i = choose|i: int| 0 <= i < fv.len() && (#[trigger] fv[i]).id == id;
        rows.lemma_filter_pred(api_id_not(id), i);
    }
}

} // verus!
