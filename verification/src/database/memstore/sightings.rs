//! The sightings the store keeps: which read was of which participant, each
//! pair at most once, and only between a stored read and a stored
//! participant. A sighting goes when its read or its participant goes.
use vstd::prelude::*;
use crate::objects::read::{Read, ReadView};
use crate::objects::participant::{Participant, ParticipantView};
use crate::objects::sighting::Sighting;
use crate::processor::read_views;
use super::people::participant_views;

verus! {

/// Some read has the id `id`.
pub open spec fn has_read_id(reads: Seq<ReadView>, id: u64) -> bool {
    exists|i: int| 0 <= i < reads.len() && (#[trigger] reads[i]).id == id
}

/// Some participant has the id `id`.
pub open spec fn has_participant_id(ps: Seq<ParticipantView>, id: u64) -> bool {
    exists|i: int| 0 <= i < ps.len() && (#[trigger] ps[i]).id == id
}

/// Every pair names a stored read and a stored participant.
pub open spec fn sightings_refer(rows: Seq<(u64, u64)>, reads: Seq<ReadView>, ps: Seq<ParticipantView>) -> bool {
    forall|i: int| 0 <= i < rows.len() ==> has_read_id(reads, (#[trigger] rows[i]).0) && has_participant_id(ps, rows[i].1)
}

/// The sighting rows name stored reads and participants, each pair once.
pub open spec fn sightings_ok(rows: Seq<(u64, u64)>, reads: Seq<ReadView>, ps: Seq<ParticipantView>) -> bool {
    &&& sightings_refer(rows, reads, ps)
    &&& rows.no_duplicates()
}

/// The rows after saving the pairs `incoming` in order: a pair already kept is skipped.
pub open spec fn sightings_after_save(rows: Seq<(u64, u64)>, incoming: Seq<(u64, u64)>) -> Seq<(u64, u64)>
    decreases incoming.len(),
{
    if incoming.len() == 0 {
        rows
    } else {
        let before = sightings_after_save(rows, incoming.drop_last());
        if before.contains(incoming.last()) { before } else { before.push(incoming.last()) }
    }
}

/// The (read id, participant id) pairs of a list of sightings.
pub open spec fn sighting_pairs(v: Seq<Sighting>) -> Seq<(u64, u64)> {
    v.map_values(|s: Sighting| (s.read@.id, s.participant@.id))
}

/// The read with the id `id`.
pub open spec fn read_with_id(reads: Seq<ReadView>, id: u64) -> ReadView {
    reads[choose|i: int| 0 <= i < reads.len() && (#[trigger] reads[i]).id == id]
}

/// The participant with the id `id`.
pub open spec fn participant_with_id(ps: Seq<ParticipantView>, id: u64) -> ParticipantView {
    ps[choose|i: int| 0 <= i < ps.len() && (#[trigger] ps[i]).id == id]
}

/// What each pair stands for: its participant and its read.
pub open spec fn sightings_joined(rows: Seq<(u64, u64)>, reads: Seq<ReadView>, ps: Seq<ParticipantView>) -> Seq<(ParticipantView, ReadView)> {
    rows.map_values(|x: (u64, u64)| (participant_with_id(ps, x.1), read_with_id(reads, x.0)))
}

/// The participants and reads of a list of sightings.
pub open spec fn sighting_views(v: Seq<Sighting>) -> Seq<(ParticipantView, ReadView)> {
    v.map_values(|s: Sighting| (s.participant@, s.read@))
}

/// The test for pairs whose read is among `reads`.
pub open spec fn read_kept(reads: Seq<ReadView>) -> spec_fn((u64, u64)) -> bool {
    |x: (u64, u64)| has_read_id(reads, x.0)
}

/// The test for pairs whose participant is among `ps`.
pub open spec fn participant_kept(ps: Seq<ParticipantView>) -> spec_fn((u64, u64)) -> bool {
    |x: (u64, u64)| has_participant_id(ps, x.1)
}

/// The test that every pair passes.
pub open spec fn any_pair() -> spec_fn((u64, u64)) -> bool {
    |x: (u64, u64)| true
}

/// The test for pairs whose read's seconds lie in `start..=end`.
pub open spec fn seen_in(reads: Seq<ReadView>, start: i64, end: i64) -> spec_fn((u64, u64)) -> bool {
    |x: (u64, u64)| start <= read_with_id(reads, x.0).seconds && read_with_id(reads, x.0).seconds <= end
}

/// A filter keeps a sequence free of duplicates.
pub proof fn lemma_filter_no_duplicates<A>(s: Seq<A>, p: spec_fn(A) -> bool)
    requires
        s.no_duplicates(),
    ensures
        s.filter(p).no_duplicates(),
    decreases s.len(),
{
    reveal(Seq::filter);
    if s.len() > 0 {
        let pre = s.drop_last();
        assert(pre.no_duplicates());
        lemma_filter_no_duplicates(pre, p);
        if p(s.last()) {
            let f = pre.filter(p);
            assert(s.filter(p) == f.push(s.last()));
            if f.contains(s.last()) {
                pre.lemma_filter_contains_rev(p, s.last());
                let j = choose|j: int| 0 <= j < pre.len() && pre[j] == s.last();
                assert(s[j] == s[s.len() - 1]);
            }
            assert forall|a: int, b: int| 0 <= a < s.filter(p).len() && 0 <= b < s.filter(p).len() && a != b
                implies s.filter(p)[a] != s.filter(p)[b] by {
                if a < f.len() && b < f.len() {
                } else if a == f.len() {
                    assert(f.contains(f[b]));
                } else {
                    assert(f.contains(f[a]));
                }
            }
        }
    }
}

/// A sighting of the read and participant at positions `ri` and `pi`.
fn sighting_at(reads: &Vec<Read>, ri: usize, ps: &Vec<Participant>, pi: usize) -> (s: Sighting)
    requires
        ri < reads@.len(),
        pi < ps@.len(),
    ensures
        s.participant@ == ps@[pi as int]@,
        s.read@ == reads@[ri as int]@,
{
    Sighting { participant: ps[pi].clone(), read: reads[ri].clone() }
}

/// Where the read with the id `id` is kept, if it is.
pub(crate) fn find_read(reads: &Vec<Read>, id: u64) -> (r: Option<usize>)
    ensures
        r matches Some(i) ==> i < reads@.len() && reads@[i as int]@.id == id,
        r is None <==> !has_read_id(read_views(reads@), id),
{
    let mut i: usize = 0;
    while i < reads.len()
        invariant
            i <= reads@.len(),
            forall|j: int| 0 <= j < i ==> (#[trigger] reads@[j])@.id != id,
        decreases reads.len() - i,
    {
        if reads[i].id() == id {
            assert(read_views(reads@)[i as int].id == id);
            return Some(i);
        }
        i = i + 1;
    }
    proof {
        if has_read_id(read_views(reads@), id) {
            let j = choose|j: int| 0 <= j < reads@.len() && (#[trigger] read_views(reads@)[j]).id == id;
            assert(reads@[j]@.id == id);
        }
    }
    None
}

/// Where the participant with the id `id` is kept, if it is.
pub(crate) fn find_participant(ps: &Vec<Participant>, id: u64) -> (r: Option<usize>)
    ensures
        r matches Some(i) ==> i < ps@.len() && ps@[i as int]@.id == id,
        r is None <==> !has_participant_id(participant_views(ps@), id),
{
    let mut i: usize = 0;
    while i < ps.len()
        invariant
            i <= ps@.len(),
            forall|j: int| 0 <= j < i ==> (#[trigger] ps@[j])@.id != id,
        decreases ps.len() - i,
    {
        if ps[i].id() == id {
            assert(participant_views(ps@)[i as int].id == id);
            return Some(i);
        }
        i = i + 1;
    }
    proof {
        if has_participant_id(participant_views(ps@), id) {
            let j = choose|j: int| 0 <= j < ps@.len() && (#[trigger] participant_views(ps@)[j]).id == id;
            assert(ps@[j]@.id == id);
        }
    }
    None
}

/// The rows whose read is among `reads` (or, with `by_participant`, whose
/// participant is among `ps`), in order.
pub(crate) fn keep_sightings(rows: &Vec<(u64, u64)>, reads: &Vec<Read>, ps: &Vec<Participant>, by_participant: bool) -> (kept: Vec<(u64, u64)>)
    ensures
        !by_participant ==> kept@ == rows@.filter(read_kept(read_views(reads@))),
        by_participant ==> kept@ == rows@.filter(participant_kept(participant_views(ps@))),
{
    let ghost pred = if by_participant { participant_kept(participant_views(ps@)) } else { read_kept(read_views(reads@)) };
    let mut kept: Vec<(u64, u64)> = Vec::new();
    let mut i: usize = 0;
    while i < rows.len()
        invariant
            i <= rows@.len(),
            pred == (if by_participant { participant_kept(participant_views(ps@)) } else { read_kept(read_views(reads@)) }),
            kept@ == rows@.subrange(0, i as int).filter(pred),
        decreases rows.len() - i,
    {
        proof {
            reveal(Seq::filter);
            assert(rows@.subrange(0, i + 1).drop_last() =~= rows@.subrange(0, i as int));
        }
        let x = rows[i];
        let keep = if by_participant { find_participant(ps, x.1).is_some() } else { find_read(reads, x.0).is_some() };
        if keep {
            kept.push(x);
        }
        i = i + 1;
    }
    assert(rows@.subrange(0, rows@.len() as int) =~= rows@);
    kept
}

/// Saves the pairs of `incoming` in order, skipping pairs already kept, and
/// gives back how many were added; `None`, with nothing saved, when a
/// sighting names a read or participant that is not stored.
pub(crate) fn save_sighting_rows(rows: &mut Vec<(u64, u64)>, reads: &Vec<Read>, ps: &Vec<Participant>, incoming: &Vec<Sighting>) -> (r: Option<usize>)
    requires
        sightings_ok(old(rows)@, read_views(reads@), participant_views(ps@)),
    ensures
        sightings_ok(final(rows)@, read_views(reads@), participant_views(ps@)),
        sightings_refer(sighting_pairs(incoming@), read_views(reads@), participant_views(ps@)) ==> (r matches Some(n)
            && final(rows)@ == sightings_after_save(old(rows)@, sighting_pairs(incoming@))
            && n == final(rows)@.len() - old(rows)@.len()),
        !sightings_refer(sighting_pairs(incoming@), read_views(reads@), participant_views(ps@)) ==> (r is None
            && final(rows)@ == old(rows)@),
{
    let ghost pairs = sighting_pairs(incoming@);
    let mut k: usize = 0;
    while k < incoming.len()
        invariant
            k <= incoming@.len(),
            pairs == sighting_pairs(incoming@),
            rows@ == old(rows)@,
            sightings_ok(rows@, read_views(reads@), participant_views(ps@)),
            forall|m: int| 0 <= m < k ==> has_read_id(read_views(reads@), (#[trigger] pairs[m]).0)
                && has_participant_id(participant_views(ps@), pairs[m].1),
        decreases incoming.len() - k,
    {
        let rid = incoming[k].read.id();
        let pid = incoming[k].participant.id();
        if find_read(reads, rid).is_none() || find_participant(ps, pid).is_none() {
            assert(pairs[k as int] == (rid, pid));
            return None;
        }
        k = k + 1;
    }
    let ghost start = rows@;
    let mut count: usize = 0;
    let mut i: usize = 0;
    while i < incoming.len()
        invariant
            i <= incoming@.len(),
            pairs == sighting_pairs(incoming@),
            sightings_refer(pairs, read_views(reads@), participant_views(ps@)),
            rows@ == sightings_after_save(start, pairs.subrange(0, i as int)),
            sightings_ok(rows@, read_views(reads@), participant_views(ps@)),
            rows@.len() == start.len() + count,
            count <= i,
        decreases incoming.len() - i,
    {
        let x = (incoming[i].read.id(), incoming[i].participant.id());
        proof {
            assert(pairs.subrange(0, i + 1).drop_last() =~= pairs.subrange(0, i as int));
            assert(pairs[i as int] == x);
        }
        let mut found = false;
        let mut j: usize = 0;
        while j < rows.len()
            invariant
                j <= rows@.len(),
                !found ==> forall|m: int| 0 <= m < j ==> rows@[m] != x,
                found ==> rows@.contains(x),
            decreases rows.len() - j,
        {
            let y = rows[j];
            if y.0 == x.0 && y.1 == x.1 {
                found = true;
            }
            j = j + 1;
        }
        if !found {
            let ghost before = rows@;
            rows.push(x);
            count = count + 1;
            proof {
                assert forall|a: int, b: int| 0 <= a < rows@.len() && 0 <= b < rows@.len() && a != b implies rows@[a] != rows@[b] by {
                    if a == before.len() {
                        assert(!before.contains(x) ==> before[b] != x);
                    } else if b == before.len() {
                        assert(!before.contains(x) ==> before[a] != x);
                    }
                }
            }
        }
        i = i + 1;
    }
    assert(pairs.subrange(0, incoming@.len() as int) =~= pairs);
    Some(count)
}

/// The sightings the rows stand for, each with its participant and its read,
/// in order; with `window`, only those whose read's seconds lie in it.
pub(crate) fn join_sightings(rows: &Vec<(u64, u64)>, reads: &Vec<Read>, ps: &Vec<Participant>, window: Option<(i64, i64)>) -> (r: Vec<Sighting>)
    requires
        sightings_ok(rows@, read_views(reads@), participant_views(ps@)),
        forall|a: int, b: int| 0 <= a < b < reads@.len() ==> (#[trigger] reads@[a])@.id != (#[trigger] reads@[b])@.id,
        forall|a: int, b: int| 0 <= a < b < ps@.len() ==> (#[trigger] ps@[a])@.id != (#[trigger] ps@[b])@.id,
    ensures
        window is None ==> sighting_views(r@) == sightings_joined(rows@, read_views(reads@), participant_views(ps@)),
        window matches Some(w) ==> sighting_views(r@) == sightings_joined(
            rows@.filter(seen_in(read_views(reads@), w.0, w.1)),
            read_views(reads@),
            participant_views(ps@),
        ),
{
    let ghost rv = read_views(reads@);
    let ghost pv = participant_views(ps@);
    let ghost pred = match window { Some(w) => seen_in(rv, w.0, w.1), None => any_pair() };
    proof {
        if window is None {
            lemma_filter_true(rows@, any_pair());
        }
    }
    let mut out: Vec<Sighting> = Vec::new();
    let mut i: usize = 0;
    while i < rows.len()
        invariant
            i <= rows@.len(),
            rv == read_views(reads@),
            pv == participant_views(ps@),
            sightings_ok(rows@, rv, pv),
            forall|a: int, b: int| 0 <= a < b < reads@.len() ==> (#[trigger] reads@[a])@.id != (#[trigger] reads@[b])@.id,
            forall|a: int, b: int| 0 <= a < b < ps@.len() ==> (#[trigger] ps@[a])@.id != (#[trigger] ps@[b])@.id,
            pred == (match window { Some(w) => seen_in(rv, w.0, w.1), None => any_pair() }),
            sighting_views(out@) == sightings_joined(rows@.subrange(0, i as int).filter(pred), rv, pv),
        decreases rows.len() - i,
    {
        proof {
            reveal(Seq::filter);
            assert(rows@.subrange(0, i + 1).drop_last() =~= rows@.subrange(0, i as int));
        }
        let x = rows[i];
        let ri = match find_read(reads, x.0) {
            Some(ri) => ri,
            None => {
                assert(has_read_id(rv, rows@[i as int].0));
                i = i + 1;
                continue;
            },
        };
        let pi = match find_participant(ps, x.1) {
            Some(pi) => pi,
            None => {
                assert(has_participant_id(pv, rows@[i as int].1));
                i = i + 1;
                continue;
            },
        };
        proof {
            let c = choose|c: int| 0 <= c < rv.len() && (#[trigger] rv[c]).id == x.0;
            assert(rv[ri as int].id == x.0);
            if c != ri {
                if c < ri { assert(reads@[c]@.id != reads@[ri as int]@.id); } else { assert(reads@[ri as int]@.id != reads@[c]@.id); }
            }
            assert(read_with_id(rv, x.0) == reads@[ri as int]@);
            let d = choose|d: int| 0 <= d < pv.len() && (#[trigger] pv[d]).id == x.1;
            assert(pv[pi as int].id == x.1);
            if d != pi {
                if d < pi { assert(ps@[d]@.id != ps@[pi as int]@.id); } else { assert(ps@[pi as int]@.id != ps@[d]@.id); }
            }
            assert(participant_with_id(pv, x.1) == ps@[pi as int]@);
        }
        let inside = match window {
            Some(w) => {
                let sec = reads[ri].seconds();
                (w.0 < 0 || (sec as u64) >= (w.0 as u64)) && w.1 >= 0 && sec <= (w.1 as u64)
            },
            None => true,
        };
        assert(inside == pred(x));
        if inside {
            let ghost before = out@;
            let s = sighting_at(reads, ri, ps, pi);
            out.push(s);
            proof {
                let f = rows@.subrange(0, i as int).filter(pred);
                assert(rows@.subrange(0, i + 1).filter(pred) == f.push(x));
                assert(sightings_joined(f.push(x), rv, pv) =~= sightings_joined(f, rv, pv).push((participant_with_id(pv, x.1), read_with_id(rv, x.0))));
                assert(sighting_views(out@) =~= sighting_views(before).push((s.participant@, s.read@)));
            }
        } else {
            assert(rows@.subrange(0, i + 1).filter(pred) == rows@.subrange(0, i as int).filter(pred));
        }
        i = i + 1;
    }
    assert(rows@.subrange(0, rows@.len() as int) =~= rows@);
    out
}

/// A filter that holds of everything gives the sequence back.
proof fn lemma_filter_true<A>(s: Seq<A>, p: spec_fn(A) -> bool)
    requires
        forall|x: A| #[trigger] p(x),
    ensures
        s.filter(p) == s,
    decreases s.len(),
{
    reveal(Seq::filter);
    if s.len() > 0 {
        lemma_filter_true(s.drop_last(), p);
        assert(s.drop_last().push(s.last()) =~= s);
    } else {
        assert(s.filter(p) =~= s);
    }
}

/// Keeping the sightings whose read is still stored keeps them sound.
pub proof fn lemma_read_kept_ok(rows: Seq<(u64, u64)>, reads: Seq<ReadView>, ps: Seq<ParticipantView>, new_reads: Seq<ReadView>)
    requires
        sightings_ok(rows, reads, ps),
    ensures
        sightings_ok(rows.filter(read_kept(new_reads)), new_reads, ps),
{
    let f = rows.filter(read_kept(new_reads));
    assert forall|i: int| 0 <= i < f.len() implies has_read_id(new_reads, (#[trigger] f[i]).0) && has_participant_id(ps, f[i].1) by {
        rows.lemma_filter_pred(read_kept(new_reads), i);
        assert(f.contains(f[i]));
        rows.lemma_filter_contains_rev(read_kept(new_reads), f[i]);
        let j = choose|j: int| 0 <= j < rows.len() && rows[j] == f[i];
        assert(has_participant_id(ps, rows[j].1));
    }
    lemma_filter_no_duplicates(rows, read_kept(new_reads));
}

/// Keeping the sightings whose participant is still stored keeps them sound.
pub proof fn lemma_participant_kept_ok(rows: Seq<(u64, u64)>, reads: Seq<ReadView>, ps: Seq<ParticipantView>, new_ps: Seq<ParticipantView>)
    requires
        sightings_ok(rows, reads, ps),
    ensures
        sightings_ok(rows.filter(participant_kept(new_ps)), reads, new_ps),
{
    let f = rows.filter(participant_kept(new_ps));
    assert forall|i: int| 0 <= i < f.len() implies has_read_id(reads, (#[trigger] f[i]).0) && has_participant_id(new_ps, f[i].1) by {
        rows.lemma_filter_pred(participant_kept(new_ps), i);
        assert(f.contains(f[i]));
        rows.lemma_filter_contains_rev(participant_kept(new_ps), f[i]);
        let j = choose|j: int| 0 <= j < rows.len() && rows[j] == f[i];
        assert(has_read_id(reads, rows[j].0));
    }
    lemma_filter_no_duplicates(rows, participant_kept(new_ps));
}

/// Sightings stay sound when each read keeps its id at its place.
pub proof fn lemma_same_ids_ok(rows: Seq<(u64, u64)>, reads: Seq<ReadView>, ps: Seq<ParticipantView>, new_reads: Seq<ReadView>)
    requires
        sightings_ok(rows, reads, ps),
        new_reads.len() >= reads.len(),
        forall|i: int| 0 <= i < reads.len() ==> (#[trigger] new_reads[i]).id == reads[i].id,
    ensures
        sightings_ok(rows, new_reads, ps),
{
    assert forall|i: int| 0 <= i < rows.len() implies has_read_id(new_reads, (#[trigger] rows[i]).0) && has_participant_id(ps, rows[i].1) by {
        assert(has_read_id(reads, rows[i].0));
        let j = choose|j: int| 0 <= j < reads.len() && (#[trigger] reads[j]).id == rows[i].0;
        assert(new_reads[j].id == rows[i].0);
    }
}

/// A sighting saved is kept afterwards, and what was kept stays kept.
pub proof fn law_saved_sighting_is_kept(rows: Seq<(u64, u64)>, x: (u64, u64))
    ensures
        sightings_after_save(rows, seq![x]).contains(x),
        forall|i: int| 0 <= i < rows.len() ==> sightings_after_save(rows, seq![x]).contains(#[trigger] rows[i]),
{
    let xs = seq![x];
    assert(xs.drop_last() =~= Seq::<(u64, u64)>::empty());
    assert(sightings_after_save(rows, xs.drop_last()) == rows);
    assert(xs.last() == x);
    let after = sightings_after_save(rows, xs);
    if !rows.contains(x) {
        assert(after == rows.push(x));
        assert(after[rows.len() as int] == x);
        assert forall|i: int| 0 <= i < rows.len() implies after.contains(#[trigger] rows[i]) by {
            assert(after[i] == rows[i]);
        }
    } else {
        assert forall|i: int| 0 <= i < rows.len() implies after.contains(#[trigger] rows[i]) by {
            assert(after[i] == rows[i]);
        }
    }
}

} // verus!
