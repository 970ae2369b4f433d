//! The participants and the bib to chip links the store keeps, with the
//! rules of their tables: a participant replaces any with its bib or its
//! chip, and a link replaces any for its chip.
use vstd::prelude::*;
use crate::objects::participant::{Participant, ParticipantView};
use crate::objects::bibchip::BibChip;
use crate::text::str_equal;
use vstd::string::StringExecFns;

verus! {

/// The views of a list of participants.
pub open spec fn participant_views(v: Seq<Participant>) -> Seq<ParticipantView> {
    v.map_values(|p: Participant| p@)
}

/// The (bib, chip) pairs of a list of links.
pub open spec fn bibchip_views(v: Seq<BibChip>) -> Seq<(Seq<char>, Seq<char>)> {
    v.map_values(|b: BibChip| b@)
}

/// Participant rows with positive ids, no two ids, bibs or chips alike.
pub open spec fn participants_ok(rows: Seq<ParticipantView>) -> bool {
    &&& forall|i: int| 0 <= i < rows.len() ==> 0 < (#[trigger] rows[i]).id
    &&& forall|i: int, j: int| 0 <= i < j < rows.len() ==> {
        &&& (#[trigger] rows[i]).id != (#[trigger] rows[j]).id
        &&& rows[i].bib != rows[j].bib
        &&& rows[i].chip != rows[j].chip
    }
}

/// The participant rows, with ids at most `last`, the largest id handed
/// out, which stays within the ids the table can hold.
pub open spec fn participants_wf(rows: Seq<ParticipantView>, last: u64) -> bool {
    &&& last <= i64::MAX
    &&& participants_ok(rows)
    &&& forall|i: int| 0 <= i < rows.len() ==> (#[trigger] rows[i]).id <= last
}

/// The rows an added participant `p` leaves in place: those with another bib and another chip.
pub open spec fn participant_kept_beside(p: ParticipantView) -> spec_fn(ParticipantView) -> bool {
    |x: ParticipantView| x.bib != p.bib && x.chip != p.chip
}

/// The rows after adding `ps` in order, `last` being the largest id handed
/// out: each is added under the next id, and the rows that share its bib or
/// its chip go.
pub open spec fn participants_after_add(rows: Seq<ParticipantView>, ps: Seq<ParticipantView>, last: u64) -> Seq<ParticipantView>
    decreases ps.len(),
{
    if ps.len() == 0 {
        rows
    } else {
        participants_after_add(rows, ps.drop_last(), last).filter(participant_kept_beside(ps.last())).push(
            ParticipantView { id: (last + ps.len()) as u64, ..ps.last() },
        )
    }
}

/// The test for participants with another bib than `bib`.
pub open spec fn participant_bib_not(bib: Seq<char>) -> spec_fn(ParticipantView) -> bool {
    |x: ParticipantView| x.bib != bib
}

/// Links with no two chips alike.
pub open spec fn bibchips_ok(rows: Seq<(Seq<char>, Seq<char>)>) -> bool {
    forall|i: int, j: int| 0 <= i < j < rows.len() ==> (#[trigger] rows[i]).1 != (#[trigger] rows[j]).1
}

/// The links after adding `bs` in order: each replaces any link for its chip.
pub open spec fn bibchips_after_add(rows: Seq<(Seq<char>, Seq<char>)>, bs: Seq<(Seq<char>, Seq<char>)>) -> Seq<(Seq<char>, Seq<char>)>
    decreases bs.len(),
{
    if bs.len() == 0 {
        rows
    } else {
        bibchips_after_add(rows, bs.drop_last()).filter(bibchip_chip_not(bs.last().1)).push(bs.last())
    }
}

/// The test for links of another chip than `chip`.
pub open spec fn bibchip_chip_not(chip: Seq<char>) -> spec_fn((Seq<char>, Seq<char>)) -> bool {
    |x: (Seq<char>, Seq<char>)| x.1 != chip
}

/// The test for links of another bib than `bib`.
pub open spec fn bibchip_bib_not(bib: Seq<char>) -> spec_fn((Seq<char>, Seq<char>)) -> bool {
    |x: (Seq<char>, Seq<char>)| x.0 != bib
}

/// The participant rows for which `keep` holds, in order.
fn keep_participants(rows: &Vec<Participant>, p: &Participant, by_bib_only: bool) -> (kept: Vec<Participant>)
    requires
        participants_ok(participant_views(rows@)),
    ensures
        by_bib_only ==> participant_views(kept@) == participant_views(rows@).filter(participant_bib_not(p@.bib)),
        !by_bib_only ==> participant_views(kept@) == participant_views(rows@).filter(participant_kept_beside(p@)),
        participants_ok(participant_views(kept@)),
        forall|k: int| 0 <= k < kept@.len() ==> #[trigger] participant_views(rows@).contains(participant_views(kept@)[k]),
{
    let ghost all = participant_views(rows@);
    let ghost pred = if by_bib_only { participant_bib_not(p@.bib) } else { participant_kept_beside(p@) };
    let ghost mut src: Seq<int> = Seq::empty();
    let mut kept: Vec<Participant> = Vec::new();
    let mut i: usize = 0;
    while i < rows.len()
        invariant
            i <= rows@.len(),
            all == participant_views(rows@),
            pred == (if by_bib_only { participant_bib_not(p@.bib) } else { participant_kept_beside(p@) }),
            participants_ok(all),
            participant_views(kept@) == all.subrange(0, i as int).filter(pred),
            src.len() == kept@.len(),
            forall|k: int| 0 <= k < src.len() ==> 0 <= #[trigger] src[k] < i && kept@[k]@ == all[src[k]],
            forall|a: int, b: int| 0 <= a < b < src.len() ==> #[trigger] src[a] < #[trigger] src[b],
        decreases rows.len() - i,
    {
        proof {
            reveal(Seq::filter);
            assert(all.subrange(0, i + 1).drop_last() =~= all.subrange(0, i as int));
        }
        let x = &rows[i];
        let keep = if by_bib_only { !str_equal(x.bib(), p.bib()) } else { !str_equal(x.bib(), p.bib()) && !str_equal(x.chip(), p.chip()) };
        if keep {
            let ghost before = kept@;
            kept.push(x.clone());
            proof {
                assert(pred(all[i as int]));
                assert(all.subrange(0, i + 1).filter(pred) == all.subrange(0, i as int).filter(pred).push(all[i as int]));
                assert(participant_views(kept@) =~= participant_views(before).push(all[i as int]));
                src = src.push(i as int);
                assert forall|k: int| 0 <= k < src.len() implies 0 <= #[trigger] src[k] < i + 1 && kept@[k]@ == all[src[k]] by {
                    if k < before.len() {
                        assert(kept@[k] == before[k]);
                    }
                }
            }
        } else {
            proof {
                assert(!pred(all[i as int]));
                assert(all.subrange(0, i + 1).filter(pred) == all.subrange(0, i as int).filter(pred));
            }
        }
        i = i + 1;
    }
    assert(all.subrange(0, rows@.len() as int) =~= all);
    let ghost kv = participant_views(kept@);
    assert forall|k: int| 0 <= k < kept@.len() implies #[trigger] participant_views(rows@).contains(participant_views(kept@)[k]) by {
        assert(kv[k] == all[src[k]]);
    }
    assert forall|k: int| 0 <= k < kv.len() implies 0 < (#[trigger] kv[k]).id by {
        assert(kv[k] == all[src[k]]);
    }
    assert forall|a: int, b: int| 0 <= a < b < kv.len() implies {
        &&& (#[trigger] kv[a]).id != (#[trigger] kv[b]).id
        &&& kv[a].bib != kv[b].bib
        &&& kv[a].chip != kv[b].chip
    } by {
        assert(kv[a] == all[src[a]] && kv[b] == all[src[b]]);
        assert(src[a] < src[b]);
    }
    kept
}

/// Adds participants in order, each under the next id; a participant
/// replaces any that shares its bib or its chip. Gives back how many were added.
pub(crate) fn add_participant_rows(rows: &mut Vec<Participant>, last: &mut u64, ps: &Vec<Participant>) -> (r: Option<usize>)
    requires
        participants_wf(participant_views(old(rows)@), *old(last)),
    ensures
        participants_wf(participant_views(final(rows)@), *final(last)),
        *old(last) + ps@.len() <= i64::MAX ==> {
            &&& r matches Some(n) && n == ps@.len()
            &&& participant_views(final(rows)@) == participants_after_add(participant_views(old(rows)@), participant_views(ps@), *old(last))
            &&& *final(last) == *old(last) + ps@.len()
        },
        *old(last) + ps@.len() > i64::MAX ==> r is None && final(rows)@ == old(rows)@ && *final(last) == *old(last),
{
    if ps.len() as u64 > i64::MAX as u64 - *last {
        return None;
    }
    let ghost start = participant_views(rows@);
    let ghost start_last = *last;
    let ghost incoming = participant_views(ps@);
    let mut i: usize = 0;
    while i < ps.len()
        invariant
            i <= ps@.len(),
            incoming == participant_views(ps@),
            start_last + ps@.len() <= i64::MAX,
            *last == start_last + i,
            participants_wf(participant_views(rows@), *last),
            participant_views(rows@) == participants_after_add(start, incoming.subrange(0, i as int), start_last),
        decreases ps.len() - i,
    {
        let p = &ps[i];
        let mut kept = keep_participants(rows, p, false);
        let new_id = *last + 1;
        let n = Participant::new(
            new_id,
            String::from_str(p.bib()),
            String::from_str(p.first()),
            String::from_str(p.last()),
            p.age(),
            String::from_str(p.gender()),
            String::from_str(p.age_group()),
            String::from_str(p.distance()),
            String::from_str(p.chip()),
            p.anonymous(),
        );
        let ghost before = kept@;
        kept.push(n);
        proof {
            let sub = incoming.subrange(0, i + 1);
            assert(sub.drop_last() =~= incoming.subrange(0, i as int));
            assert(sub.last() == p@);
            assert(participant_views(kept@) =~= participant_views(before).push(ParticipantView { id: new_id, ..p@ }));
            let kv = participant_views(kept@);
            assert forall|k: int| 0 <= k < kv.len() implies (#[trigger] kv[k]).id <= new_id && 0 < kv[k].id by {
                if k < before.len() {
                    assert(kv[k] == participant_views(before)[k]);
                    assert(participant_views(rows@).contains(participant_views(before)[k]));
                }
            }
            assert forall|a: int, b: int| 0 <= a < b < kv.len() implies {
                &&& (#[trigger] kv[a]).id != (#[trigger] kv[b]).id
                &&& kv[a].bib != kv[b].bib
                &&& kv[a].chip != kv[b].chip
            } by {
                if b == before.len() {
                    assert(kv[a] == participant_views(before)[a]);
                    let fv = participant_views(rows@).filter(participant_kept_beside(p@));
                    assert(kv[a] == fv[a]);
                    participant_views(rows@).lemma_filter_pred(participant_kept_beside(p@), a);
                    assert(participant_views(rows@).contains(participant_views(before)[a]));
                    let j = choose|j: int| 0 <= j < participant_views(rows@).len() && participant_views(rows@)[j] == participant_views(before)[a];
                    assert(participant_views(rows@)[j].id <= *last);
                } else {
                    assert(kv[a] == participant_views(before)[a] && kv[b] == participant_views(before)[b]);
                }
            }
        }
        *rows = kept;
        *last = new_id;
        i = i + 1;
    }
    assert(incoming.subrange(0, ps@.len() as int) =~= incoming);
    Some(ps.len())
}

/// Copies of all the participant rows, in order.
pub(crate) fn copy_participant_rows(rows: &Vec<Participant>) -> (r: Vec<Participant>)
    ensures
        participant_views(r@) == participant_views(rows@),
{
    let mut out: Vec<Participant> = Vec::new();
    let mut i: usize = 0;
    while i < rows.len()
        invariant
            i <= rows@.len(),
            out@.len() == i,
            forall|j: int| 0 <= j < i ==> (#[trigger] out@[j])@ == rows@[j]@,
        decreases rows.len() - i,
    {
        out.push(rows[i].clone());
        i = i + 1;
    }
    assert(participant_views(out@) =~= participant_views(rows@));
    out
}

/// Removes the participants with the bib `bib`, and gives back how many went.
pub(crate) fn delete_participant_rows(rows: &mut Vec<Participant>, bib: &str) -> (n: usize)
    requires
        participants_ok(participant_views(old(rows)@)),
    ensures
        participant_views(final(rows)@) == participant_views(old(rows)@).filter(participant_bib_not(bib@)),
        n == old(rows)@.len() - final(rows)@.len(),
        participants_ok(participant_views(final(rows)@)),
{
    let probe = Participant::new(0, String::from_str(bib), String::new(), String::new(), 0, String::new(), String::new(), String::new(), String::new(), false);
    let kept = keep_participants(rows, &probe, true);
    proof {
        participant_views(rows@).lemma_filter_len(participant_bib_not(bib@));
    }
    let n = rows.len() - kept.len();
    *rows = kept;
    n
}

/// Adds links in order; each replaces any link for its chip. Gives back how many were added.
pub(crate) fn add_bibchip_rows(rows: &mut Vec<BibChip>, bs: &Vec<BibChip>) -> (n: usize)
    requires
        bibchips_ok(bibchip_views(old(rows)@)),
    ensures
        bibchips_ok(bibchip_views(final(rows)@)),
        bibchip_views(final(rows)@) == bibchips_after_add(bibchip_views(old(rows)@), bibchip_views(bs@)),
        n == bs@.len(),
{
    let ghost start = bibchip_views(rows@);
    let ghost incoming = bibchip_views(bs@);
    let mut i: usize = 0;
    while i < bs.len()
        invariant
            i <= bs@.len(),
            incoming == bibchip_views(bs@),
            bibchips_ok(bibchip_views(rows@)),
            bibchip_views(rows@) == bibchips_after_add(start, incoming.subrange(0, i as int)),
        decreases bs.len() - i,
    {
        let b = &bs[i];
        let mut kept = keep_bibchips(rows, b.chip(), false);
        let ghost before = kept@;
        kept.push(b.clone());
        proof {
            let sub = incoming.subrange(0, i + 1);
            assert(sub.drop_last() =~= incoming.subrange(0, i as int));
            assert(sub.last() == b@);
            assert(bibchip_views(kept@) =~= bibchip_views(before).push(b@));
            let kv = bibchip_views(kept@);
            assert forall|a: int, c: int| 0 <= a < c < kv.len() implies (#[trigger] kv[a]).1 != (#[trigger] kv[c]).1 by {
                if c == before.len() {
                    bibchip_views(rows@).lemma_filter_pred(bibchip_chip_not(b@.1), a);
                    assert(kv[a] == bibchip_views(before)[a]);
                } else {
                    assert(kv[a] == bibchip_views(before)[a] && kv[c] == bibchip_views(before)[c]);
                }
            }
        }
        *rows = kept;
        i = i + 1;
    }
    assert(incoming.subrange(0, bs@.len() as int) =~= incoming);
    bs.len()
}

/// The links whose chip (or, with `by_bib`, whose bib) is not `text`, in order.
fn keep_bibchips(rows: &Vec<BibChip>, text: &str, by_bib: bool) -> (kept: Vec<BibChip>)
    requires
        bibchips_ok(bibchip_views(rows@)),
    ensures
        by_bib ==> bibchip_views(kept@) == bibchip_views(rows@).filter(bibchip_bib_not(text@)),
        !by_bib ==> bibchip_views(kept@) == bibchip_views(rows@).filter(bibchip_chip_not(text@)),
        bibchips_ok(bibchip_views(kept@)),
{
    let ghost all = bibchip_views(rows@);
    let ghost pred = if by_bib { bibchip_bib_not(text@) } else { bibchip_chip_not(text@) };
    let ghost mut src: Seq<int> = Seq::empty();
    let mut kept: Vec<BibChip> = Vec::new();
    let mut i: usize = 0;
    while i < rows.len()
        invariant
            i <= rows@.len(),
            all == bibchip_views(rows@),
            pred == (if by_bib { bibchip_bib_not(text@) } else { bibchip_chip_not(text@) }),
            bibchips_ok(all),
            bibchip_views(kept@) == all.subrange(0, i as int).filter(pred),
            src.len() == kept@.len(),
            forall|k: int| 0 <= k < src.len() ==> 0 <= #[trigger] src[k] < i && kept@[k]@ == all[src[k]],
            forall|a: int, b: int| 0 <= a < b < src.len() ==> #[trigger] src[a] < #[trigger] src[b],
        decreases rows.len() - i,
    {
        proof {
            reveal(Seq::filter);
            assert(all.subrange(0, i + 1).drop_last() =~= all.subrange(0, i as int));
        }
        let x = &rows[i];
        let keep = if by_bib { !str_equal(x.bib(), text) } else { !str_equal(x.chip(), text) };
        if keep {
            let ghost before = kept@;
            kept.push(x.clone());
            proof {
                assert(pred(all[i as int]));
                assert(all.subrange(0, i + 1).filter(pred) == all.subrange(0, i as int).filter(pred).push(all[i as int]));
                assert(bibchip_views(kept@) =~= bibchip_views(before).push(all[i as int]));
                src = src.push(i as int);
                assert forall|k: int| 0 <= k < src.len() implies 0 <= #[trigger] src[k] < i + 1 && kept@[k]@ == all[src[k]] by {
                    if k < before.len() {
                        assert(kept@[k] == before[k]);
                    }
                }
            }
        } else {
            proof {
                assert(!pred(all[i as int]));
                assert(all.subrange(0, i + 1).filter(pred) == all.subrange(0, i as int).filter(pred));
            }
        }
        i = i + 1;
    }
    assert(all.subrange(0, rows@.len() as int) =~= all);
    let ghost kv = bibchip_views(kept@);
    assert forall|a: int, b: int| 0 <= a < b < kv.len() implies (#[trigger] kv[a]).1 != (#[trigger] kv[b]).1 by {
        assert(kv[a] == all[src[a]] && kv[b] == all[src[b]]);
        assert(src[a] < src[b]);
    }
    kept
}

/// Removes the links of the bib `bib`, and gives back how many went.
pub(crate) fn delete_bibchip_rows(rows: &mut Vec<BibChip>, bib: &str) -> (n: usize)
    requires
        bibchips_ok(bibchip_views(old(rows)@)),
    ensures
        bibchip_views(final(rows)@) == bibchip_views(old(rows)@).filter(bibchip_bib_not(bib@)),
        n == old(rows)@.len() - final(rows)@.len(),
        bibchips_ok(bibchip_views(final(rows)@)),
{
    let kept = keep_bibchips(rows, bib, true);
    proof {
        bibchip_views(rows@).lemma_filter_len(bibchip_bib_not(bib@));
    }
    let n = rows.len() - kept.len();
    *rows = kept;
    n
}

/// Copies of all the links, in order.
pub(crate) fn copy_bibchip_rows(rows: &Vec<BibChip>) -> (r: Vec<BibChip>)
    ensures
        bibchip_views(r@) == bibchip_views(rows@),
{
    let mut out: Vec<BibChip> = Vec::new();
    let mut i: usize = 0;
    while i < rows.len()
        invariant
            i <= rows@.len(),
            out@.len() == i,
            forall|j: int| 0 <= j < i ==> (#[trigger] out@[j])@ == rows@[j]@,
        decreases rows.len() - i,
    {
        out.push(rows[i].clone());
        i = i + 1;
    }
    assert(bibchip_views(out@) =~= bibchip_views(rows@));
    out
}

/// A participant added is kept under the next id, and no other participant
/// keeps its bib or its chip.
pub proof fn law_added_participant_replaces(rows: Seq<ParticipantView>, p: ParticipantView, last: u64)
    requires
        last < i64::MAX,
    ensures
        participants_after_add(rows, seq![p], last).last() == (ParticipantView { id: (last + 1) as u64, ..p }),
        forall|i: int| 0 <= i < participants_after_add(rows, seq![p], last).len() - 1 ==> {
            &&& (#[trigger] participants_after_add(rows, seq![p], last)[i]).bib != p.bib
            &&& participants_after_add(rows, seq![p], last)[i].chip != p.chip
        },
{
    let ps = seq![p];
    assert(ps.drop_last() =~= Seq::<ParticipantView>::empty());
    assert(participants_after_add(rows, ps.drop_last(), last) == rows);
    assert(ps.last() == p && ps.len() == 1);
    let after = participants_after_add(rows, ps, last);
    let fv = rows.filter(participant_kept_beside(p));
    assert(after == fv.push(ParticipantView { id: (last + 1) as u64, ..p }));
    assert forall|i: int| 0 <= i < after.len() - 1 implies (#[trigger] after[i]).bib != p.bib && after[i].chip != p.chip by {
        assert(after[i] == fv[i]);
        rows.lemma_filter_pred(participant_kept_beside(p), i);
    }
}

/// After the participant with a bib is deleted, none with that bib is kept.
pub proof fn law_deleted_bib_is_gone(rows: Seq<ParticipantView>, bib: Seq<char>)
    ensures
        forall|i: int| 0 <= i < rows.filter(participant_bib_not(bib)).len() ==>
            (#[trigger] rows.filter(participant_bib_not(bib))[i]).bib != bib,
{
    assert forall|i: int| 0 <= i < rows.filter(participant_bib_not(bib)).len() implies
        (#[trigger] rows.filter(participant_bib_not(bib))[i]).bib != bib by {
        rows.lemma_filter_pred(participant_bib_not(bib), i);
    }
}

/// A bib link added is kept, and no other link keeps its chip.
pub proof fn law_added_bibchip_replaces(rows: Seq<(Seq<char>, Seq<char>)>, b: (Seq<char>, Seq<char>))
    ensures
        bibchips_after_add(rows, seq![b]).last() == b,
        forall|i: int| 0 <= i < bibchips_after_add(rows, seq![b]).len() - 1 ==>
            (#[trigger] bibchips_after_add(rows, seq![b])[i]).1 != b.1,
{
    let bs = seq![b];
    assert(bs.drop_last() =~= Seq::<(Seq<char>, Seq<char>)>::empty());
    assert(bibchips_after_add(rows, bs.drop_last()) == rows);
    assert(bs.last() == b);
    let after = bibchips_after_add(rows, bs);
    let fv = rows.filter(bibchip_chip_not(b.1));
    assert(after == fv.push(b));
    assert forall|i: int| 0 <= i < after.len() - 1 implies (#[trigger] after[i]).1 != b.1 by {
        assert(after[i] == fv[i]);
        rows.lemma_filter_pred(bibchip_chip_not(b.1), i);
    }
}

} // verus!
