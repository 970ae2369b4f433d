//! The readers the portal runs, as clients see them, and how a client's
//! request to add or remove one changes that list.
use vstd::prelude::*;
use vstd::string::StringExecFns;
use crate::control::socket::responses::Reader as ClientReader;
use crate::control::socket::session::reader_port;
use crate::database::memstore::rows::reader_views;
use crate::reader::{fresh_reader, Reader, ReaderView, AUTO_CONNECT_TRUE, MAX_ANTENNAS};
use crate::reader::zebra::DEFAULT_ZEBRA_PORT;
use crate::text::{ascii_case_equal, eq_ignore_ascii_case};

verus! {

/// What a client is shown of reader `v`: its settings, and whether it is
/// reading and connected. Antenna states are not held with the reader.
pub open spec fn shows_reader(c: ClientReader, v: ReaderView) -> bool {
    &&& c.id == v.id
    &&& c.name@ == v.nickname
    &&& c.kind@ == v.kind
    &&& c.ip_address@ == v.ip_address
    &&& c.port == v.port
    &&& c.auto_connect == (v.auto_connect == AUTO_CONNECT_TRUE)
    &&& c.reading == Some(v.reading)
    &&& c.connected == Some(v.connected)
    &&& c.antennas@ == Seq::new(MAX_ANTENNAS as nat, |i: int| 0u8)
}

/// The list `cs` shows the readers `vs`, one for one, in order.
pub open spec fn shows_readers(cs: Seq<ClientReader>, vs: Seq<ReaderView>) -> bool {
    cs.len() == vs.len() && forall|i: int| 0 <= i < cs.len() ==> shows_reader(#[trigger] cs[i], vs[i])
}

/// The list of readers a client is shown.
pub fn client_readers(live: &Vec<Reader>) -> (r: Vec<ClientReader>)
    ensures
        shows_readers(r@, reader_views(live@)),
{
    let mut out: Vec<ClientReader> = Vec::new();
    let mut i: usize = 0;
    while i < live.len()
        invariant
            i <= live@.len(),
            out@.len() == i,
            forall|k: int| 0 <= k < i ==> shows_reader(#[trigger] out@[k], reader_views(live@)[k]),
        decreases live.len() - i,
    {
        let x = &live[i];
        let antennas: [u8; MAX_ANTENNAS] = [0u8; MAX_ANTENNAS];
        assert(antennas@ =~= Seq::new(MAX_ANTENNAS as nat, |i: int| 0u8));
        out.push(ClientReader {
            id: x.id(),
            name: String::from_str(x.nickname()),
            kind: String::from_str(x.kind()),
            ip_address: String::from_str(x.ip_address()),
            port: x.port(),
            auto_connect: x.auto_connect() == AUTO_CONNECT_TRUE,
            reading: x.is_reading(),
            connected: x.is_connected(),
            antennas,
        });
        i = i + 1;
    }
    out
}

/// A running reader that an added one takes the place of: one with its id,
/// or with its name but for the case of ASCII letters.
pub open spec fn same_reader(x: ReaderView, id: i64, name: Seq<char>) -> bool {
    x.id == id || eq_ignore_ascii_case(x.nickname, name)
}

/// `i` is the first running reader an added one takes the place of.
pub open spec fn first_same(live: Seq<ReaderView>, id: i64, name: Seq<char>, i: int) -> bool {
    &&& 0 <= i < live.len()
    &&& same_reader(live[i], id, name)
    &&& forall|j: int| 0 <= j < i ==> !same_reader(#[trigger] live[j], id, name)
}

/// The running readers after one is added, saved under `saved`: the first
/// it takes the place of moves to the end with the new name, address, port
/// (below 100 meaning the Zebra default) and start-up flag; otherwise the new
/// reader is added at the end.
pub open spec fn live_after_add(
    live: Seq<ReaderView>,
    id: i64,
    kind: Seq<char>,
    name: Seq<char>,
    ip_address: Seq<char>,
    port: u16,
    auto_connect: u8,
    saved: i64,
) -> Seq<ReaderView> {
    if exists|i: int| first_same(live, id, name, i) {
        let i = choose|i: int| first_same(live, id, name, i);
        live.remove(i).push(ReaderView {
            nickname: name,
            ip_address,
            port: if port < 100 { DEFAULT_ZEBRA_PORT } else { port },
            auto_connect,
            ..live[i]
        })
    } else {
        live.push(fresh_reader(saved, kind, name, ip_address, port, auto_connect))
    }
}

/// Adds `added`, which the store saved under `saved`, to the running readers.
pub fn add_live_reader(live: &mut Vec<Reader>, added: Reader, saved: i64)
    requires
        added@ == fresh_reader(added@.id, added@.kind, added@.nickname, added@.ip_address, added@.port, added@.auto_connect),
    ensures
        reader_views(final(live)@) == live_after_add(reader_views(old(live)@), added@.id, added@.kind, added@.nickname,
            added@.ip_address, added@.port, added@.auto_connect, saved),
{
    let ghost lv = reader_views(live@);
    let mut i: usize = 0;
    while i < live.len()
        invariant
            i <= live@.len(),
            lv == reader_views(live@),
            live@ == old(live)@,
            forall|j: int| 0 <= j < i ==> !same_reader(#[trigger] lv[j], added@.id, added@.nickname),
        decreases live.len() - i,
    {
        let hit = live[i].id() == added.id() || ascii_case_equal(live[i].nickname(), added.nickname());
        if hit {
            assert(lv[i as int] == live@[i as int]@);
            assert(first_same(lv, added@.id, added@.nickname, i as int));
            let mut x = live.remove(i);
            x.set_nickname(String::from_str(added.nickname()));
            x.set_ip_address(String::from_str(added.ip_address()));
            x.set_port(reader_port(added.port()));
            x.set_auto_connect(added.auto_connect());
            let ghost mid = live@;
            live.push(x);
            proof {
                let k = choose|k: int| first_same(lv, added@.id, added@.nickname, k);
                if k < i {
                    assert(!same_reader(lv[k], added@.id, added@.nickname));
                }
                if k > i {
                    assert(!same_reader(lv[i as int], added@.id, added@.nickname));
                }
                assert(k == i);
                assert(reader_views(mid) =~= lv.remove(i as int));
                assert(reader_views(live@) =~= reader_views(mid).push(x@));
            }
            return;
        }
        assert(!same_reader(lv[i as int], added@.id, added@.nickname)) by {
            assert(lv[i as int] == live@[i as int]@);
        }
        i = i + 1;
    }
    let mut fresh = added;
    fresh.set_id(saved);
    let ghost before = live@;
    live.push(fresh);
    proof {
        assert(!exists|k: int| first_same(lv, added@.id, added@.nickname, k));
        assert(reader_views(live@) =~= lv.push(fresh@));
    }
}

/// The running readers after the first with id `id`, if any, is removed.
pub open spec fn live_after_remove(live: Seq<ReaderView>, id: i64) -> Seq<ReaderView> {
    if exists|i: int| 0 <= i < live.len() && live[i].id == id {
        live.remove(choose|i: int| 0 <= i < live.len() && live[i].id == id
            && forall|j: int| 0 <= j < i ==> #[trigger] live[j].id != id)
    } else {
        live
    }
}

/// Removes the first running reader with id `id`, if any.
pub fn remove_live_reader(live: &mut Vec<Reader>, id: i64)
    ensures
        reader_views(final(live)@) == live_after_remove(reader_views(old(live)@), id),
{
    let ghost lv = reader_views(live@);
    let mut i: usize = 0;
    while i < live.len()
        invariant
            i <= live@.len(),
            lv == reader_views(live@),
            live@ == old(live)@,
            forall|j: int| 0 <= j < i ==> #[trigger] lv[j].id != id,
        decreases live.len() - i,
    {
        if live[i].id() == id {
            assert(lv[i as int].id == id);
            let _ = live.remove(i);
            proof {
                let k = choose|k: int| 0 <= k < lv.len() && lv[k].id == id
                    && forall|j: int| 0 <= j < k ==> #[trigger] lv[j].id != id;
                assert(0 <= i < lv.len() && lv[i as int].id == id && forall|j: int| 0 <= j < i ==> #[trigger] lv[j].id != id);
                if k < i {
                    assert(lv[k].id != id);
                }
                if k > i {
                    assert(lv[i as int].id != id);
                }
                assert(reader_views(live@) =~= lv.remove(i as int));
            }
            return;
        }
        assert(lv[i as int] == live@[i as int]@);
        i = i + 1;
    }
}

/// Records whether the running readers with id `id` are connected and reading.
pub fn set_live_state(live: &mut Vec<Reader>, id: i64, connected: bool, reading: bool)
    ensures
        final(live)@.len() == old(live)@.len(),
        forall|i: int| 0 <= i < old(live)@.len() ==> (#[trigger] final(live)@[i])@ == (if old(live)@[i]@.id == id {
            ReaderView { connected, reading, ..old(live)@[i]@ }
        } else {
            old(live)@[i]@
        }),
{
    let mut i: usize = 0;
    while i < live.len()
        invariant
            i <= live@.len(),
            live@.len() == old(live)@.len(),
            forall|k: int| 0 <= k < i ==> (#[trigger] live@[k])@ == (if old(live)@[k]@.id == id {
                ReaderView { connected, reading, ..old(live)@[k]@ }
            } else {
                old(live)@[k]@
            }),
            forall|k: int| i <= k < live@.len() ==> #[trigger] live@[k] == old(live)@[k],
        decreases live.len() - i,
    {
        if live[i].id() == id {
            let mut x = live.remove(i);
            x.set_state(connected, reading);
            live.insert(i, x);
        }
        i = i + 1;
    }
}

/// `i` is the first running reader with id `id`.
pub open spec fn first_with_id(live: Seq<ReaderView>, id: i64, i: int) -> bool {
    &&& 0 <= i < live.len()
    &&& live[i].id == id
    &&& forall|j: int| 0 <= j < i ==> #[trigger] live[j].id != id
}

/// The index of the first running reader with id `id`, if any.
pub fn find_live(live: &Vec<Reader>, id: i64) -> (r: Option<usize>)
    ensures
        r is None <==> forall|i: int| 0 <= i < live@.len() ==> (#[trigger] live@[i])@.id != id,
        r matches Some(i) ==> first_with_id(reader_views(live@), id, i as int),
{
    let mut i: usize = 0;
    while i < live.len()
        invariant
            i <= live@.len(),
            forall|j: int| 0 <= j < i ==> (#[trigger] live@[j])@.id != id,
        decreases live.len() - i,
    {
        if live[i].id() == id {
            proof {
                assert forall|j: int| 0 <= j < i implies #[trigger] reader_views(live@)[j].id != id by {
                    assert(reader_views(live@)[j] == live@[j]@);
                }
            }
            return Some(i);
        }
        i = i + 1;
    }
    None
}

/// The ids of the running readers whose connection is `connected`, in order.
pub open spec fn ids_with_state(live: Seq<ReaderView>, connected: bool) -> Seq<i64>
    decreases live.len(),
{
    if live.len() == 0 {
        Seq::empty()
    } else {
        let rest = ids_with_state(live.drop_last(), connected);
        if live.last().connected == connected { rest.push(live.last().id) } else { rest }
    }
}

/// The ids of the running readers whose connection is `connected`.
pub fn live_ids(live: &Vec<Reader>, connected: bool) -> (r: Vec<i64>)
    ensures
        r@ == ids_with_state(reader_views(live@), connected),
{
    let ghost lv = reader_views(live@);
    let mut out: Vec<i64> = Vec::new();
    let mut i: usize = 0;
    while i < live.len()
        invariant
            i <= live@.len(),
            lv == reader_views(live@),
            out@ == ids_with_state(lv.take(i as int), connected),
        decreases live.len() - i,
    {
        assert(lv.take(i + 1).drop_last() =~= lv.take(i as int));
        assert(lv.take(i + 1).last() == live@[i as int]@);
        if live[i].is_connected() == Some(connected) {
            out.push(live[i].id());
        }
        i = i + 1;
    }
    assert(lv.take(live@.len() as int) =~= lv);
    out
}

} // verus!
