//! Decisions the reading loop of a Zebra reader takes between reads: where
//! reported antenna states go, when the reader has gone quiet, and when to
//! purge the reader's tag memory.
use vstd::prelude::*;
use crate::reader::{MAX_ANTENNAS, ANTENNA_STATUS_NONE};
use crate::reader::zebra::TAG_LIMIT;

verus! {

/// The port on the portal's case for a reader antenna index, when the case
/// is wired with the shifted layout: reader ports 1, 3, 5, 7 are case ports
/// 5 to 8, reader ports 2, 4, 6, 8 are case ports 1 to 4 (indices from
/// zero); other ports stay where they are.
pub open spec fn shifted_index(ix: int) -> int {
    if 0 <= ix < 8 && ix % 2 == 0 {
        ix / 2 + 4
    } else if 0 <= ix < 8 {
        (ix + 1) / 2 - 1
    } else {
        ix
    }
}

pub fn shift_antenna_index(ix: usize, shift: bool) -> (r: usize)
    ensures
        r == (if shift { shifted_index(ix as int) } else { ix as int }),
{
    if !shift {
        return ix;
    }
    if ix == 0 || ix == 2 || ix == 4 || ix == 6 {
        (ix / 2) + 4
    } else if ix == 1 || ix == 3 || ix == 5 || ix == 7 {
        ((ix + 1) / 2) - 1
    } else {
        ix
    }
}

/// The shifted layout moves no two ports onto one, and keeps every port among the sixteen.
pub proof fn law_shift_is_a_permutation(a: int, b: int)
    requires
        0 <= a < MAX_ANTENNAS,
        0 <= b < MAX_ANTENNAS,
        a != b,
    ensures
        shifted_index(a) != shifted_index(b),
        0 <= shifted_index(a) < MAX_ANTENNAS,
{
}

/// The antenna states after a report: each port the report gives a state for
/// takes it, at its shifted place when the layout is shifted; the others keep theirs.
pub open spec fn antennas_after(current: Seq<u8>, report: Seq<u8>, shift: bool) -> Seq<u8> {
    Seq::new(
        MAX_ANTENNAS as nat,
        |k: int|
            if exists|ix: int| 0 <= ix < MAX_ANTENNAS && report[ix] != ANTENNA_STATUS_NONE && (if shift {
                shifted_index(ix)
            } else {
                ix
            }) == k {
                report[choose|ix: int|
                    0 <= ix < MAX_ANTENNAS && report[ix] != ANTENNA_STATUS_NONE && (if shift {
                        shifted_index(ix)
                    } else {
                        ix
                    }) == k]
            } else {
                current[k]
            },
    )
}

/// Records a report of antenna states in the reader's antenna table.
pub fn apply_antennas(current: &mut [u8; MAX_ANTENNAS], report: &[u8; MAX_ANTENNAS], shift: bool)
    ensures
        final(current)@ == antennas_after(old(current)@, report@, shift),
{
    let ghost orig = current@;
    let mut ix: usize = 0;
    while ix < MAX_ANTENNAS
        invariant
            ix <= MAX_ANTENNAS,
            current@.len() == MAX_ANTENNAS,
            forall|k: int| 0 <= k < MAX_ANTENNAS ==> #[trigger] current@[k] == (if exists|j: int|
                0 <= j < ix && report@[j] != ANTENNA_STATUS_NONE && (if shift {
                    shifted_index(j)
                } else {
                    j
                }) == k {
                report@[choose|j: int|
                    0 <= j < ix && report@[j] != ANTENNA_STATUS_NONE && (if shift {
                        shifted_index(j)
                    } else {
                        j
                    }) == k]
            } else {
                orig[k]
            }),
        decreases MAX_ANTENNAS - ix,
    {
        if report[ix] != ANTENNA_STATUS_NONE {
            let to = shift_antenna_index(ix, shift);
            current[to] = report[ix];
        }
        proof {
            assert forall|k: int| 0 <= k < MAX_ANTENNAS implies #[trigger] current@[k] == (if exists|j: int|
                0 <= j < ix + 1 && report@[j] != ANTENNA_STATUS_NONE && (if shift {
                    shifted_index(j)
                } else {
                    j
                }) == k {
                report@[choose|j: int|
                    0 <= j < ix + 1 && report@[j] != ANTENNA_STATUS_NONE && (if shift {
                        shifted_index(j)
                    } else {
                        j
                    }) == k]
            } else {
                orig[k]
            }) by {
                let me = ix as int;
                let hit = report@[me] != ANTENNA_STATUS_NONE && (if shift {
                    shifted_index(me)
                } else {
                    me
                }) == k;
                if exists|j: int|
                    0 <= j < ix + 1 && report@[j] != ANTENNA_STATUS_NONE && (if shift {
                        shifted_index(j)
                    } else {
                        j
                    }) == k {
                    let j = choose|j: int|
                        0 <= j < ix + 1 && report@[j] != ANTENNA_STATUS_NONE && (if shift {
                            shifted_index(j)
                        } else {
                            j
                        }) == k;
                    if j != me {
                        if shift {
                            law_shift_is_a_permutation(j, me);
                        }
                        assert(!hit);
                        assert(exists|j2: int|
                            0 <= j2 < ix && report@[j2] != ANTENNA_STATUS_NONE && (if shift {
                                shifted_index(j2)
                            } else {
                                j2
                            }) == k);
                        let j2 = choose|j2: int|
                            0 <= j2 < ix && report@[j2] != ANTENNA_STATUS_NONE && (if shift {
                                shifted_index(j2)
                            } else {
                                j2
                            }) == k;
                        if j2 != j && shift {
                            law_shift_is_a_permutation(j, j2);
                        }
                    }
                }
            }
        }
        ix = ix + 1;
    }
}

/// The reader has sent no keepalive for more than five seconds.
pub fn keepalive_lapsed(right_now: u64, last_ka_received_at: u64) -> (r: bool)
    requires
        right_now >= 5,
    ensures
        r == (right_now - 5 > last_ka_received_at),
{
    right_now - 5 > last_ka_received_at
}

/// The reader has reported more tags since the last purge than it should hold.
pub fn must_purge(count: usize) -> (r: bool)
    ensures
        r == (count > TAG_LIMIT),
{
    count > TAG_LIMIT
}

} // verus!
