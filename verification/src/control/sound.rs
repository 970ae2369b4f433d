//! Deciding when the portal beeps, and which announcements wait to be played.
use vstd::prelude::*;
use std::collections::HashMap;
use crate::reader::zebra::TagData;
use crate::clock::now_secs;

verus! {

broadcast use vstd::std_specs::hash::group_hash_axioms;

/// The announcements the portal can play besides the beep.
#[derive(Debug, Clone, Copy, PartialEq, Eq, Structural)]
pub enum SoundType {
    Volume,
    Introduction,
    StartupFinished,
    StartupInProgress,
    CustomNotAvailable,
    Connected,
    Disconnected,
    Malfunction,
}

/// What the sound loop is to play next: whether to beep, the last time a
/// beep was asked for each tag, the announcements in the order asked, and
/// whether the loop was woken since it last took the announcements.
pub struct SoundNotifier {
    beep: bool,
    tag_list: HashMap<u128, u64>,
    sound_list: Vec<SoundType>,
    notified: bool,
}

pub struct SoundNotifierView {
    pub beep: bool,
    pub tag_list: Map<u128, u64>,
    pub sound_list: Seq<SoundType>,
    pub notified: bool,
}

impl View for SoundNotifier {
    type V = SoundNotifierView;

    closed spec fn view(&self) -> SoundNotifierView {
        SoundNotifierView {
            beep: self.beep,
            tag_list: self.tag_list@,
            sound_list: self.sound_list@,
            notified: self.notified,
        }
    }
}

/// Whether a sighting of `tag` at `now` asks for a beep: the tag was never
/// heard, or its last beep was a minute or more before.
pub open spec fn asks_beep(list: Map<u128, u64>, tag: u128, now: u64) -> bool {
    !list.contains_key(tag) || list[tag] + 60 <= now
}

/// Whether some tag of `tags` asks for a beep.
pub open spec fn some_asks_beep(list: Map<u128, u64>, tags: Seq<TagData>, now: u64) -> bool {
    exists|i: int| 0 <= i < tags.len() && asks_beep(list, #[trigger] tags[i].tag, now)
}

/// Whether `t` is among the tags heard.
pub open spec fn heard(tags: Seq<TagData>, t: u128) -> bool {
    exists|i: int| 0 <= i < tags.len() && #[trigger] tags[i].tag == t
}

/// The tag list after hearing `tags` at `now`: each tag that asks for a beep
/// is stamped with `now`; the others keep their time.
pub open spec fn stamped(list: Map<u128, u64>, tags: Seq<TagData>, now: u64) -> Map<u128, u64> {
    Map::new(
        |t: u128|
            list.contains_key(t) || heard(tags, t),
        |t: u128|
            if heard(tags, t) && asks_beep(
                list,
                t,
                now,
            ) {
                now
            } else {
                list[t]
            },
    )
}


/// Hearing one more tag: a tag already heard in this batch does not ask for
/// another beep, one not yet heard asks exactly as it would have before the
/// batch, and the stamped list grows by that tag alone when it asks.
proof fn lemma_stamp_step(list: Map<u128, u64>, pre: Seq<TagData>, t: TagData, now: u64)
    ensures
        !heard(pre, t.tag) ==> asks_beep(stamped(list, pre, now), t.tag, now) == asks_beep(list, t.tag, now),
        heard(pre, t.tag) ==> !asks_beep(stamped(list, pre, now), t.tag, now),
        heard(pre, t.tag) && asks_beep(list, t.tag, now) ==> some_asks_beep(list, pre, now),
        asks_beep(stamped(list, pre, now), t.tag, now) ==> stamped(list, pre.push(t), now) =~= stamped(list, pre, now).insert(t.tag, now),
        !asks_beep(stamped(list, pre, now), t.tag, now) ==> stamped(list, pre.push(t), now) =~= stamped(list, pre, now),
{
    let post = pre.push(t);
    assert(post[pre.len() as int].tag == t.tag);
    assert forall|k: u128| #[trigger] heard(post, k) == (heard(pre, k) || k == t.tag) by {
        if exists|j: int| 0 <= j < post.len() && #[trigger] post[j].tag == k {
            let j = choose|j: int| 0 <= j < post.len() && #[trigger] post[j].tag == k;
            if j < pre.len() {
                assert(pre[j].tag == k);
            }
        }
        if exists|j: int| 0 <= j < pre.len() && #[trigger] pre[j].tag == k {
            let j = choose|j: int| 0 <= j < pre.len() && #[trigger] pre[j].tag == k;
            assert(post[j].tag == k);
        }
    }
    if heard(pre, t.tag) && asks_beep(list, t.tag, now) {
        let j = choose|j: int| 0 <= j < pre.len() && #[trigger] pre[j].tag == t.tag;
        assert(asks_beep(list, pre[j].tag, now));
    }
}

impl SoundNotifier {
    pub fn new() -> (r: SoundNotifier)
        ensures
            !r@.beep,
            r@.tag_list == Map::<u128, u64>::empty(),
            r@.sound_list == Seq::<SoundType>::empty(),
            !r@.notified,
    {
        SoundNotifier { beep: false, tag_list: HashMap::new(), sound_list: Vec::new(), notified: false }
    }

    /// Notes tags heard at `now`: asks for a beep if some tag was never heard
    /// or has not beeped in the last minute, and stamps those tags with `now`.
    pub fn notify_tags_at(&mut self, tags: &Vec<TagData>, now: u64)
        ensures
            final(self)@.beep == (old(self)@.beep || some_asks_beep(old(self)@.tag_list, tags@, now)),
            final(self)@.tag_list == stamped(old(self)@.tag_list, tags@, now),
            final(self)@.sound_list == old(self)@.sound_list,
            final(self)@.notified == old(self)@.notified,
    {
        let ghost old_list = self.tag_list@;
        let mut i: usize = 0;
        while i < tags.len()
            invariant
                i <= tags.len(),
                self.beep == (old(self)@.beep || some_asks_beep(old_list, tags@.subrange(0, i as int), now)),
                self.tag_list@ == stamped(old_list, tags@.subrange(0, i as int), now),
                self.sound_list@ == old(self)@.sound_list,
                self.notified == old(self)@.notified,
                old_list == old(self)@.tag_list,
            decreases tags.len() - i,
        {
            let t = tags[i].tag;
            let ghost pre = tags@.subrange(0, i as int);
            let ghost post = tags@.subrange(0, i + 1);
            proof {
                assert(post =~= pre.push(tags@[i as int]));
                lemma_stamp_step(old_list, pre, tags@[i as int], now);
            }
            let sounds = match self.tag_list.get(&t) {
                None => true,
                Some(last) => (*last as u128) + 60 <= (now as u128),
            };
            if sounds {
                self.beep = true;
                self.tag_list.insert(t, now);
            }
            proof {
                assert forall|j: int| 0 <= j < post.len() implies (#[trigger] post[j]).tag == (if j < i {
                    pre[j].tag
                } else {
                    t
                }) by {}
                assert(self.beep == (old(self)@.beep || some_asks_beep(old_list, pre, now) || asks_beep(old_list, t, now)));
                assert(some_asks_beep(old_list, post, now) == (some_asks_beep(old_list, pre, now)
                    || asks_beep(old_list, t, now))) by {
                    if asks_beep(old_list, t, now) {
                        assert(post[i as int].tag == t);
                    }
                    if some_asks_beep(old_list, pre, now) {
                        let j = choose|j: int| 0 <= j < pre.len() && asks_beep(old_list, #[trigger] pre[j].tag, now);
                        assert(post[j].tag == pre[j].tag);
                    }
                }
                assert(self.tag_list@ =~= stamped(old_list, post, now));
            }
            i = i + 1;
        }
        assert(tags@.subrange(0, tags.len() as int) =~= tags@);
    }

    /// Notes tags heard now, as the clock tells it, and wakes the sound loop.
    /// A clock that reads before the epoch leaves the beep and the tag list
    /// as they were; the loop is woken either way.
    pub fn notify_tags(&mut self, tags: &Vec<TagData>)
        ensures
            (final(self)@.beep == old(self)@.beep && final(self)@.tag_list == old(self)@.tag_list)
                || exists|now: u64|
                final(self)@.beep == (old(self)@.beep || some_asks_beep(old(self)@.tag_list, tags@, now))
                    && final(self)@.tag_list == stamped(old(self)@.tag_list, tags@, now),
            final(self)@.sound_list == old(self)@.sound_list,
            final(self)@.notified,
    {
        if let Some(now) = now_secs() {
            self.notify_tags_at(tags, now);
        }
        self.notified = true;
    }

    /// Asks for a beep, and wakes the sound loop.
    pub fn notify_one(&mut self)
        ensures
            final(self)@ == (SoundNotifierView { beep: true, notified: true, ..old(self)@ }),
    {
        self.beep = true;
        self.notified = true;
    }

    /// Queues an announcement, and wakes the sound loop.
    pub fn notify_custom(&mut self, sound: SoundType)
        ensures
            final(self)@ == (SoundNotifierView {
                sound_list: old(self)@.sound_list.push(sound),
                notified: true,
                ..old(self)@
            }),
    {
        self.sound_list.push(sound);
        self.notified = true;
    }

    /// Whether a beep was asked for since the last call; clears the request.
    pub fn take_beep(&mut self) -> (r: bool)
        ensures
            r == old(self)@.beep,
            final(self)@ == (SoundNotifierView { beep: false, ..old(self)@ }),
    {
        let r = self.beep;
        self.beep = false;
        r
    }

    /// The announcements asked for since the last call, in order; clears
    /// them. The loop takes them last when it wakes, so the wake-up is
    /// cleared with them.
    pub fn take_sounds(&mut self) -> (r: Vec<SoundType>)
        ensures
            r@ == old(self)@.sound_list,
            final(self)@ == (SoundNotifierView {
                sound_list: Seq::<SoundType>::empty(),
                notified: false,
                ..old(self)@
            }),
    {
        let mut out: Vec<SoundType> = Vec::new();
        std::mem::swap(&mut out, &mut self.sound_list);
        self.notified = false;
        out
    }

    /// Whether the sound loop was woken since it last took the announcements.
    pub fn notified(&self) -> (r: bool)
        ensures
            r == self@.notified,
    {
        self.notified
    }
}

} // verus!
