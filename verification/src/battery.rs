//! Watching the battery: the recent voltage readings, their average, and when
//! a falling charge is worth a notification.
use vstd::prelude::*;

use crate::clock::now_secs;

verus! {

/// How many readings the average is taken over.
pub const HISTORY_LEN: usize = 50;

/// The most recent voltage readings, in millivolts, oldest first.
pub struct VoltageHistory {
    values: Vec<u32>,
}

/// The sum of the readings.
pub open spec fn total(s: Seq<u32>) -> int
    decreases s.len(),
{
    if s.len() == 0 { 0 } else { total(s.drop_last()) + s.last() }
}

proof fn lemma_total_bound(s: Seq<u32>)
    requires
        forall|i: int| 0 <= i < s.len() ==> s[i] <= 0xFFFF,
    ensures
        0 <= total(s) <= s.len() * 0xFFFF,
    decreases s.len(),
{
    if s.len() > 0 {
        lemma_total_bound(s.drop_last());
    }
}

impl View for VoltageHistory {
    type V = Seq<u32>;

    closed spec fn view(&self) -> Seq<u32> {
        self.values@
    }
}

impl VoltageHistory {
    /// At most fifty readings, each a 16-bit value.
    pub closed spec fn wf(&self) -> bool {
        &&& self.values@.len() <= HISTORY_LEN
        &&& forall|i: int| 0 <= i < self.values@.len() ==> self.values@[i] <= 0xFFFF
    }

    pub fn new() -> (r: VoltageHistory)
        ensures
            r.wf(),
            r@ == Seq::<u32>::empty(),
    {
        VoltageHistory { values: Vec::new() }
    }

    /// Adds a reading, dropping the oldest ones so that at most fifty are kept.
    pub fn push(&mut self, voltage: u16)
        requires
            old(self).wf(),
        ensures
            final(self).wf(),
            final(self)@ == (if old(self)@.len() >= HISTORY_LEN {
                old(self)@.subrange(old(self)@.len() - (HISTORY_LEN - 1), old(self)@.len() as int)
            } else {
                old(self)@
            }).push(voltage as u32),
    {
        let ghost start = self.values@;
        if self.values.len() >= HISTORY_LEN {
            self.values.remove(0);
            assert(self.values@ =~= start.subrange(start.len() - (HISTORY_LEN - 1), start.len() as int));
        }
        assert(forall|i: int| 0 <= i < self.values@.len() ==> self.values@[i] <= 0xFFFF);
        self.values.push(voltage as u32);
    }

    /// The sum of the readings divided by fifty, however many there are.
    pub fn average(&self) -> (r: u32)
        requires
            self.wf(),
        ensures
            r == total(self@) / 50,
    {
        let mut sum: u32 = 0;
        let mut i: usize = 0;
        while i < self.values.len()
            invariant
                i <= self.values@.len() <= HISTORY_LEN,
                forall|j: int| 0 <= j < self.values@.len() ==> self.values@[j] <= 0xFFFF,
                sum == total(self.values@.subrange(0, i as int)),
            decreases self.values.len() - i,
        {
            proof {
                let s = self.values@.subrange(0, i + 1);
                assert(s.drop_last() =~= self.values@.subrange(0, i as int));
                lemma_total_bound(self.values@.subrange(0, i as int));
            }
            sum = sum + self.values[i];
            i = i + 1;
        }
        assert(self.values@.subrange(0, self.values@.len() as int) =~= self.values@);
        sum / 50
    }
}

/// The charge, in percent, that an average battery voltage in millivolts
/// stands for: 150 while charging (above 13800 mV), 100 from 13400 mV, a
/// piecewise linear scale below that down to 0 at 12000 mV. Between 13100 and
/// 13200 mV each 3.4 mV is one percent, counted here in tenths of millivolts.
pub open spec fn percentage_spec(v: int) -> int {
    if v > 13800 {
        150
    } else if v >= 13400 {
        100
    } else if v >= 13300 {
        90 + (v - 13300) / 10
    } else if v >= 13250 {
        80 + (v - 13250) / 5
    } else if v >= 13200 {
        70 + (v - 13200) / 5
    } else if v >= 13100 {
        40 + ((v - 13100) * 10) / 34
    } else if v >= 13000 {
        30 + (v - 13000) / 10
    } else if v >= 12900 {
        20 + (v - 12900) / 10
    } else if v >= 12000 {
        (v - 12000) / 45
    } else {
        0
    }
}

/// The charge that an average voltage in millivolts stands for.
pub fn battery_percentage(average: u32) -> (r: u8)
    ensures
        r == percentage_spec(average as int),
{
    if average > 13800 {
        150
    } else if average >= 13400 {
        100
    } else if average >= 13300 {
        90 + ((average - 13300) / 10) as u8
    } else if average >= 13250 {
        80 + ((average - 13250) / 5) as u8
    } else if average >= 13200 {
        70 + ((average - 13200) / 5) as u8
    } else if average >= 13100 {
        40 + (((average - 13100) * 10) / 34) as u8
    } else if average >= 13000 {
        30 + ((average - 13000) / 10) as u8
    } else if average >= 12900 {
        20 + ((average - 12900) / 10) as u8
    } else if average >= 12000 {
        ((average - 12000) / 45) as u8
    } else {
        0
    }
}

/// A higher average voltage never stands for a lower charge.
pub proof fn law_percentage_monotone(v1: int, v2: int)
    requires
        v1 <= v2,
    ensures
        percentage_spec(v1) <= percentage_spec(v2),
{
    assert forall|a: int, b: int, d: int| 0 <= a <= b && d > 0 implies #[trigger] (a / d) <= #[trigger] (b / d) by {
        vstd::arithmetic::div_mod::lemma_div_is_ordered(a, b, d);
    }
    if 13100 <= v1 < 13200 {
        assert((v1 - 13100) * 10 <= 990int);
        assert((v1 - 13100) * 10 / 34 <= 990int / 34);
        if v2 < 13200 {
            assert((v1 - 13100) * 10 <= (v2 - 13100) * 10);
            assert((v1 - 13100) * 10 / 34 <= (v2 - 13100) * 10 / 34);
        }
    }
    if 13100 <= v2 < 13200 {
        assert(0int / 34 <= (v2 - 13100) * 10 / 34);
    }
    if 13000 <= v1 < 13100 {
        assert((v1 - 13000) / 10 <= 99int / 10);
    }
    if 12900 <= v1 < 13000 {
        assert((v1 - 12900) / 10 <= 99int / 10);
    }
    if 12000 <= v1 < 12900 {
        assert((v1 - 12000) / 45 <= 899int / 45);
    }
    if 13200 <= v1 < 13250 {
        assert((v1 - 13200) / 5 <= 49int / 5);
    }
    if 13250 <= v1 < 13300 {
        assert((v1 - 13250) / 5 <= 49int / 5);
    }
    if 13300 <= v1 < 13400 {
        assert((v1 - 13300) / 10 <= 99int / 10);
    }
}

/// Whether a new charge reading calls for a notification.
#[derive(Debug, Clone, Copy, PartialEq, Eq, Structural)]
pub enum BatteryAlert {
    Quiet,
    Low,
    Critical,
}

/// The charge fell to 30% or below (from above), and no such notice went out
/// in the last minute: low. Otherwise it fell to 15% or below, and no
/// critical notice went out in the last minute: critical.
pub open spec fn alert_spec(before: u8, now_pct: u8, now: u64, last_low: u64, last_crit: u64) -> BatteryAlert {
    if before > 30 && now_pct <= 30 && now > last_low + 60 {
        BatteryAlert::Low
    } else if before > 15 && now_pct <= 15 && now > last_crit + 60 {
        BatteryAlert::Critical
    } else {
        BatteryAlert::Quiet
    }
}

pub fn battery_alert(before: u8, now_pct: u8, now: u64, last_low: u64, last_crit: u64) -> (r: BatteryAlert)
    ensures
        r == alert_spec(before, now_pct, now, last_low, last_crit),
{
    if before > 30 && now_pct <= 30 && (now as u128) > (last_low as u128) + 60 {
        BatteryAlert::Low
    } else if before > 15 && now_pct <= 15 && (now as u128) > (last_crit as u128) + 60 {
        BatteryAlert::Critical
    } else {
        BatteryAlert::Quiet
    }
}

/// What the battery watch has seen: the recent readings, the charge last
/// worked out, and when the last low and critical notices went out.
pub struct BatteryWatchView {
    pub history: Seq<u32>,
    pub battery: u8,
    pub last_low: u64,
    pub last_crit: u64,
}

/// The recent readings, the charge they stand for, and when the portal last
/// warned that the charge was low or critical.
pub struct BatteryWatch {
    history: VoltageHistory,
    battery: u8,
    last_low: u64,
    last_crit: u64,
}

/// The readings after `voltage` is added to `h`: at most fifty, the newest last.
pub open spec fn pushed(h: Seq<u32>, voltage: u16) -> Seq<u32> {
    (if h.len() >= HISTORY_LEN { h.subrange(h.len() - (HISTORY_LEN - 1), h.len() as int) } else { h }).push(voltage as u32)
}

impl View for BatteryWatch {
    type V = BatteryWatchView;

    closed spec fn view(&self) -> BatteryWatchView {
        BatteryWatchView {
            history: self.history@,
            battery: self.battery,
            last_low: self.last_low,
            last_crit: self.last_crit,
        }
    }
}

impl BatteryWatch {
    pub closed spec fn wf(&self) -> bool {
        self.history.wf()
    }

    /// No readings yet, a charge of zero, and no notice sent.
    pub fn new() -> (r: BatteryWatch)
        ensures
            r.wf(),
            r@ == (BatteryWatchView { history: Seq::empty(), battery: 0, last_low: 0, last_crit: 0 }),
    {
        BatteryWatch { history: VoltageHistory::new(), battery: 0, last_low: 0, last_crit: 0 }
    }

    /// The charge last worked out.
    pub fn battery(&self) -> (r: u8)
        ensures
            r == self@.battery,
    {
        self.battery
    }

    /// Takes in a voltage reading made at `now` (seconds): the charge becomes
    /// what the average of the last fifty readings stands for, and the answer
    /// says whether a low or critical notice is due, whose time is then kept.
    pub fn record(&mut self, voltage: u16, now: u64) -> (r: BatteryAlert)
        requires
            old(self).wf(),
        ensures
            final(self).wf(),
            final(self)@.history == pushed(old(self)@.history, voltage),
            final(self)@.battery == percentage_spec(total(final(self)@.history) / 50),
            r == alert_spec(old(self)@.battery, final(self)@.battery, now, old(self)@.last_low, old(self)@.last_crit),
            final(self)@.last_low == (if r == BatteryAlert::Low { now } else { old(self)@.last_low }),
            final(self)@.last_crit == (if r == BatteryAlert::Critical { now } else { old(self)@.last_crit }),
    {
        self.history.push(voltage);
        let average = self.history.average();
        let percentage = battery_percentage(average);
        let before = self.battery;
        self.battery = percentage;
        let alert = battery_alert(before, percentage, now, self.last_low, self.last_crit);
        match alert {
            BatteryAlert::Low => { self.last_low = now; },
            BatteryAlert::Critical => { self.last_crit = now; },
            BatteryAlert::Quiet => {},
        }
        alert
    }

    /// Takes in a voltage reading made now, by the system clock (zero where
    /// the clock reads before the epoch).
    pub fn record_reading(&mut self, voltage: u16) -> (r: BatteryAlert)
        requires
            old(self).wf(),
        ensures
            final(self).wf(),
            final(self)@.history == pushed(old(self)@.history, voltage),
            final(self)@.battery == percentage_spec(total(final(self)@.history) / 50),
            exists|now: u64| {
                &&& r == alert_spec(old(self)@.battery, final(self)@.battery, now, old(self)@.last_low, old(self)@.last_crit)
                &&& final(self)@.last_low == (if r == BatteryAlert::Low { now } else { old(self)@.last_low })
                &&& final(self)@.last_crit == (if r == BatteryAlert::Critical { now } else { old(self)@.last_crit })
            },
    {
        let now = match now_secs() {
            Some(t) => t,
            None => 0,
        };
        self.record(voltage, now)
    }
}

} // verus!
