use portal::battery::{battery_percentage, BatteryAlert, BatteryWatch};

/// The charge the original scale gives, computed the way it was written,
/// with the single step of 3.4 mV per percent in floating point.
fn scale(v: u32) -> u8 {
    if v > 13800 {
        150
    } else if v >= 13400 {
        100
    } else if v >= 13300 {
        90 + ((v - 13300) / 10) as u8
    } else if v >= 13250 {
        80 + ((v - 13250) / 5) as u8
    } else if v >= 13200 {
        70 + ((v - 13200) / 5) as u8
    } else if v >= 13100 {
        40 + ((v - 13100) as f32 / 3.4).floor() as u8
    } else if v >= 13000 {
        30 + ((v - 13000) / 10) as u8
    } else if v >= 12900 {
        20 + ((v - 12900) / 10) as u8
    } else if v >= 12000 {
        ((v - 12000) / 45) as u8
    } else {
        0
    }
}

#[test]
fn percentage_points() {
    assert_eq!(battery_percentage(14000), 150);
    assert_eq!(battery_percentage(13800), 100);
    assert_eq!(battery_percentage(13400), 100);
    assert_eq!(battery_percentage(13399), 99);
    assert_eq!(battery_percentage(13300), 90);
    assert_eq!(battery_percentage(13250), 80);
    assert_eq!(battery_percentage(13200), 70);
    assert_eq!(battery_percentage(13117), 45);
    assert_eq!(battery_percentage(13185), 65);
    assert_eq!(battery_percentage(13100), 40);
    assert_eq!(battery_percentage(13050), 35);
    assert_eq!(battery_percentage(12950), 25);
    assert_eq!(battery_percentage(12450), 10);
    assert_eq!(battery_percentage(12000), 0);
    assert_eq!(battery_percentage(11000), 0);
    assert_eq!(battery_percentage(0), 0);
}

#[test]
fn percentage_matches_the_floating_scale() {
    for v in 11000..14500u32 {
        assert_eq!(battery_percentage(v), scale(v), "at {v} mV");
    }
}

#[test]
fn percentage_never_falls_as_voltage_rises() {
    let mut last = 0;
    for v in 0..20000u32 {
        let p = battery_percentage(v);
        assert!(p >= last);
        last = p;
    }
}

#[test]
fn watch_starts_empty() {
    let w = BatteryWatch::new();
    assert_eq!(w.battery(), 0);
}

#[test]
fn watch_averages_over_fifty() {
    let mut w = BatteryWatch::new();
    // One reading of 13400 mV averages to 268 mV over fifty slots.
    assert_eq!(w.record(13400, 10), BatteryAlert::Quiet);
    assert_eq!(w.battery(), 0);
    for t in 0..49 {
        w.record(13400, 11 + t);
    }
    assert_eq!(w.battery(), 100);
}

#[test]
fn watch_warns_when_charge_falls() {
    let mut w = BatteryWatch::new();
    for t in 0..50 {
        w.record(13400, t);
    }
    assert_eq!(w.battery(), 100);
    // Fifty readings at 13000 mV bring the charge down to 30%: low, once.
    let mut alerts = Vec::new();
    for t in 0..50 {
        alerts.push(w.record(13000, 1000 + t));
    }
    assert_eq!(w.battery(), 30);
    assert_eq!(alerts.iter().filter(|a| **a == BatteryAlert::Low).count(), 1);
    // Then down to 12500 mV: 11%, critical.
    let mut alerts = Vec::new();
    for t in 0..50 {
        alerts.push(w.record(12500, 2000 + t));
    }
    assert_eq!(w.battery(), 11);
    assert_eq!(alerts.iter().filter(|a| **a == BatteryAlert::Critical).count(), 1);
}

#[test]
fn record_reading_uses_the_clock() {
    let mut w = BatteryWatch::new();
    for _ in 0..50 {
        w.record_reading(13400);
    }
    assert_eq!(w.battery(), 100);
    let mut low = 0;
    for _ in 0..50 {
        if w.record_reading(13000) == BatteryAlert::Low {
            low += 1;
        }
    }
    assert_eq!(low, 1);
}
