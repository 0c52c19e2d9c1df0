use styx::telemetry::{Telemetry, TelemetryData};

#[test]
fn new_telemetry_is_empty() {
    let t = Telemetry::new();
    assert!(t.snapshot().is_empty());
}

#[test]
fn increments_count_per_route() {
    let mut t = Telemetry::new();
    t.increment_at(7, 100);
    t.increment_at(7, 200);
    t.increment_at(9, 300);
    let s = t.snapshot();
    assert_eq!(s[&7].count, 2);
    assert_eq!(s[&7].last_clean, 100);
    assert_eq!(s[&9].count, 1);
    assert_eq!(s[&9].last_clean, 300);
    assert_eq!(s.len(), 2);
}

#[test]
fn clear_zeroes_every_route_and_stamps_it() {
    let mut t = Telemetry::new();
    t.increment_at(1, 10);
    t.increment_at(2, 10);
    t.increment_at(2, 11);
    t.clear_at(50);
    let s = t.snapshot();
    assert_eq!(s.len(), 2);
    for (_, d) in s.iter() {
        assert_eq!(d.count, 0);
        assert_eq!(d.last_clean, 50);
    }
    t.increment_at(2, 60);
    assert_eq!(t.snapshot()[&2].count, 1);
    assert_eq!(t.snapshot()[&2].last_clean, 50);
}

#[test]
fn increment_with_clock_counts() {
    let mut t = Telemetry::new();
    t.increment(3);
    t.increment(3);
    assert_eq!(t.snapshot()[&3].count, 2);
    assert!(t.snapshot()[&3].last_clean > 0);
    t.clear();
    assert_eq!(t.snapshot()[&3].count, 0);
}

#[test]
fn count_saturates() {
    let mut t = Telemetry::new();
    t.increment_at(1, 0);
    let s = t.snapshot();
    let d: TelemetryData = s[&1];
    assert_eq!(d.count, 1);
}
