use engine::time::TimeManager;

#[test]
fn tick_reports_advance_of_the_clock() {
    let mut t = TimeManager::new();
    assert_eq!(t.tick_at(10), 10);
    assert_eq!(t.tick_at(25), 15);
    assert_eq!(t.tick_at(25), 0);
}

#[test]
fn tick_never_goes_negative_on_a_stalled_reading() {
    let mut t = TimeManager::new();
    assert_eq!(t.tick_at(100), 100);
    // a reading that did not advance reports zero and keeps the reference
    assert_eq!(t.tick_at(40), 0);
    assert_eq!(t.tick_at(130), 30);
}

#[test]
fn real_clock_ticks_are_never_negative_and_sum_below_total() {
    let mut t = TimeManager::new();
    let d1 = t.tick();
    let d2 = t.tick();
    let total = t.time_since_start();
    // deltas are unsigned by construction; the total, read afterwards
    // from the same monotonic clock, covers both
    assert!(total >= d1 + d2);
}

#[test]
fn time_since_start_is_monotonic() {
    let t = TimeManager::new();
    let a = t.time_since_start();
    let b = t.time_since_start();
    let c = t.time_since_start();
    assert!(a <= b);
    assert!(b <= c);
}
