use open_dwarf::timer::Timer;

#[test]
fn timer_counts_up_and_stops() {
    let mut t = Timer::new(100);
    assert!(!t.is_finished());
    t.tick(40);
    assert_eq!(t.elapsed, 40);
    assert!(!t.is_finished());
    t.tick(100);
    assert_eq!(t.elapsed, 100);
    assert!(t.is_finished());
    t.tick(5);
    assert_eq!(t.elapsed, 100);
}

#[test]
fn timer_tick_near_u64_max_does_not_overflow() {
    let mut t = Timer::new(u64::MAX);
    t.tick(u64::MAX - 1);
    t.tick(u64::MAX);
    assert_eq!(t.elapsed, u64::MAX);
    assert!(t.is_finished());
}

#[test]
fn timer_reset_restarts() {
    let mut t = Timer::new(10);
    t.tick(10);
    t.reset();
    assert_eq!(t.elapsed, 0);
    assert_eq!(t.duration, 10);
    assert!(!t.is_finished());
}
