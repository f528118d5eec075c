use graviplex::{ChangeTick, ChangeTrackers, Tick};

#[test]
fn test_tick_comparison() {
    let t1 = Tick::new(5);
    let t2 = Tick::new(10);
    let t3 = Tick::new(5);

    assert!(t2.is_newer_than(t1));
    assert!(!t1.is_newer_than(t2));
    assert!(!t1.is_newer_than(t3));
}

#[test]
fn test_tick_wraparound() {
    let near_max = Tick::new(u32::MAX - 5);
    let wrapped = Tick::new(5);

    assert!(wrapped.is_newer_than(near_max));
    assert!(!near_max.is_newer_than(wrapped));
}

#[test]
fn test_change_tick() {
    let mut ct = ChangeTick::new();

    assert!(!ct.is_changed_since(Tick::new(0)));

    ct.mark_changed(Tick::new(5));

    assert!(ct.is_changed_since(Tick::new(3)));
    assert!(!ct.is_changed_since(Tick::new(7)));
}

#[test]
fn test_change_trackers() {
    let mut trackers = ChangeTrackers::new();

    assert_eq!(trackers.current_tick(), Tick::new(0));

    let t1 = trackers.advance_tick();
    assert_eq!(t1, Tick::new(1));

    let t2 = trackers.advance_tick();
    assert_eq!(t2, Tick::new(2));
}

#[test]
fn test_tick_range() {
    let start = Tick::new(5);
    let end = Tick::new(10);

    assert!(Tick::new(5).is_in_range(start, end));
    assert!(Tick::new(7).is_in_range(start, end));
    assert!(Tick::new(10).is_in_range(start, end));
    assert!(!Tick::new(4).is_in_range(start, end));
    assert!(!Tick::new(11).is_in_range(start, end));
}

#[test]
fn tick_next_wraps_to_zero() {
    let t = Tick::new(u32::MAX).next();
    assert_eq!(t.get(), 0);
    assert!(t.is_newer_than(Tick::new(u32::MAX)));
    assert_eq!(Tick::zero().get(), 0);
}

#[test]
fn tick_newer_limit_is_half_range() {
    // Exactly u32::MAX / 2 steps ahead is no longer "newer".
    let base = Tick::new(0);
    assert!(Tick::new(u32::MAX / 2 - 1).is_newer_than(base));
    assert!(!Tick::new(u32::MAX / 2).is_newer_than(base));
}

#[test]
fn tick_range_across_wraparound() {
    let start = Tick::new(u32::MAX - 2);
    let end = Tick::new(3);
    assert!(Tick::new(u32::MAX).is_in_range(start, end));
    assert!(Tick::new(0).is_in_range(start, end));
    assert!(Tick::new(3).is_in_range(start, end));
    assert!(!Tick::new(4).is_in_range(start, end));
    assert!(!Tick::new(u32::MAX - 3).is_in_range(start, end));
}

#[test]
fn change_tick_at_and_last_changed() {
    let ct = ChangeTick::at(Tick::new(42));
    assert_eq!(ct.last_changed(), Tick::new(42));
    assert!(!ct.is_changed_since(Tick::new(42)));
    assert!(ct.is_changed_since(Tick::new(41)));
}

#[test]
fn atomic_tick_store_load_increment() {
    let mut a = graviplex::AtomicTick::new(7);
    assert_eq!(a.load(), Tick::new(7));
    a.store(Tick::new(u32::MAX));
    assert_eq!(a.increment(), Tick::new(0));
    assert_eq!(a.load(), Tick::new(0));
}

#[test]
fn advanced_ticks_are_newer_than_earlier_ones() {
    let mut trackers = ChangeTrackers::new();
    let first = trackers.advance_tick();
    let second = trackers.advance_tick();
    assert!(second.is_newer_than(first));
    assert!(!first.is_newer_than(second));
    assert_eq!(trackers.current_tick(), second);
}
