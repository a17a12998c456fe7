use finshell::timer::DebouncedTimer;

#[test]
fn arming_twice_leaves_one_fire_after_the_second_arming() {
    let mut t = DebouncedTimer::new();
    let first = t.arm(1_000, 1_000);
    assert!(first.cancelled.is_none());
    assert_eq!(first.armed.deadline_ms, 2_000);
    let second = t.arm(1_400, 1_000);
    let cancelled = second.cancelled.expect("the first handle is handed back");
    assert_eq!(cancelled.id, first.armed.id);
    assert_ne!(second.armed.id, first.armed.id);
    assert_eq!(second.armed.deadline_ms, 2_400);
    // The first timeout has no effect, the second one has, once.
    assert!(!t.on_fire(first.armed));
    assert!(t.pending().is_some());
    assert!(t.on_fire(second.armed));
    assert!(t.pending().is_none());
    assert!(!t.on_fire(second.armed));
}

#[test]
fn polling_fires_at_the_deadline_and_only_once() {
    let mut t = DebouncedTimer::new();
    t.arm(0, 500);
    let second = t.arm(300, 500);
    assert!(t.poll(500).is_none());
    assert!(t.poll(799).is_none());
    let fired = t.poll(800).expect("due at 800");
    assert_eq!(fired.id, second.armed.id);
    assert_eq!(fired.deadline_ms, 800);
    assert!(t.poll(800).is_none());
    assert!(t.poll(u64::MAX).is_none());
}

#[test]
fn cancelling_clears_the_slot() {
    let mut t = DebouncedTimer::new();
    assert!(t.cancel().is_none());
    let armed = t.arm(10, 10).armed;
    let cancelled = t.cancel().expect("a handle was pending");
    assert_eq!(cancelled.id, armed.id);
    assert!(t.pending().is_none());
    assert!(!t.on_fire(armed));
    assert!(t.poll(1_000).is_none());
}

#[test]
fn the_deadline_stops_at_the_end_of_time() {
    let mut t = DebouncedTimer::new();
    let out = t.arm(u64::MAX - 5, 10);
    assert_eq!(out.armed.deadline_ms, u64::MAX);
    assert!(t.poll(u64::MAX - 1).is_none());
    assert!(t.poll(u64::MAX).is_some());
}

#[test]
fn handles_are_numbered_in_order() {
    let mut t = DebouncedTimer::new();
    let a = t.arm(0, 1).armed;
    let b = t.arm(0, 1).armed;
    let c = t.arm(0, 1).armed;
    assert_eq!((a.id, b.id, c.id), (0, 1, 2));
}
