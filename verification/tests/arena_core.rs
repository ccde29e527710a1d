use arena_alloc::arena::Arena;

#[test]
fn fresh_arena_is_all_free() {
    let a = Arena::new(100, 200);
    assert_eq!(a.base(), 100);
    assert_eq!(a.low(), 100);
    assert_eq!(a.high(), 200);
    assert_eq!(a.limit(), 200);
    assert_eq!(a.free_len(), 100);
}

#[test]
fn cursors_meet_in_the_middle() {
    let mut a = Arena::new(0, 100);
    assert_eq!(a.take_low(30), 0);
    assert_eq!(a.take_high(20), 80);
    assert_eq!(a.low(), 30);
    assert_eq!(a.high(), 80);
    assert_eq!(a.free_len(), 50);
}

#[test]
fn give_high_returns_span() {
    let mut a = Arena::new(0, 100);
    let _ = a.take_high(40);
    a.give_high(40);
    assert_eq!(a.high(), 100);
    assert_eq!(a.free_len(), 100);
}

#[test]
fn give_high_caps_at_limit() {
    let mut a = Arena::new(0, 100);
    let _ = a.take_high(10);
    a.give_high(25);
    assert_eq!(a.high(), 100);
}

#[test]
fn give_low_returns_span() {
    let mut a = Arena::new(50, 100);
    let _ = a.take_low(20);
    a.give_low(20);
    assert_eq!(a.low(), 50);
}

#[test]
fn top_reserve_starts_below_limit() {
    let a = Arena::with_top_reserve(0, 80, 100);
    assert_eq!(a.high(), 80);
    assert_eq!(a.limit(), 100);
    assert_eq!(a.free_len(), 80);
}
