use arena_alloc::arena::AllocError;
use arena_alloc::lab::{from_top, pool_class, LabByteAllocator, POOL_TOTAL};

fn inited(start: usize, size: usize) -> LabByteAllocator {
    let mut a = LabByteAllocator::new();
    a.init(start, size);
    a
}

#[test]
fn init_reserves_pool_sub_range() {
    let a = inited(4096, 1_000_000);
    assert_eq!(a.total_bytes(), 1_000_000 - POOL_TOTAL);
    assert_eq!(a.available_bytes(), 1_000_000 - POOL_TOTAL);
    assert_eq!(a.used_bytes(), 0);
}

#[test]
fn bottom_growing_alloc_returns_low_cursor() {
    let mut a = inited(4096, 1_000_000);
    // 100 is in no ephemeral or pool class on round 0.
    assert_eq!(a.alloc_bytes(100, 8), Ok(4096));
    assert_eq!(a.alloc_bytes(100, 8), Ok(4196));
    assert_eq!(a.used_bytes(), 200);
}

#[test]
fn ephemeral_alloc_comes_from_top() {
    let mut a = inited(4096, 1_000_000);
    let high = 4096 + 1_000_000 - POOL_TOTAL;
    // 96 is always ephemeral away from its collision round.
    assert_eq!(a.alloc_bytes(96, 8), Ok(high - 96));
    assert_eq!(a.available_bytes(), 1_000_000 - POOL_TOTAL - 96);
}

#[test]
fn pool_alloc_comes_from_reserved_sub_range() {
    let mut a = inited(4096, 1_000_000);
    let pool_base = 4096 + 1_000_000 - POOL_TOTAL;
    let avail = a.available_bytes();
    assert_eq!(a.alloc_bytes(2688, 8), Ok(pool_base));
    assert_eq!(a.alloc_bytes(2688, 8), Ok(pool_base + 2688));
    // Pool allocations move neither arena cursor.
    assert_eq!(a.available_bytes(), avail);
    assert_eq!(a.used_bytes(), 2 * 2688);
}

#[test]
fn exhaustion_iff_request_exceeds_available() {
    let mut a = inited(0, 1_000_000);
    let avail = a.available_bytes();
    assert_eq!(a.alloc_bytes(avail + 1, 1), Err(AllocError::NoMemory));
    assert!(a.alloc_bytes(avail, 1).is_ok());
    assert_eq!(a.available_bytes(), 0);
    assert_eq!(a.alloc_bytes(1, 1), Err(AllocError::NoMemory));
}

#[test]
fn batch_flush_returns_freed_span() {
    let mut a = inited(0, 2_000_000);
    let p1 = a.alloc_bytes(524288, 8).unwrap();
    let p2 = a.alloc_bytes(384, 8).unwrap();
    assert_eq!(p2, p1 - 384);
    let avail = a.available_bytes();
    // Freeing the big ephemeral block only accumulates.
    a.dealloc_bytes(p1, 524288, 1);
    assert_eq!(a.available_bytes(), avail);
    // Freeing the trigger size crosses the threshold and flushes both.
    a.dealloc_bytes(p2, 384, 1);
    assert_eq!(a.available_bytes(), 2_000_000 - POOL_TOTAL);
    assert_eq!(a.used_bytes(), 0);
}

#[test]
fn batch_below_threshold_does_not_flush() {
    let mut a = inited(0, 2_000_000);
    let p = a.alloc_bytes(384, 8).unwrap();
    let avail = a.available_bytes();
    a.dealloc_bytes(p, 384, 1);
    // 384 accumulated is far below the threshold: nothing moves.
    assert_eq!(a.available_bytes(), avail);
    assert_eq!(a.used_bytes(), 384);
}

#[test]
fn pool_retirement_credits_whole_sub_range() {
    let mut a = inited(0, 2_000_000);
    let p1 = a.alloc_bytes(524288, 8).unwrap();
    let p2 = a.alloc_bytes(384, 8).unwrap();
    a.dealloc_bytes(p1, 524288, 1);
    // Freeing the largest pool size credits the reserved sub-range too.
    a.dealloc_bytes(0, 43008, 1);
    a.dealloc_bytes(p2, 384, 1);
    // The flush returns the freed span plus the retired pool sub-range,
    // capped at the arena's nominal end.
    assert_eq!(a.available_bytes(), 2_000_000);
}

#[test]
fn non_ephemeral_dealloc_is_noop() {
    let mut a = inited(0, 1_000_000);
    let p = a.alloc_bytes(100, 8).unwrap();
    let avail = a.available_bytes();
    a.dealloc_bytes(p, 100, 1);
    assert_eq!(a.available_bytes(), avail);
    assert_eq!(a.used_bytes(), 100);
}

#[test]
fn add_memory_is_accepted_noop() {
    let mut a = inited(0, 1_000_000);
    assert_eq!(a.add_memory(5_000_000, 64), Ok(()));
    assert_eq!(a.total_bytes(), 1_000_000 - POOL_TOTAL);
}

#[test]
fn from_top_always_ephemeral_sizes() {
    assert!(from_top(96, 0));
    assert!(from_top(192, 0));
    assert!(from_top(384, 0));
}

#[test]
fn from_top_collision_rounds_are_skipped() {
    // The round-adjusted value collides with a bottom-growing 64.
    assert!(!from_top(96, 32));
    assert!(!from_top(192, 128));
    assert!(!from_top(384, 320));
    // The trigger size on its own exception round falls off the ladder.
    assert!(!from_top(384, 128));
}

#[test]
fn from_top_stack_ladder_is_round_adjusted() {
    assert!(from_top(524288, 0));
    assert!(from_top(524289, 1));
    assert!(from_top(32, 0));
    assert!(from_top(37, 5));
    assert!(!from_top(524289, 0));
    assert!(!from_top(100, 0));
    // A round beyond the observed size wraps and never matches.
    assert!(!from_top(32, 33));
}

#[test]
fn pool_class_skips_smallest_on_skip_round() {
    assert!(pool_class(1344, 0));
    assert!(!pool_class(1344, 320));
    assert!(pool_class(2688, 320));
    assert!(pool_class(5376, 0));
    assert!(pool_class(10752, 0));
    assert!(pool_class(21504, 0));
    assert!(pool_class(43008, 0));
    assert!(!pool_class(100, 0));
}
