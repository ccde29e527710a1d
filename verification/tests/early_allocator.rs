use arena_alloc::arena::AllocError;
use arena_alloc::early::is_power_of_two;
use arena_alloc::early::EarlyAllocator;

const PAGE: usize = 4096;

fn inited(start: usize, size: usize) -> EarlyAllocator<PAGE> {
    let mut a = EarlyAllocator::<PAGE>::new();
    a.init(start, size);
    a
}

#[test]
fn init_aligned_range() {
    let a = inited(1000, 96);
    assert_eq!(a.total_bytes(), 96);
    assert_eq!(a.used_bytes(), 0);
    assert_eq!(a.available_bytes(), 96);
}

#[test]
fn init_unaligned_range_shrinks_inward() {
    // start rounds up to 1008; end = 1008 + 100 = 1108 rounds down to 1104.
    let a = inited(1001, 100);
    assert_eq!(a.total_bytes(), 96);
}

#[test]
fn alloc_bytes_bumps_bottom_cursor() {
    let mut a = inited(1000, 96);
    assert_eq!(a.alloc_bytes(16, 8), Ok(1000));
    assert_eq!(a.alloc_bytes(8, 8), Ok(1016));
    assert_eq!(a.used_bytes(), 24);
    assert_eq!(a.available_bytes(), 72);
}

#[test]
fn alloc_bytes_exhaustion_iff_too_big() {
    let mut a = inited(0, 64);
    assert_eq!(a.alloc_bytes(65, 1), Err(AllocError::NoMemory));
    assert_eq!(a.alloc_bytes(64, 1), Ok(0));
    assert_eq!(a.available_bytes(), 0);
    assert_eq!(a.alloc_bytes(1, 1), Err(AllocError::NoMemory));
}

#[test]
fn dealloc_bytes_lifo_reclaims() {
    let mut a = inited(1000, 96);
    let p1 = a.alloc_bytes(16, 8).unwrap();
    let p2 = a.alloc_bytes(8, 8).unwrap();
    a.dealloc_bytes(p2, 8, 8);
    assert_eq!(a.available_bytes(), 80);
    a.dealloc_bytes(p1, 16, 8);
    assert_eq!(a.available_bytes(), 96);
    assert_eq!(a.used_bytes(), 0);
    // The cursor is back: the next allocation starts at the arena base again.
    assert_eq!(a.alloc_bytes(16, 8), Ok(1000));
}

#[test]
fn dealloc_bytes_out_of_order_is_noop_leak() {
    let mut a = inited(1000, 96);
    let p1 = a.alloc_bytes(16, 8).unwrap();
    let _p2 = a.alloc_bytes(8, 8).unwrap();
    a.dealloc_bytes(p1, 16, 8);
    assert_eq!(a.used_bytes(), 24);
    assert_eq!(a.available_bytes(), 72);
}

#[test]
fn dealloc_bytes_oversized_claim_is_noop() {
    let mut a = inited(1000, 96);
    let _ = a.alloc_bytes(16, 8).unwrap();
    // Ends at the cursor but claims more than was ever handed out.
    a.dealloc_bytes(992, 24, 8);
    assert_eq!(a.used_bytes(), 16);
}

#[test]
fn add_memory_unsupported() {
    let mut a = inited(0, 64);
    assert_eq!(a.add_memory(1024, 64), Err(AllocError::Unsupported));
    assert_eq!(a.total_bytes(), 64);
}

#[test]
fn alloc_pages_comes_from_top() {
    let mut a = inited(0, 10 * PAGE);
    assert_eq!(a.total_pages(), 10);
    assert_eq!(a.alloc_pages(2, PAGE), Ok(8 * PAGE));
    assert_eq!(a.used_pages(), 2);
    assert_eq!(a.available_pages(), 8);
    assert_eq!(a.available_bytes(), 8 * PAGE);
}

#[test]
fn alloc_pages_top_cursor_strictly_decreases() {
    let mut a = inited(0, 10 * PAGE);
    let p1 = a.alloc_pages(2, PAGE).unwrap();
    let p2 = a.alloc_pages(1, PAGE).unwrap();
    let p3 = a.alloc_pages(3, PAGE).unwrap();
    // Each address is exactly the previous one minus the new span.
    assert_eq!(p2, p1 - PAGE);
    assert_eq!(p3, p2 - 3 * PAGE);
}

#[test]
fn alloc_pages_rejects_bad_alignment() {
    let mut a = inited(0, 10 * PAGE);
    assert_eq!(a.alloc_pages(1, 100), Err(AllocError::InvalidParam));
    assert_eq!(a.alloc_pages(1, 3 * PAGE), Err(AllocError::InvalidParam));
    assert_eq!(a.alloc_pages(1, 2 * PAGE), Ok(9 * PAGE));
}

#[test]
fn alloc_pages_exhaustion() {
    let mut a = inited(0, PAGE);
    assert_eq!(a.alloc_pages(2, PAGE), Err(AllocError::NoMemory));
    assert_eq!(a.alloc_pages(1, PAGE), Ok(0));
}

#[test]
fn dealloc_pages_only_adjusts_accounting() {
    let mut a = inited(0, 10 * PAGE);
    let p = a.alloc_pages(2, PAGE).unwrap();
    a.dealloc_pages(p, 1);
    assert_eq!(a.used_pages(), 1);
    // The range itself is not returned: the next page block is lower.
    assert_eq!(a.alloc_pages(1, PAGE), Ok(7 * PAGE));
}

#[test]
fn dealloc_pages_saturates_at_zero() {
    let mut a = inited(0, 10 * PAGE);
    let p = a.alloc_pages(2, PAGE).unwrap();
    a.dealloc_pages(p, 5);
    assert_eq!(a.used_pages(), 0);
}

#[test]
fn accounting_partitions_total() {
    let mut a = inited(0, 10 * PAGE);
    let _ = a.alloc_bytes(100, 8).unwrap();
    let _ = a.alloc_pages(3, PAGE).unwrap();
    assert_eq!(
        a.used_bytes() + a.used_pages() * PAGE + a.available_bytes(),
        a.total_bytes()
    );
}

#[test]
fn bytes_and_pages_never_collide() {
    let mut a = inited(0, 4 * PAGE);
    let b = a.alloc_bytes(64, 8).unwrap();
    let p = a.alloc_pages(2, PAGE).unwrap();
    assert!(b + 64 <= p);
    assert_eq!(p, 2 * PAGE);
}

#[test]
fn power_of_two_check() {
    assert!(is_power_of_two(1));
    assert!(is_power_of_two(2));
    assert!(is_power_of_two(4096));
    assert!(!is_power_of_two(0));
    assert!(!is_power_of_two(3));
    assert!(!is_power_of_two(6));
    assert!(!is_power_of_two(4097));
}
