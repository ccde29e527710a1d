use arena_alloc::arena::AllocError;
use arena_alloc::dual::DualArena;
use arena_alloc::policy::{Placement, Policy};

/// A small policy for driving the allocator in tests: 20 and 16 are
/// ephemeral, 16 is the flush trigger, and no pool sub-range is reserved.
fn small_policy() -> Policy {
    Policy {
        eph_sizes: vec![20, 16],
        stack_sizes: vec![],
        pool_sizes: vec![],
        pool_skip_size: 0,
        pool_skip_round: 0,
        pool_retire_size: 0,
        pool_total: 0,
        flush_trigger: 16,
        flush_threshold: 30,
    }
}

#[test]
fn concrete_round_trip_scenario() {
    // A 64-unit arena: bottom-growing and ephemeral allocations land at
    // the two ends, and a triggered flush returns the freed span.
    let mut a = DualArena::new(small_policy());
    a.init(100, 64);
    assert_eq!(a.total_bytes(), 64);
    assert_eq!(a.alloc_bytes(10, 1), Ok(100));
    assert_eq!(a.alloc_bytes(20, 1), Ok(100 + 64 - 20));
    assert_eq!(a.available_bytes(), 34);
    let trig = a.alloc_bytes(16, 1).unwrap();
    assert_eq!(trig, 128);
    a.dealloc_bytes(144, 20, 1);
    assert_eq!(a.round(), 0);
    a.dealloc_bytes(trig, 16, 1);
    // 20 + 16 accumulated exceeds the threshold of 30: both rejoin the
    // free span and the round counter advances by one.
    assert_eq!(a.available_bytes(), 54);
    assert_eq!(a.round(), 1);
    assert_eq!(a.used_bytes(), 10);
}

#[test]
fn flush_below_threshold_changes_nothing() {
    let mut a = DualArena::new(small_policy());
    a.init(0, 64);
    let p = a.alloc_bytes(16, 1).unwrap();
    let avail = a.available_bytes();
    a.dealloc_bytes(p, 16, 1);
    // 16 accumulated is below the threshold of 30.
    assert_eq!(a.available_bytes(), avail);
    assert_eq!(a.round(), 0);
}

#[test]
fn pool_allocations_use_reserved_sub_range() {
    let p = Policy {
        eph_sizes: vec![],
        stack_sizes: vec![],
        pool_sizes: vec![48],
        pool_skip_size: 0,
        pool_skip_round: 0,
        pool_retire_size: 0,
        pool_total: 64,
        flush_trigger: 1,
        flush_threshold: 1000,
    };
    let mut a = DualArena::new(p);
    a.init(0, 192);
    assert_eq!(a.total_bytes(), 128);
    assert_eq!(a.alloc_bytes(48, 1), Ok(128));
    // The pool allocation moved neither cursor; only accounting grew.
    assert_eq!(a.available_bytes(), 128);
    assert_eq!(a.used_bytes(), 48);
}

#[test]
fn pool_skip_round_falls_back_to_bottom() {
    let p = Policy {
        eph_sizes: vec![],
        stack_sizes: vec![],
        pool_sizes: vec![48],
        pool_skip_size: 48,
        pool_skip_round: 7,
        pool_retire_size: 0,
        pool_total: 64,
        flush_trigger: 1,
        flush_threshold: 1000,
    };
    assert_eq!(p.classify(48, 0), Placement::Overflow);
    assert_eq!(p.classify(48, 7), Placement::Bottom);
}

#[test]
fn classify_follows_the_three_classes() {
    let p = Policy {
        eph_sizes: vec![96],
        stack_sizes: vec![32, 512],
        pool_sizes: vec![1344],
        pool_skip_size: 1344,
        pool_skip_round: 320,
        pool_retire_size: 1344,
        pool_total: 4096,
        flush_trigger: 384,
        flush_threshold: 1000,
    };
    assert_eq!(p.classify(96, 0), Placement::Ephemeral);
    assert_eq!(p.classify(96, 12), Placement::Ephemeral);
    assert_eq!(p.classify(32, 0), Placement::Ephemeral);
    assert_eq!(p.classify(33, 1), Placement::Ephemeral);
    assert_eq!(p.classify(517, 5), Placement::Ephemeral);
    assert_eq!(p.classify(33, 0), Placement::Bottom);
    assert_eq!(p.classify(31, 0), Placement::Bottom);
    assert_eq!(p.classify(1344, 0), Placement::Overflow);
    assert_eq!(p.classify(1344, 320), Placement::Bottom);
    assert_eq!(p.classify(100, 0), Placement::Bottom);
}

#[test]
fn pool_retirement_credits_and_caps_at_nominal_end() {
    let p = Policy {
        eph_sizes: vec![8],
        stack_sizes: vec![],
        pool_sizes: vec![48],
        pool_skip_size: 0,
        pool_skip_round: 0,
        pool_retire_size: 48,
        pool_total: 64,
        flush_trigger: 8,
        flush_threshold: 50,
    };
    let mut a = DualArena::new(p);
    a.init(0, 192);
    // Retiring the pool credits its whole 64 bytes; the 8-byte trigger
    // free pushes the batch to 72, over the threshold. The top cursor
    // rises but is capped at the arena's nominal end.
    a.dealloc_bytes(0, 48, 1);
    a.dealloc_bytes(0, 8, 1);
    assert_eq!(a.available_bytes(), 192);
    assert_eq!(a.round(), 1);
}

#[test]
fn dual_exhaustion_iff_request_exceeds_available() {
    let mut a = DualArena::new(small_policy());
    a.init(0, 64);
    assert_eq!(a.alloc_bytes(65, 1), Err(AllocError::NoMemory));
    assert_eq!(a.alloc_bytes(64, 1), Ok(0));
    assert_eq!(a.alloc_bytes(1, 1), Err(AllocError::NoMemory));
}

#[test]
fn dual_add_memory_is_accepted_noop() {
    let mut a = DualArena::new(small_policy());
    a.init(0, 64);
    assert_eq!(a.add_memory(1000, 1000), Ok(()));
    assert_eq!(a.total_bytes(), 64);
    assert_eq!(a.available_bytes(), 64);
}

#[test]
fn accounting_identity_without_pool_allocations() {
    let mut a = DualArena::new(small_policy());
    a.init(0, 64);
    let p1 = a.alloc_bytes(10, 1).unwrap();
    let p2 = a.alloc_bytes(20, 1).unwrap();
    assert_eq!(a.used_bytes() + a.available_bytes(), a.total_bytes());
    a.dealloc_bytes(p2, 20, 1);
    assert_eq!(a.used_bytes() + a.available_bytes(), a.total_bytes());
    a.dealloc_bytes(p1, 10, 1);
    assert_eq!(a.used_bytes() + a.available_bytes(), a.total_bytes());
}
