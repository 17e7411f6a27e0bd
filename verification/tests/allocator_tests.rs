use moncomble_os::slab_allocator::SlabAllocator;

#[test]
fn uninitialized_allocator_refuses() {
    let mut a = SlabAllocator::new();
    assert_eq!(a.allocate(1), None);
    assert_eq!(a.allocate(0), None);
}

#[test]
fn blocks_follow_one_another() {
    let mut a = SlabAllocator::new();
    a.init(0xA000, 64 * 1024);
    assert_eq!(a.allocate(32), Some(0xA000));
    assert_eq!(a.allocate(64), Some(0xA020));
    assert_eq!(a.allocate(1), Some(0xA060));
}

#[test]
fn block_that_ends_at_heap_end_is_granted() {
    let mut a = SlabAllocator::new();
    a.init(0x1000, 0x100);
    assert_eq!(a.allocate(0x100), Some(0x1000));
    assert_eq!(a.allocate(1), None);
    assert_eq!(a.allocate(0), Some(0x1100));
}

#[test]
fn refused_request_does_not_move_next_block() {
    let mut a = SlabAllocator::new();
    a.init(0x400000, 256 * 1024);
    assert_eq!(a.allocate(16), Some(0x400000));
    assert_eq!(a.allocate(256 * 1024), None);
    assert_eq!(a.allocate(16), Some(0x400010));
}

#[test]
fn huge_request_is_refused() {
    let mut a = SlabAllocator::new();
    a.init(0x1000, 0x1000);
    assert_eq!(a.allocate(usize::MAX), None);
    assert_eq!(a.allocate(8), Some(0x1000));
}

#[test]
fn deallocate_reclaims_nothing() {
    let mut a = SlabAllocator::new();
    a.init(0x2000, 0x40);
    let p = a.allocate(0x20).unwrap();
    a.deallocate(p);
    assert_eq!(a.allocate(0x20), Some(0x2020));
    assert_eq!(a.allocate(0x20), None);
}

#[test]
fn heap_at_address_zero() {
    let mut a = SlabAllocator::new();
    a.init(0, 16);
    assert_eq!(a.allocate(0), Some(0));
    assert_eq!(a.allocate(4), Some(0));
    assert_eq!(a.allocate(4), Some(4));
    assert_eq!(a.allocate(9), None);
}

#[test]
fn init_again_keeps_next_block() {
    let mut a = SlabAllocator::new();
    a.init(0x1000, 0x100);
    assert_eq!(a.allocate(0x10), Some(0x1000));
    a.init(0x1000, 0x200);
    assert_eq!(a.allocate(0x10), Some(0x1010));
}
