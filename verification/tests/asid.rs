use kernel_core::asid::{max_asid, AddressSpaceId, AsidAllocError, StackAsidAllocator, ASID_PROBE, DEFAULT_ASID};

#[test]
fn test_asid_alloc() {
    let max_asid = AddressSpaceId(0xffff);
    let mut alloc = StackAsidAllocator::new(max_asid);
    let a1 = alloc.allocate_asid();
    assert_eq!(a1, Ok(AddressSpaceId(0)), "first allocation");
    let a2 = alloc.allocate_asid();
    assert_eq!(a2, Ok(AddressSpaceId(1)), "second allocation");
    alloc.deallocate_asid(a1.unwrap());
    let a3 = alloc.allocate_asid();
    assert_eq!(a3, Ok(AddressSpaceId(0)), "after free first one, third allocation");
    for _ in 0..max_asid.0 - 2 {
        alloc.allocate_asid().unwrap();
    }
    let an = alloc.allocate_asid();
    assert_eq!(an, Ok(max_asid), "last asid");
    let an = alloc.allocate_asid();
    assert_eq!(an, Err(AsidAllocError), "when asid exhausted, allocate next");
    alloc.deallocate_asid(a2.unwrap());
    let an = alloc.allocate_asid();
    assert_eq!(an, Ok(AddressSpaceId(1)), "after free second one, allocate next");
    let an = alloc.allocate_asid();
    assert_eq!(an, Err(AsidAllocError), "no asid remains, allocate next");

    let mut alloc = StackAsidAllocator::new(AddressSpaceId(DEFAULT_ASID));
    let a1 = alloc.allocate_asid();
    assert_eq!(a1, Ok(AddressSpaceId(0)), "asid not implemented, first allocation");
    let a2 = alloc.allocate_asid();
    assert_eq!(a2, Err(AsidAllocError), "asid not implemented, second allocation");
}

#[test]
fn all_identifiers_in_order_then_none() {
    let max = 9u16;
    let mut alloc = StackAsidAllocator::new(AddressSpaceId(max));
    for k in 0..=max {
        assert_eq!(alloc.allocate_asid(), Ok(AddressSpaceId(k)));
    }
    assert_eq!(alloc.allocate_asid(), Err(AsidAllocError));
    assert_eq!(alloc.allocate_asid(), Err(AsidAllocError));
}

#[test]
fn freed_identifier_comes_first() {
    let mut alloc = StackAsidAllocator::new(AddressSpaceId(100));
    for _ in 0..5 {
        alloc.allocate_asid().unwrap();
    }
    alloc.deallocate_asid(AddressSpaceId(2));
    alloc.deallocate_asid(AddressSpaceId(4));
    assert_eq!(alloc.allocate_asid(), Ok(AddressSpaceId(4)));
    assert_eq!(alloc.allocate_asid(), Ok(AddressSpaceId(2)));
    assert_eq!(alloc.allocate_asid(), Ok(AddressSpaceId(5)));
}

#[test]
fn single_identifier_is_given_once() {
    let mut alloc = StackAsidAllocator::new(AddressSpaceId(0));
    assert!(!alloc.can_deallocate_asid(AddressSpaceId(0)));
    assert_eq!(alloc.allocate_asid(), Ok(AddressSpaceId(0)));
    assert!(!alloc.can_deallocate_asid(AddressSpaceId(0)));
    for _ in 0..10 {
        assert_eq!(alloc.allocate_asid(), Err(AsidAllocError));
    }
}

#[test]
fn what_may_be_given_back() {
    let mut alloc = StackAsidAllocator::new(AddressSpaceId(3));
    let a = alloc.allocate_asid().unwrap();
    assert!(alloc.can_deallocate_asid(a));
    assert!(!alloc.can_deallocate_asid(AddressSpaceId(3)));
    assert!(!alloc.can_deallocate_asid(AddressSpaceId(4)));
    alloc.deallocate_asid(a);
    assert!(!alloc.can_deallocate_asid(a));
}

#[test]
fn next_asid_stops_at_the_maximum() {
    assert_eq!(AddressSpaceId(3).next_asid(AddressSpaceId(5)), Some(AddressSpaceId(4)));
    assert_eq!(AddressSpaceId(5).next_asid(AddressSpaceId(5)), None);
    assert_eq!(AddressSpaceId(6).next_asid(AddressSpaceId(5)), None);
    assert_eq!(AddressSpaceId(0xfffe).next_asid(AddressSpaceId(0xffff)), Some(AddressSpaceId(0xffff)));
}

#[test]
fn max_asid_reads_the_identifier_field() {
    assert_eq!(ASID_PROBE, 0xffffu64 << 44);
    assert_eq!(max_asid(ASID_PROBE), AddressSpaceId(0xffff));
    assert_eq!(max_asid(0), AddressSpaceId(0));
    assert_eq!(max_asid(0x801f_f000_0000_0123), AddressSpaceId(0x1ff));
    assert_eq!(max_asid(u64::MAX), AddressSpaceId(0xffff));
}
