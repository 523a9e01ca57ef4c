use kernel_core::addr::{PageLevel, PhysPageNum, VirtPageNum};
use kernel_core::addr_space::{MapError, PagedAddrSpace};
use kernel_core::frame_alloc::{FrameAllocError, StackFrameAllocator};
use kernel_core::paging::{FrameBox, PageMode, PageTable, PageTableEntry, ENTRIES_PER_TABLE};
use kernel_core::sv39::{Sv39, Sv39Flags, Sv39PageEntry};

fn flags(bits: u8) -> Sv39Flags {
    Sv39Flags::from_bits_truncate(bits)
}

fn rw() -> Sv39Flags {
    flags(Sv39Flags::V | Sv39Flags::R | Sv39Flags::W)
}

fn free_count(alloc: &mut StackFrameAllocator) -> usize {
    let mut taken = Vec::new();
    while let Ok(p) = alloc.allocate_frame() {
        taken.push(p);
    }
    let n = taken.len();
    while let Some(p) = taken.pop() {
        alloc.deallocate_frame(p);
    }
    n
}

#[test]
fn sv39_flags_are_one_bit_each() {
    assert_eq!(Sv39Flags::V, 1 << 0);
    assert_eq!(Sv39Flags::R, 1 << 1);
    assert_eq!(Sv39Flags::W, 1 << 2);
    assert_eq!(Sv39Flags::X, 1 << 3);
    assert_eq!(Sv39Flags::U, 1 << 4);
    assert_eq!(Sv39Flags::G, 1 << 5);
    assert_eq!(Sv39Flags::A, 1 << 6);
    assert_eq!(Sv39Flags::D, 1 << 7);
    assert_eq!(flags(0xff).bits(), 0xff);
    assert_eq!(Sv39Flags::empty().bits(), 0);
    assert!(rw().contains(flags(Sv39Flags::V)));
    assert!(rw().contains(flags(Sv39Flags::R | Sv39Flags::W)));
    assert!(!rw().contains(flags(Sv39Flags::X)));
    assert!(!rw().contains(flags(Sv39Flags::R | Sv39Flags::X)));
    assert_eq!(flags(Sv39Flags::V).union(flags(Sv39Flags::U)), flags(0x11));
}

#[test]
fn sv39_entry_reads_back_what_was_written() {
    let mut entry = Sv39PageEntry { bits: 0 };
    entry.write_ppn_flags(PhysPageNum(0x1234), flags(0x0f));
    assert_eq!(entry.bits, 0x12340f);
    assert_eq!(entry.ppn(), PhysPageNum(0x1234));
    assert_eq!(entry.flags(), flags(0x0f));
    entry.write_ppn_flags(PhysPageNum(0x3fff_ffff_ffff), flags(0xff));
    assert_eq!(entry.ppn(), PhysPageNum(0x3fff_ffff_ffff));
    assert_eq!(entry.flags(), flags(0xff));
}

#[test]
fn sv39_entry_page_number_is_bits_8_to_53() {
    let entry = Sv39PageEntry { bits: u64::MAX };
    assert_eq!(entry.ppn(), PhysPageNum(0x3fff_ffff_ffff));
    assert_eq!(entry.flags(), flags(0xff));
    let entry = Sv39PageEntry { bits: 0xffc0_0000_0000_00aa };
    assert_eq!(entry.ppn(), PhysPageNum(0));
    assert_eq!(entry.flags(), flags(0xaa));
    let mut wide = Sv39PageEntry { bits: 0 };
    wide.write_ppn_flags(PhysPageNum(0x4000_0000_0001), flags(1));
    assert_eq!(wide.ppn(), PhysPageNum(1));
}

#[test]
fn sv39_mode_levels_and_indices() {
    assert_eq!(Sv39::root_level(), PageLevel(3));
    assert_eq!(Sv39::visit_levels(), vec![PageLevel(2), PageLevel(1), PageLevel(0)]);
    assert_eq!(Sv39::get_layout_for_level(PageLevel(0)).frame_align(), 1);
    assert_eq!(Sv39::get_layout_for_level(PageLevel(1)).frame_align(), 512);
    assert_eq!(Sv39::get_layout_for_level(PageLevel(2)).frame_align(), 512 * 512);
    let vpn = VirtPageNum((3 << 18) | (511 << 9) | 7);
    assert_eq!(Sv39::vpn_index(vpn, PageLevel(2)), 3);
    assert_eq!(Sv39::vpn_index(vpn, PageLevel(1)), 511);
    assert_eq!(Sv39::vpn_index(vpn, PageLevel(0)), 7);
    assert_eq!(Sv39::vpn_index(VirtPageNum(u64::MAX), PageLevel(2)), 511);
}

#[test]
fn sv39_mode_entries() {
    assert_eq!(Sv39::convert_entry(&PageTableEntry { bits: 0 }), None);
    assert_eq!(Sv39::convert_entry(&PageTableEntry { bits: 0xfffe }), None);
    let e = Sv39::convert_entry(&PageTableEntry { bits: 0x8020_0f }).unwrap();
    assert_eq!(Sv39::entry_ppn(&e), PhysPageNum(0x8020));
    assert_eq!(Sv39::entry_flags(&e), flags(0x0f));
    assert_eq!(Sv39::new_entry(PhysPageNum(0x80200), rw()), PageTableEntry { bits: 0x8020007 });
    assert_eq!(Sv39::table_flags(), flags(Sv39Flags::V));
    assert_eq!(Sv39::vacant_entry(), PageTableEntry { bits: 0 });
    let mut entry = Sv39PageEntry { bits: 5 };
    Sv39::write_ppn_flags(&mut entry, PhysPageNum(2), flags(3));
    assert_eq!(entry.bits, 0x203);
}

#[test]
fn page_table_starts_vacant() {
    let mut table = PageTable::zeroed();
    assert_eq!(table.entries.len(), ENTRIES_PER_TABLE);
    table.entries[17] = PageTableEntry { bits: 0xdead };
    Sv39::fill_page_table_invalid(&mut table);
    assert_eq!(table.entries.len(), 512);
    assert!(table.entries.iter().all(|e| e.bits == 0));
}

#[test]
fn frame_box_takes_and_gives_back() {
    let mut alloc = StackFrameAllocator::new(PhysPageNum(8), PhysPageNum(9));
    let frame = FrameBox::try_new_in(&mut alloc).unwrap();
    assert_eq!(frame.phys_page_num(), PhysPageNum(8));
    assert!(matches!(FrameBox::try_new_in(&mut alloc), Err(FrameAllocError)));
    frame.release(&mut alloc);
    assert_eq!(alloc.allocate_frame(), Ok(PhysPageNum(8)));
    assert_eq!(FrameBox::from_ppn(PhysPageNum(3)).phys_page_num(), PhysPageNum(3));
}

#[test]
fn new_space_takes_one_frame_and_maps_nothing() {
    let mut alloc = StackFrameAllocator::new(PhysPageNum(0x80300), PhysPageNum(0x80400));
    let space = PagedAddrSpace::try_new_in(Sv39, &mut alloc).unwrap();
    assert_eq!(space.root_ppn(), PhysPageNum(0x80300));
    assert_eq!(space.page_mode(), Sv39);
    assert_eq!(space.translate(VirtPageNum(0)), None);
    assert_eq!(space.translate(VirtPageNum(0x7ff_ffff)), None);
    assert_eq!(alloc.allocate_frame(), Ok(PhysPageNum(0x80301)));
}

#[test]
fn new_space_fails_without_a_frame() {
    let mut alloc = StackFrameAllocator::new(PhysPageNum(4), PhysPageNum(4));
    assert!(matches!(PagedAddrSpace::try_new_in(Sv39, &mut alloc), Err(FrameAllocError)));
}

#[test]
fn map_then_translate_gives_the_mapping_back() {
    let mut alloc = StackFrameAllocator::new(PhysPageNum(0x80300), PhysPageNum(0x80400));
    let mut space = PagedAddrSpace::try_new_in(Sv39, &mut alloc).unwrap();
    let vpn = VirtPageNum(0x12345);
    assert_eq!(space.map_page(vpn, PhysPageNum(0x80999), rw(), &mut alloc), Ok(()));
    assert_eq!(space.translate(vpn), Some((PhysPageNum(0x80999), rw())));
    assert_eq!(space.translate(VirtPageNum(0x12346)), None);
    assert_eq!(space.translate(VirtPageNum(0x12345 + 512)), None);
    assert_eq!(space.translate(VirtPageNum(0x12345 + 512 * 512)), None);
    assert_eq!(alloc.allocate_frame(), Ok(PhysPageNum(0x80303)));
}

#[test]
fn map_twice_is_a_conflict() {
    let mut alloc = StackFrameAllocator::new(PhysPageNum(0x80300), PhysPageNum(0x80400));
    let mut space = PagedAddrSpace::try_new_in(Sv39, &mut alloc).unwrap();
    let vpn = VirtPageNum(77);
    assert_eq!(space.map_page(vpn, PhysPageNum(1), rw(), &mut alloc), Ok(()));
    assert_eq!(space.map_page(vpn, PhysPageNum(2), rw(), &mut alloc), Err(MapError::Conflict));
    assert_eq!(space.translate(vpn), Some((PhysPageNum(1), rw())));
    assert_eq!(space.unmap(vpn), Some((PhysPageNum(1), rw())));
    assert_eq!(space.map_page(vpn, PhysPageNum(2), rw(), &mut alloc), Ok(()));
    assert_eq!(space.translate(vpn), Some((PhysPageNum(2), rw())));
}

#[test]
fn pages_above_27_bits_share_a_slot() {
    let mut alloc = StackFrameAllocator::new(PhysPageNum(0x80300), PhysPageNum(0x80400));
    let mut space = PagedAddrSpace::try_new_in(Sv39, &mut alloc).unwrap();
    assert_eq!(space.map_page(VirtPageNum(5), PhysPageNum(9), rw(), &mut alloc), Ok(()));
    assert_eq!(space.translate(VirtPageNum(5 + (1 << 27))), Some((PhysPageNum(9), rw())));
    assert_eq!(
        space.map_page(VirtPageNum(5 + (1 << 27)), PhysPageNum(9), rw(), &mut alloc),
        Err(MapError::Conflict)
    );
}

#[test]
fn unmap_of_an_unmapped_page_changes_nothing() {
    let mut alloc = StackFrameAllocator::new(PhysPageNum(0x80300), PhysPageNum(0x80400));
    let mut space = PagedAddrSpace::try_new_in(Sv39, &mut alloc).unwrap();
    assert_eq!(space.unmap(VirtPageNum(3)), None);
    assert_eq!(space.map_page(VirtPageNum(4), PhysPageNum(44), rw(), &mut alloc), Ok(()));
    assert_eq!(space.unmap(VirtPageNum(3)), None);
    assert_eq!(space.unmap(VirtPageNum(4 + 512)), None);
    assert_eq!(space.translate(VirtPageNum(4)), Some((PhysPageNum(44), rw())));
    assert_eq!(space.unmap(VirtPageNum(4)), Some((PhysPageNum(44), rw())));
    assert_eq!(space.unmap(VirtPageNum(4)), None);
    assert_eq!(space.translate(VirtPageNum(4)), None);
}

#[test]
fn a_leaf_without_the_valid_flag_maps_nothing() {
    let mut alloc = StackFrameAllocator::new(PhysPageNum(0x80300), PhysPageNum(0x80400));
    let mut space = PagedAddrSpace::try_new_in(Sv39, &mut alloc).unwrap();
    let no_v = flags(Sv39Flags::R | Sv39Flags::W);
    assert_eq!(space.map_page(VirtPageNum(1), PhysPageNum(2), no_v, &mut alloc), Ok(()));
    assert_eq!(space.translate(VirtPageNum(1)), None);
    assert_eq!(space.map_page(VirtPageNum(1), PhysPageNum(3), rw(), &mut alloc), Ok(()));
    assert_eq!(space.translate(VirtPageNum(1)), Some((PhysPageNum(3), rw())));
}

#[test]
fn tables_are_made_only_where_they_are_missing() {
    let mut alloc = StackFrameAllocator::new(PhysPageNum(0), PhysPageNum(100));
    let mut space = PagedAddrSpace::try_new_in(Sv39, &mut alloc).unwrap();
    let before = free_count(&mut alloc);
    assert_eq!(before, 99);
    assert_eq!(space.map_page(VirtPageNum(0), PhysPageNum(1000), rw(), &mut alloc), Ok(()));
    assert_eq!(free_count(&mut alloc), 97);
    assert_eq!(space.map_page(VirtPageNum(1), PhysPageNum(1001), rw(), &mut alloc), Ok(()));
    assert_eq!(free_count(&mut alloc), 97);
    assert_eq!(space.map_page(VirtPageNum(512), PhysPageNum(1002), rw(), &mut alloc), Ok(()));
    assert_eq!(free_count(&mut alloc), 96);
    assert_eq!(space.map_page(VirtPageNum(512 * 512), PhysPageNum(1003), rw(), &mut alloc), Ok(()));
    assert_eq!(free_count(&mut alloc), 94);
    assert_eq!(space.unmap(VirtPageNum(512 * 512)), Some((PhysPageNum(1003), rw())));
    assert_eq!(free_count(&mut alloc), 94);
}

#[test]
fn map_fails_when_the_allocator_runs_out() {
    let mut alloc = StackFrameAllocator::new(PhysPageNum(0), PhysPageNum(2));
    let mut space = PagedAddrSpace::try_new_in(Sv39, &mut alloc).unwrap();
    assert_eq!(
        space.map_page(VirtPageNum(9), PhysPageNum(90), rw(), &mut alloc),
        Err(MapError::OutOfMemory)
    );
    assert_eq!(space.translate(VirtPageNum(9)), None);
    assert_eq!(alloc.allocate_frame(), Err(FrameAllocError));
    alloc.deallocate_frame(PhysPageNum(50));
    assert_eq!(space.map_page(VirtPageNum(9), PhysPageNum(90), rw(), &mut alloc), Ok(()));
    assert_eq!(space.translate(VirtPageNum(9)), Some((PhysPageNum(90), rw())));
}

#[test]
fn map_of_a_run_of_pages() {
    let mut alloc = StackFrameAllocator::new(PhysPageNum(0), PhysPageNum(100));
    let mut space = PagedAddrSpace::try_new_in(Sv39, &mut alloc).unwrap();
    assert_eq!(space.map(VirtPageNum(510), 4, PhysPageNum(0x9000), rw(), &mut alloc), Ok(()));
    for j in 0..4u64 {
        assert_eq!(space.translate(VirtPageNum(510 + j)), Some((PhysPageNum(0x9000 + j), rw())));
    }
    assert_eq!(space.translate(VirtPageNum(509)), None);
    assert_eq!(space.translate(VirtPageNum(514)), None);
    assert_eq!(space.map(VirtPageNum(7), 0, PhysPageNum(1), rw(), &mut alloc), Ok(()));
    assert_eq!(space.translate(VirtPageNum(7)), None);
}

#[test]
fn map_of_a_run_stops_at_a_conflict() {
    let mut alloc = StackFrameAllocator::new(PhysPageNum(0), PhysPageNum(100));
    let mut space = PagedAddrSpace::try_new_in(Sv39, &mut alloc).unwrap();
    assert_eq!(space.map_page(VirtPageNum(12), PhysPageNum(1), rw(), &mut alloc), Ok(()));
    assert_eq!(
        space.map(VirtPageNum(10), 5, PhysPageNum(0x500), rw(), &mut alloc),
        Err((2, MapError::Conflict))
    );
    assert_eq!(space.translate(VirtPageNum(10)), Some((PhysPageNum(0x500), rw())));
    assert_eq!(space.translate(VirtPageNum(11)), Some((PhysPageNum(0x501), rw())));
    assert_eq!(space.translate(VirtPageNum(12)), Some((PhysPageNum(1), rw())));
    assert_eq!(space.translate(VirtPageNum(13)), None);
}

#[test]
fn map_of_a_run_stops_when_the_allocator_runs_out() {
    let mut alloc = StackFrameAllocator::new(PhysPageNum(0), PhysPageNum(3));
    let mut space = PagedAddrSpace::try_new_in(Sv39, &mut alloc).unwrap();
    assert_eq!(
        space.map(VirtPageNum(511), 3, PhysPageNum(0x700), rw(), &mut alloc),
        Err((1, MapError::OutOfMemory))
    );
    assert_eq!(space.translate(VirtPageNum(511)), Some((PhysPageNum(0x700), rw())));
    assert_eq!(space.translate(VirtPageNum(512)), None);
}

#[test]
fn teardown_gives_every_frame_back_once() {
    let mut alloc = StackFrameAllocator::new(PhysPageNum(0x80300), PhysPageNum(0x80340));
    let before = free_count(&mut alloc);
    assert_eq!(before, 0x40);
    let mut space = PagedAddrSpace::try_new_in(Sv39, &mut alloc).unwrap();
    assert_eq!(space.map(VirtPageNum(0), 1030, PhysPageNum(0x1000), rw(), &mut alloc), Ok(()));
    assert_eq!(space.map_page(VirtPageNum(5 << 18), PhysPageNum(7), rw(), &mut alloc), Ok(()));
    assert_eq!(space.unmap(VirtPageNum(3)), Some((PhysPageNum(0x1003), rw())));
    let during = free_count(&mut alloc);
    assert_eq!(during, 0x40 - 1 - 1 - 3 - 2);
    space.teardown(&mut alloc);
    assert_eq!(free_count(&mut alloc), before);
    let mut seen = Vec::new();
    while let Ok(p) = alloc.allocate_frame() {
        assert!(!seen.contains(&p));
        assert!(p.0 >= 0x80300 && p.0 < 0x80340);
        seen.push(p);
    }
    assert_eq!(seen.len(), 0x40);
}

#[test]
fn teardown_of_a_new_space_gives_the_root_back() {
    let mut alloc = StackFrameAllocator::new(PhysPageNum(10), PhysPageNum(11));
    let space = PagedAddrSpace::try_new_in(Sv39, &mut alloc).unwrap();
    assert_eq!(alloc.allocate_frame(), Err(FrameAllocError));
    space.teardown(&mut alloc);
    assert_eq!(alloc.allocate_frame(), Ok(PhysPageNum(10)));
}

fn walk_in_memory(
    memory: &std::collections::HashMap<u64, Vec<PageTableEntry>>,
    root: PhysPageNum,
    vpn: u64,
) -> Option<(PhysPageNum, Sv39Flags)> {
    let mut table = root.0;
    for level in [2u64, 1, 0] {
        let entry = memory[&table][((vpn >> (9 * level)) & 511) as usize].bits;
        if entry & 1 == 0 {
            return None;
        }
        if level == 0 {
            return Some((PhysPageNum((entry >> 8) & 0x3fff_ffff_ffff), flags((entry & 0xff) as u8)));
        }
        table = (entry >> 8) & 0x3fff_ffff_ffff;
    }
    None
}

#[test]
fn tables_in_memory_say_what_the_space_maps() {
    let mut alloc = StackFrameAllocator::new(PhysPageNum(0x80300), PhysPageNum(0x80400));
    let mut space = PagedAddrSpace::try_new_in(Sv39, &mut alloc).unwrap();
    let pages = [0u64, 1, 511, 512, 513, 0x4_0000, 0x7ff_ffff, 0x12345];
    for (k, vpn) in pages.iter().enumerate() {
        assert_eq!(space.map_page(VirtPageNum(*vpn), PhysPageNum(0x9000 + k as u64), rw(), &mut alloc), Ok(()));
    }
    assert_eq!(space.unmap(VirtPageNum(513)), Some((PhysPageNum(0x9004), rw())));

    let frames = space.frames();
    assert_eq!(frames[0], space.root_ppn());
    assert_eq!(frames.len(), 1 + 2 + 1 + 2 + 2 + 1);
    let mut memory = std::collections::HashMap::new();
    for frame in frames.iter() {
        let table = space.table_of(*frame).unwrap();
        assert_eq!(table.len(), 512);
        assert!(memory.insert(frame.0, table).is_none());
    }
    assert_eq!(space.table_of(PhysPageNum(0x80400)), None);
    assert_eq!(space.table_of(PhysPageNum(0x9000)), None);

    for vpn in pages.iter().chain([2u64, 514, 0x4_0001, 0x7ff_fffe, 1 << 26].iter()) {
        assert_eq!(walk_in_memory(&memory, space.root_ppn(), *vpn), space.translate(VirtPageNum(*vpn)));
    }
    assert_eq!(walk_in_memory(&memory, space.root_ppn(), 513), None);
    assert_eq!(walk_in_memory(&memory, space.root_ppn(), 0x12345), Some((PhysPageNum(0x9007), rw())));
}

#[test]
fn a_new_space_is_one_vacant_table() {
    let mut alloc = StackFrameAllocator::new(PhysPageNum(7), PhysPageNum(9));
    let space = PagedAddrSpace::try_new_in(Sv39, &mut alloc).unwrap();
    assert_eq!(space.frames(), vec![PhysPageNum(7)]);
    assert_eq!(space.table_of(PhysPageNum(7)), Some(vec![PageTableEntry { bits: 0 }; 512]));
    assert_eq!(space.table_of(PhysPageNum(8)), None);
}
