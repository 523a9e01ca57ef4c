//! Page tables in general: entries, tables, owned frames, and what a paging
//! mode has to say for a multi-level page table to be built on it.

use vstd::prelude::*;
use crate::addr::{FrameLayout, PageLevel, PhysPageNum, VirtPageNum};
use crate::frame_alloc::{FrameAllocError, FrameAllocator};

verus! {

/// Entries in one page table: a 4096-byte frame of 8-byte entries.
pub const ENTRIES_PER_TABLE: usize = 512;

/// One entry of a page table as it lies in memory: a machine word. What its
/// bits mean is up to the paging mode.
#[derive(Copy, Clone, PartialEq, Eq, Debug, Structural)]
pub struct PageTableEntry {
    pub bits: u64,
}

/// One frame's worth of page-table entries.
#[derive(Debug)]
pub struct PageTable {
    pub entries: Vec<PageTableEntry>,
}

impl PageTable {
    /// A table has exactly [`ENTRIES_PER_TABLE`] entries.
    pub open spec fn wf(&self) -> bool {
        self.entries@.len() == ENTRIES_PER_TABLE
    }

    /// A table of entries that are all zero.
    pub fn zeroed() -> (r: PageTable)
        ensures
            r.wf(),
            forall|i: int| 0 <= i < ENTRIES_PER_TABLE ==> (#[trigger] r.entries@[i]).bits == 0,
    {
        let mut entries: Vec<PageTableEntry> = Vec::new();
        let mut i: usize = 0;
        while i < ENTRIES_PER_TABLE
            invariant
                i <= ENTRIES_PER_TABLE,
                entries@.len() == i,
                forall|j: int| 0 <= j < i ==> (#[trigger] entries@[j]).bits == 0,
            decreases ENTRIES_PER_TABLE - i,
        {
            entries.push(PageTableEntry { bits: 0 });
            i += 1;
        }
        PageTable { entries }
    }
}

/// The ownership of one physical frame. Whoever holds the box holds the
/// frame, and gives it back with [`FrameBox::release`].
#[derive(Debug)]
pub struct FrameBox {
    ppn: PhysPageNum,
}

impl FrameBox {
    /// The page that the box owns.
    pub closed spec fn spec_ppn(&self) -> PhysPageNum {
        self.ppn
    }

    /// Takes a frame from `frame_alloc` and boxes it.
    pub fn try_new_in<A: FrameAllocator>(frame_alloc: &mut A) -> (r: Result<FrameBox, FrameAllocError>)
        requires
            old(frame_alloc).alloc_wf(),
        ensures
            final(frame_alloc).alloc_wf(),
            match r {
                Ok(b) => {
                    &&& b.spec_ppn().is_valid()
                    &&& old(frame_alloc).free_frames().contains(b.spec_ppn())
                    &&& final(frame_alloc).free_frames() == old(frame_alloc).free_frames().remove(b.spec_ppn())
                },
                Err(_) => {
                    &&& old(frame_alloc).free_frames() == Set::<PhysPageNum>::empty()
                    &&& final(frame_alloc).free_frames() == old(frame_alloc).free_frames()
                },
            },
    {
        match frame_alloc.allocate_frame() {
            Ok(ppn) => Ok(FrameBox { ppn }),
            Err(e) => Err(e),
        }
    }

    /// Boxes a page that the caller owns and that no other box holds.
    pub fn from_ppn(ppn: PhysPageNum) -> (r: FrameBox)
        ensures
            r.spec_ppn() == ppn,
    {
        FrameBox { ppn }
    }

    /// The page that the box owns.
    pub fn phys_page_num(&self) -> (r: PhysPageNum)
        ensures
            r == self.spec_ppn(),
    {
        self.ppn
    }

    /// Gives the frame back to the allocator that it came from.
    pub fn release<A: FrameAllocator>(self, frame_alloc: &mut A)
        requires
            old(frame_alloc).alloc_wf(),
            self.spec_ppn().is_valid(),
            !old(frame_alloc).free_frames().contains(self.spec_ppn()),
        ensures
            final(frame_alloc).alloc_wf(),
            final(frame_alloc).free_frames() == old(frame_alloc).free_frames().insert(self.spec_ppn()),
    {
        frame_alloc.deallocate_frame(self.ppn);
    }
}

/// A paging mode: how many levels the page table has, which part of a
/// virtual page number indexes which level, and how an entry holds a page
/// number and its flags.
pub trait PageMode: Copy {
    /// An entry that is known to be valid, in the mode's own form.
    type ModeEntry;

    /// The permission and status bits of an entry.
    type Flags: Copy;

    /// The number of levels. The root table is at level
    /// `spec_level_count() - 1`, the leaves are at level 0.
    spec fn spec_level_count() -> nat;

    /// The alignment, in base pages, of a page mapped by one entry at `level`.
    spec fn spec_frame_align(level: PageLevel) -> u64;

    /// The index into the table at `level` on the way to `vpn`.
    spec fn spec_vpn_index(vpn: VirtPageNum, level: PageLevel) -> int;

    /// Whether the entry is in use. An entry that is not is vacant.
    spec fn spec_entry_valid(pte: PageTableEntry) -> bool;

    /// The page number that the entry holds.
    spec fn spec_entry_ppn(pte: PageTableEntry) -> PhysPageNum;

    /// The flags that the entry holds.
    spec fn spec_entry_flags(pte: PageTableEntry) -> Self::Flags;

    /// The entry that holds `ppn` and `flags`.
    spec fn spec_encode(ppn: PhysPageNum, flags: Self::Flags) -> PageTableEntry;

    /// The flags of an entry that points to the table of the next level.
    spec fn spec_table_flags() -> Self::Flags;

    /// The entry that fills a new table: a vacant one.
    spec fn spec_vacant() -> PageTableEntry;

    /// The machine word behind an entry in the mode's own form.
    spec fn spec_entry_raw(entry: Self::ModeEntry) -> PageTableEntry;

    /// What every mode owes: at least one level, an index that stays inside
    /// the table, a vacant entry that is vacant, and pointers to tables that
    /// are valid and give back the valid page number that went into them.
    proof fn lemma_mode_laws()
        ensures
            1 <= Self::spec_level_count() <= 255,
            !Self::spec_entry_valid(Self::spec_vacant()),
            forall|ppn: PhysPageNum| Self::spec_entry_valid(#[trigger] Self::spec_encode(ppn, Self::spec_table_flags())),
            forall|ppn: PhysPageNum|
                ppn.is_valid() ==> Self::spec_entry_ppn(#[trigger] Self::spec_encode(ppn, Self::spec_table_flags()))
                    == ppn,
            forall|vpn: VirtPageNum, level: PageLevel|
                level.0 < Self::spec_level_count() ==> 0 <= #[trigger] Self::spec_vpn_index(vpn, level)
                    < ENTRIES_PER_TABLE,
    ;

    /// The alignment that a page mapped at `level` has to have.
    fn get_layout_for_level(level: PageLevel) -> (r: FrameLayout)
        requires
            level.0 < Self::spec_level_count(),
        ensures
            r.frame_align == Self::spec_frame_align(level),
    ;

    /// The level above the root table: the number of levels.
    fn root_level() -> (r: PageLevel)
        ensures
            r.0 == Self::spec_level_count(),
    ;

    /// The levels from the root table down to the leaves.
    fn visit_levels() -> (r: Vec<PageLevel>)
        ensures
            r@.len() == Self::spec_level_count(),
            forall|i: int| 0 <= i < r@.len() ==> (#[trigger] r@[i]).0 == Self::spec_level_count() - 1 - i,
    ;

    /// The index into the table at `level` on the way to `vpn`.
    fn vpn_index(vpn: VirtPageNum, level: PageLevel) -> (r: usize)
        requires
            level.0 < Self::spec_level_count(),
        ensures
            r == Self::spec_vpn_index(vpn, level),
            r < ENTRIES_PER_TABLE,
    ;

    /// Reads an entry: the entry in the mode's own form if it is valid, else
    /// nothing.
    fn convert_entry(pte: &PageTableEntry) -> (r: Option<Self::ModeEntry>)
        ensures
            r is Some <==> Self::spec_entry_valid(*pte),
            r matches Some(e) ==> Self::spec_entry_raw(e) == *pte,
    ;

    /// The page number that a valid entry holds.
    fn entry_ppn(entry: &Self::ModeEntry) -> (r: PhysPageNum)
        ensures
            r == Self::spec_entry_ppn(Self::spec_entry_raw(*entry)),
    ;

    /// The flags that a valid entry holds.
    fn entry_flags(entry: &Self::ModeEntry) -> (r: Self::Flags)
        ensures
            r == Self::spec_entry_flags(Self::spec_entry_raw(*entry)),
    ;

    /// Makes every entry of the table vacant.
    fn fill_page_table_invalid(table: &mut PageTable)
        requires
            old(table).wf(),
        ensures
            final(table).wf(),
            forall|i: int| 0 <= i < ENTRIES_PER_TABLE ==> #[trigger] final(table).entries@[i] == Self::spec_vacant(),
    ;

    /// Overwrites an entry with `ppn` and `flags`.
    fn write_ppn_flags(entry: &mut Self::ModeEntry, ppn: PhysPageNum, flags: Self::Flags)
        ensures
            Self::spec_entry_raw(*final(entry)) == Self::spec_encode(ppn, flags),
    ;

    /// The machine word of the entry that holds `ppn` and `flags`.
    fn new_entry(ppn: PhysPageNum, flags: Self::Flags) -> (r: PageTableEntry)
        ensures
            r == Self::spec_encode(ppn, flags),
    ;

    /// The flags of an entry that points to the table of the next level.
    fn table_flags() -> (r: Self::Flags)
        ensures
            r == Self::spec_table_flags(),
    ;

    /// The entry that fills a new table.
    fn vacant_entry() -> (r: PageTableEntry)
        ensures
            r == Self::spec_vacant(),
    ;
}

} // verus!
