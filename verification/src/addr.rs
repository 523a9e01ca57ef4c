//! Page-granular physical and virtual addresses.
//!
//! Addresses and page numbers are 64-bit machine words. A page number is an
//! address with the twelve offset bits dropped; stepping from one physical
//! page to the next wraps at the width of the physical address space.

use vstd::prelude::*;

verus! {

/// Number of address bits that select a byte inside a page.
pub const PAGE_SIZE_BITS: u64 = 12;

/// Bytes in one page.
pub const PAGE_SIZE: u64 = 4096;

/// Width of a physical address.
pub const PADDR_SPACE_BITS: u64 = 56;

/// Largest physical page number: 44 bits, all set.
pub const PPN_VALID_MASK: u64 = 0xfff_ffff_ffff;

/// Width of a virtual address.
pub const VADDR_SPACE_BITS: u64 = 39;

/// Largest virtual page number: 27 bits, all set.
pub const VPN_VALID_MASK: u64 = 0x7ff_ffff;

/// A physical byte address.
#[derive(Copy, Clone, PartialEq, Eq, Debug, Structural)]
pub struct PhysAddr(pub u64);

/// A virtual byte address.
#[derive(Copy, Clone, PartialEq, Eq, Debug, Structural)]
pub struct VirtAddr(pub u64);

/// A physical page number.
#[derive(Copy, Clone, PartialEq, Eq, Debug, Structural)]
pub struct PhysPageNum(pub u64);

/// A virtual page number.
#[derive(Copy, Clone, PartialEq, Eq, Debug, Structural)]
pub struct VirtPageNum(pub u64);

/// How a frame has to be aligned, counted in base pages: 1 for a 4 KiB page,
/// 512 for a 2 MiB page, 512 * 512 for a 1 GiB page.
#[derive(Copy, Clone, PartialEq, Eq, Debug, Structural)]
pub struct FrameLayout {
    pub frame_align: u64,
}

/// A frame layout that no level of the page table offers.
#[derive(Copy, Clone, PartialEq, Eq, Debug, Structural)]
pub struct FrameLayoutError;

/// The level of a page table inside a multi-level page table; level 0 holds
/// the leaves.
#[derive(Copy, Clone, PartialEq, Eq, Debug, Structural)]
pub struct PageLevel(pub u8);

/// Whether `p` lies in the page range that runs from `begin` up to, but not
/// including, `end`. A range whose `begin` is above its `end` wraps around the
/// top of the number space.
pub open spec fn ppn_in_range(p: u64, begin: u64, end: u64) -> bool {
    if begin <= end {
        begin <= p && p < end
    } else {
        begin <= p || p < end
    }
}

/// The page number after `p`, wrapping at 44 bits.
pub open spec fn ppn_successor(p: u64) -> u64 {
    ((p as int + 1) % 0x1000_0000_0000) as u64
}

/// The virtual page number after `v`, wrapping at 27 bits.
pub open spec fn vpn_successor(v: u64) -> u64 {
    ((v as int + 1) % 0x800_0000) as u64
}

/// The physical page number `k` steps after `p`.
pub open spec fn ppn_nth(p: u64, k: nat) -> u64
    decreases k,
{
    if k == 0 {
        p
    } else {
        ppn_successor(ppn_nth(p, (k - 1) as nat))
    }
}

/// The virtual page number `k` steps after `v`.
pub open spec fn vpn_nth(v: u64, k: nat) -> u64
    decreases k,
{
    if k == 0 {
        v
    } else {
        vpn_successor(vpn_nth(v, (k - 1) as nat))
    }
}

impl PhysAddr {
    /// The page that holds this address.
    pub fn page_number(&self) -> (r: PhysPageNum)
        ensures
            r.0 == self.0 / 4096,
    {
        let a = self.0;
        assert(a >> 12 == a / 4096) by (bit_vector);
        PhysPageNum(self.0 >> PAGE_SIZE_BITS)
    }

    /// The offset of this address inside its page.
    pub fn page_offset(&self) -> (r: u64)
        ensures
            r == self.0 % 4096,
    {
        let a = self.0;
        assert(a & 4095 == a % 4096) by (bit_vector);
        self.0 & (PAGE_SIZE - 1)
    }
}

impl VirtAddr {
    /// The page that holds this address.
    pub fn page_number(&self) -> (r: VirtPageNum)
        ensures
            r.0 == self.0 / 4096,
    {
        let a = self.0;
        assert(a >> 12 == a / 4096) by (bit_vector);
        VirtPageNum(self.0 >> PAGE_SIZE_BITS)
    }

    /// The offset of this address inside its page.
    pub fn page_offset(&self) -> (r: u64)
        ensures
            r == self.0 % 4096,
    {
        let a = self.0;
        assert(a & 4095 == a % 4096) by (bit_vector);
        self.0 & (PAGE_SIZE - 1)
    }
}

impl PhysPageNum {
    /// A page number is valid when it fits the 44 bits that the platform has
    /// for it.
    pub open spec fn is_valid(self) -> bool {
        self.0 <= PPN_VALID_MASK
    }

    /// The first address of the page. The bits that the shift pushes beyond
    /// bit 63 are lost.
    pub fn addr_begin(&self) -> (r: PhysAddr)
        ensures
            r.0 == (self.0 as int * 4096) % 0x1_0000_0000_0000_0000,
            self.0 < 0x10_0000_0000_0000 ==> r.0 == self.0 * 4096,
    {
        let p = self.0;
        assert(p << 12 == (p as int * 4096) % 0x1_0000_0000_0000_0000) by (bit_vector);
        assert(p < 0x10_0000_0000_0000 ==> p << 12 == p * 4096) by (bit_vector);
        PhysAddr(self.0 << PAGE_SIZE_BITS)
    }

    /// The page after this one, wrapping at 44 bits.
    pub fn next_page(&self) -> (r: PhysPageNum)
        ensures
            r.0 == ppn_successor(self.0),
            r.is_valid(),
    {
        let n = self.0.wrapping_add(1);
        assert(n & 0xfff_ffff_ffff == n % 0x1000_0000_0000) by (bit_vector);
        PhysPageNum(n & PPN_VALID_MASK)
    }

    /// Whether this page lies in `[begin, end)`; see [`ppn_in_range`].
    pub fn is_within_range(&self, begin: PhysPageNum, end: PhysPageNum) -> (r: bool)
        ensures
            r == ppn_in_range(self.0, begin.0, end.0),
    {
        if begin.0 <= end.0 {
            begin.0 <= self.0 && self.0 < end.0
        } else {
            begin.0 <= self.0 || self.0 < end.0
        }
    }

    /// Whether this page number is a multiple of the layout's alignment.
    pub fn is_aligned_like(&self, layout: FrameLayout) -> (r: bool)
        requires
            layout.frame_align != 0,
        ensures
            r == (self.0 % layout.frame_align == 0),
    {
        self.0 % layout.frame_align() == 0
    }
}

impl VirtPageNum {
    /// The page after this one, wrapping at 27 bits.
    pub fn next_page(&self) -> (r: VirtPageNum)
        ensures
            r.0 == vpn_successor(self.0),
            r.0 <= VPN_VALID_MASK,
    {
        let n = self.0.wrapping_add(1);
        assert(n & 0x7ff_ffff == n % 0x800_0000) by (bit_vector);
        VirtPageNum(n & VPN_VALID_MASK)
    }

    /// The first address of the page. The bits that the shift pushes beyond
    /// bit 63 are lost.
    pub fn addr_begin(&self) -> (r: VirtAddr)
        ensures
            r.0 == (self.0 as int * 4096) % 0x1_0000_0000_0000_0000,
            self.0 < 0x10_0000_0000_0000 ==> r.0 == self.0 * 4096,
    {
        let p = self.0;
        assert(p << 12 == (p as int * 4096) % 0x1_0000_0000_0000_0000) by (bit_vector);
        assert(p < 0x10_0000_0000_0000 ==> p << 12 == p * 4096) by (bit_vector);
        VirtAddr(self.0 << PAGE_SIZE_BITS)
    }
}

impl FrameLayout {
    /// A layout with the given alignment, taken as it is.
    pub fn new_unchecked(frame_align: u64) -> (r: FrameLayout)
        ensures
            r.frame_align == frame_align,
    {
        FrameLayout { frame_align }
    }

    /// The alignment, counted in base pages.
    pub fn frame_align(&self) -> (r: u64)
        ensures
            r == self.frame_align,
    {
        self.frame_align
    }
}

/// A page and the page after it never coincide, and the successor of a valid
/// page below the top is the next integer.
pub proof fn lemma_ppn_successor(p: u64)
    ensures
        ppn_successor(p) <= PPN_VALID_MASK,
        p < PPN_VALID_MASK ==> ppn_successor(p) == p + 1,
        p == PPN_VALID_MASK ==> ppn_successor(p) == 0,
        ppn_successor(p) != p,
{
}

} // verus!
