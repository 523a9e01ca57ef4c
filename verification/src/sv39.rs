//! The Sv39 paging mode: three levels of 512 entries, nine bits of the
//! virtual page number per level.
//!
//! An entry keeps its flags in bits 0 to 7 and its page number in the bits
//! from 8 upwards. An entry whose valid flag is clear is vacant, and its other
//! bits mean nothing to the hardware.

use vstd::prelude::*;
use vstd::arithmetic::power2::{pow2, lemma2_to64, lemma2_to64_rest};
use bit_field::BitField;
use crate::addr::{FrameLayout, PageLevel, PhysPageNum, VirtPageNum};
use crate::paging::{PageMode, PageTable, PageTableEntry, ENTRIES_PER_TABLE};
use crate::addr_space::{leaf_of, same_slot, slot_eq};

verus! {

/// The bits of `word` from bit `lo` up to, but not including, bit `hi`, moved
/// down to bit 0.
pub open spec fn bits_of(word: u64, lo: nat, hi: nat) -> u64 {
    ((word as nat / pow2(lo)) % pow2((hi - lo) as nat)) as u64
}

/// Reads a bit range of a word.
///
/// Calls `bit_field::BitField::get_bits` on a `u64` with the range `lo..hi`.
/// That method returns the bits of the range moved down to bit 0 and panics
/// when the range does not lie inside the 64 bits or runs backwards; the
/// contract leaves those ranges out and states the result.
#[verifier::external_body]
fn get_bits(word: u64, lo: usize, hi: usize) -> (r: u64)
    requires
        lo <= hi <= 64,
        lo < 64,
    ensures
        r == bits_of(word, lo as nat, hi as nat),
{
    word.get_bits(lo..hi)
}

/// The flags of an Sv39 entry, one bit each.
#[derive(Copy, Clone, PartialEq, Eq, Debug, Structural)]
pub struct Sv39Flags {
    pub bits: u8,
}

impl Sv39Flags {
    /// Valid: the entry is in use.
    pub const V: u8 = 0x01;

    /// Readable.
    pub const R: u8 = 0x02;

    /// Writable.
    pub const W: u8 = 0x04;

    /// Executable.
    pub const X: u8 = 0x08;

    /// Accessible in user mode.
    pub const U: u8 = 0x10;

    /// Global: present in every address space.
    pub const G: u8 = 0x20;

    /// Accessed.
    pub const A: u8 = 0x40;

    /// Dirty.
    pub const D: u8 = 0x80;

    /// No flag set.
    pub fn empty() -> (r: Sv39Flags)
        ensures
            r.bits == 0,
    {
        Sv39Flags { bits: 0 }
    }

    /// The flags that `bits` spells. All eight bits are flags, so nothing is
    /// cut off.
    pub fn from_bits_truncate(bits: u8) -> (r: Sv39Flags)
        ensures
            r.bits == bits,
    {
        Sv39Flags { bits }
    }

    /// The flags as a byte.
    pub fn bits(&self) -> (r: u8)
        ensures
            r == self.bits,
    {
        self.bits
    }

    /// Whether every flag of `other` is set in `self`.
    pub open spec fn spec_contains(self, other: Sv39Flags) -> bool {
        self.bits & other.bits == other.bits
    }

    /// Whether every flag of `other` is set in `self`.
    pub fn contains(&self, other: Sv39Flags) -> (r: bool)
        ensures
            r == self.spec_contains(other),
    {
        self.bits & other.bits == other.bits
    }

    /// The flags of `self` and those of `other` together.
    pub fn union(self, other: Sv39Flags) -> (r: Sv39Flags)
        ensures
            r.bits == self.bits | other.bits,
    {
        Sv39Flags { bits: self.bits | other.bits }
    }

    /// Whether the valid flag is set.
    pub open spec fn spec_is_valid(self) -> bool {
        self.bits & 1 == 1
    }
}

/// The word that holds `ppn` from bit 8 upwards and `flags` below; what of
/// the page number does not fit in 64 bits is lost.
pub open spec fn sv39_encode(ppn: u64, flags: u8) -> u64 {
    (ppn << 8) | (flags as u64)
}

/// The page number of an entry: bits 8 to 53.
pub open spec fn sv39_ppn(bits: u64) -> u64 {
    (bits >> 8) & 0x3fff_ffff_ffff
}

/// The flags of an entry: bits 0 to 7.
pub open spec fn sv39_flags(bits: u64) -> u8 {
    (bits & 0xff) as u8
}

/// The index of `vpn` into the table at `level`: nine bits per level.
pub open spec fn sv39_index(vpn: u64, level: u8) -> u64 {
    (vpn >> ((level * 9) as u64)) & 511
}

/// A valid Sv39 page-table entry.
#[derive(Copy, Clone, PartialEq, Eq, Debug, Structural)]
pub struct Sv39PageEntry {
    pub bits: u64,
}

impl Sv39PageEntry {
    /// The page number that the entry holds.
    pub fn ppn(&self) -> (r: PhysPageNum)
        ensures
            r.0 == sv39_ppn(self.bits),
    {
        let b = self.bits;
        proof {
            lemma2_to64();
            lemma2_to64_rest();
            assert((b >> 8) & 0x3fff_ffff_ffff == (b / 0x100) % 0x4000_0000_0000) by (bit_vector);
        }
        PhysPageNum(get_bits(self.bits, 8, 54))
    }

    /// The flags that the entry holds.
    pub fn flags(&self) -> (r: Sv39Flags)
        ensures
            r.bits == sv39_flags(self.bits),
    {
        let b = self.bits;
        proof {
            lemma2_to64();
            assert(b & 0xff == (b / 0x1) % 0x100) by (bit_vector);
            assert(b & 0xff < 0x100) by (bit_vector);
        }
        Sv39Flags::from_bits_truncate(get_bits(self.bits, 0, 8) as u8)
    }

    /// Overwrites the entry with `ppn` and `flags`.
    pub fn write_ppn_flags(&mut self, ppn: PhysPageNum, flags: Sv39Flags)
        ensures
            final(self).bits == sv39_encode(ppn.0, flags.bits),
    {
        self.bits = (ppn.0 << 8) | flags.bits() as u64
    }
}

/// Reading back what was written: the flags always, the page number as long
/// as it fits in 46 bits. The entry is valid exactly if the valid flag was
/// among the flags.
pub proof fn lemma_sv39_roundtrip(ppn: u64, flags: u8)
    ensures
        sv39_flags(sv39_encode(ppn, flags)) == flags,
        ppn < 0x4000_0000_0000 ==> sv39_ppn(sv39_encode(ppn, flags)) == ppn,
        (sv39_encode(ppn, flags) & 1 == 1) <==> (flags & 1 == 1),
{
    assert((((ppn << 8) | (flags as u64)) & 0xff) as u8 == flags) by (bit_vector);
    assert(ppn < 0x4000_0000_0000 ==> (((ppn << 8) | (flags as u64)) >> 8) & 0x3fff_ffff_ffff == ppn)
        by (bit_vector);
    assert((((ppn << 8) | (flags as u64)) & 1 == 1) <==> (flags & 1 == 1)) by (bit_vector);
}

/// The Sv39 paging mode.
#[derive(Copy, Clone, PartialEq, Eq, Debug, Structural)]
pub struct Sv39;

impl PageMode for Sv39 {
    type ModeEntry = Sv39PageEntry;

    type Flags = Sv39Flags;

    open spec fn spec_level_count() -> nat {
        3
    }

    open spec fn spec_frame_align(level: PageLevel) -> u64 {
        if level.0 == 0 {
            1
        } else if level.0 == 1 {
            512
        } else {
            262144
        }
    }

    open spec fn spec_vpn_index(vpn: VirtPageNum, level: PageLevel) -> int {
        sv39_index(vpn.0, level.0) as int
    }

    open spec fn spec_entry_valid(pte: PageTableEntry) -> bool {
        pte.bits & 1 == 1
    }

    open spec fn spec_entry_ppn(pte: PageTableEntry) -> PhysPageNum {
        PhysPageNum(sv39_ppn(pte.bits))
    }

    open spec fn spec_entry_flags(pte: PageTableEntry) -> Sv39Flags {
        Sv39Flags { bits: sv39_flags(pte.bits) }
    }

    open spec fn spec_encode(ppn: PhysPageNum, flags: Sv39Flags) -> PageTableEntry {
        PageTableEntry { bits: sv39_encode(ppn.0, flags.bits) }
    }

    open spec fn spec_table_flags() -> Sv39Flags {
        Sv39Flags { bits: 1 }
    }

    open spec fn spec_vacant() -> PageTableEntry {
        PageTableEntry { bits: 0 }
    }

    open spec fn spec_entry_raw(entry: Sv39PageEntry) -> PageTableEntry {
        PageTableEntry { bits: entry.bits }
    }

    proof fn lemma_mode_laws() {
        assert(0u64 & 1 != 1) by (bit_vector);
        assert(1u8 & 1 == 1) by (bit_vector);
        assert forall|ppn: PhysPageNum|
            Self::spec_entry_valid(#[trigger] Self::spec_encode(ppn, Self::spec_table_flags())) && (ppn.is_valid()
                ==> Self::spec_entry_ppn(Self::spec_encode(ppn, Self::spec_table_flags())) == ppn) by {
            lemma_sv39_roundtrip(ppn.0, 1);
        }
        assert forall|vpn: VirtPageNum, level: PageLevel| level.0 < Self::spec_level_count() implies 0
            <= #[trigger] Self::spec_vpn_index(vpn, level) < ENTRIES_PER_TABLE by {
            let v = vpn.0;
            let s = (level.0 * 9) as u64;
            assert((v >> s) & 511 < 512) by (bit_vector);
        }
    }

    fn get_layout_for_level(level: PageLevel) -> (r: FrameLayout) {
        if level.0 == 0 {
            FrameLayout::new_unchecked(1)
        } else if level.0 == 1 {
            FrameLayout::new_unchecked(512)
        } else {
            FrameLayout::new_unchecked(512 * 512)
        }
    }

    fn root_level() -> (r: PageLevel) {
        PageLevel(3)
    }

    fn visit_levels() -> (r: Vec<PageLevel>) {
        let mut levels: Vec<PageLevel> = Vec::new();
        levels.push(PageLevel(2));
        levels.push(PageLevel(1));
        levels.push(PageLevel(0));
        levels
    }

    fn vpn_index(vpn: VirtPageNum, level: PageLevel) -> (r: usize) {
        let v = vpn.0;
        let s = (level.0 * 9) as u64;
        assert((v >> s) & 511 < 512) by (bit_vector);
        ((vpn.0 >> s) & 511) as usize
    }

    fn convert_entry(pte: &PageTableEntry) -> (r: Option<Sv39PageEntry>) {
        let ans = Sv39PageEntry { bits: pte.bits };
        let f = ans.flags();
        let b = pte.bits;
        proof {
            assert(((b & 0xff) as u8 & 1 == 1) <==> (b & 1 == 1)) by (bit_vector);
        }
        if f.contains(Sv39Flags::from_bits_truncate(Sv39Flags::V)) {
            Some(ans)
        } else {
            None
        }
    }

    fn entry_ppn(entry: &Sv39PageEntry) -> (r: PhysPageNum) {
        entry.ppn()
    }

    fn entry_flags(entry: &Sv39PageEntry) -> (r: Sv39Flags) {
        entry.flags()
    }

    fn fill_page_table_invalid(table: &mut PageTable) {
        let mut i: usize = 0;
        while i < ENTRIES_PER_TABLE
            invariant
                i <= ENTRIES_PER_TABLE,
                table.wf(),
                forall|j: int| 0 <= j < i ==> #[trigger] table.entries@[j] == Self::spec_vacant(),
            decreases ENTRIES_PER_TABLE - i,
        {
            table.entries.set(i, PageTableEntry { bits: 0 });
            i += 1;
        }
    }

    fn write_ppn_flags(entry: &mut Sv39PageEntry, ppn: PhysPageNum, flags: Sv39Flags) {
        entry.write_ppn_flags(ppn, flags);
    }

    fn new_entry(ppn: PhysPageNum, flags: Sv39Flags) -> (r: PageTableEntry) {
        let mut entry = Sv39PageEntry { bits: 0 };
        entry.write_ppn_flags(ppn, flags);
        PageTableEntry { bits: entry.bits }
    }

    fn table_flags() -> (r: Sv39Flags) {
        Sv39Flags::from_bits_truncate(Sv39Flags::V)
    }

    fn vacant_entry() -> (r: PageTableEntry) {
        PageTableEntry { bits: 0 }
    }
}

/// In Sv39 two pages are in the same slot exactly if their numbers agree in
/// the low 27 bits: the bits above them take no part in the walk.
pub proof fn lemma_sv39_same_slot(a: VirtPageNum, b: VirtPageNum)
    ensures
        same_slot::<Sv39>(a, b) <==> a.0 % 0x800_0000 == b.0 % 0x800_0000,
{
    reveal_with_fuel(slot_eq, 3);
    let x = a.0;
    let y = b.0;
    assert(((x >> 18) & 511 == (y >> 18) & 511 && (x >> 9) & 511 == (y >> 9) & 511 && (x >> 0) & 511 == (y >> 0)
        & 511) <==> (x % 0x800_0000 == y % 0x800_0000)) by (bit_vector);
    assert(sv39_index(x, 2) == (x >> 18) & 511);
    assert(sv39_index(x, 1) == (x >> 9) & 511);
    assert(sv39_index(x, 0) == (x >> 0) & 511);
    assert(sv39_index(y, 2) == (y >> 18) & 511);
    assert(sv39_index(y, 1) == (y >> 9) & 511);
    assert(sv39_index(y, 0) == (y >> 0) & 511);
}

/// What an Sv39 leaf reads back as: with the valid flag among the flags and a
/// page number below 2^46, exactly the page number and the flags that were
/// written; without the valid flag, nothing.
pub proof fn lemma_sv39_leaf(ppn: PhysPageNum, flags: Sv39Flags)
    ensures
        flags.spec_is_valid() && ppn.0 < 0x4000_0000_0000 ==> leaf_of::<Sv39>(ppn, flags) == Some((ppn, flags)),
        !flags.spec_is_valid() ==> leaf_of::<Sv39>(ppn, flags) is None,
{
    lemma_sv39_roundtrip(ppn.0, flags.bits);
}

} // verus!
