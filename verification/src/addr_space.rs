//! A paged address space: a tree of page tables that maps virtual pages to
//! physical pages.
//!
//! The address space owns the frame of its root table and the frame of every
//! table below it. It takes those frames from a frame allocator and gives all
//! of them back when it is torn down. The tables themselves are kept as
//! values: each entry is the machine word that the hardware would read, and
//! beside each entry that points to a lower table stands that table.
//!
//! Only base pages are mapped: every valid entry above level 0 points to a
//! table, and every valid entry at level 0 is a leaf.

use vstd::prelude::*;
use crate::addr::{PageLevel, PhysPageNum, VirtPageNum, ppn_nth, vpn_nth};
use crate::frame_alloc::{FrameAllocError, FrameAllocator};
use crate::paging::{FrameBox, PageMode, PageTable, PageTableEntry, ENTRIES_PER_TABLE};

verus! {

/// Why a page could not be mapped.
#[derive(Copy, Clone, PartialEq, Eq, Debug, Structural)]
pub enum MapError {
    /// A table was missing on the way to the page, and the allocator had no
    /// frame left for it.
    OutOfMemory,
    /// The page is mapped already.
    Conflict,
}

/// Whether two virtual page numbers have the same index at `level` and at
/// every level below it.
pub open spec fn slot_eq<M: PageMode>(a: VirtPageNum, b: VirtPageNum, level: nat) -> bool
    decreases level,
{
    &&& M::spec_vpn_index(a, PageLevel(level as u8)) == M::spec_vpn_index(b, PageLevel(level as u8))
    &&& (level == 0 || slot_eq::<M>(a, b, (level - 1) as nat))
}

/// Whether two virtual page numbers lead to the same leaf entry: they have
/// the same index at every level of the mode.
pub open spec fn same_slot<M: PageMode>(a: VirtPageNum, b: VirtPageNum) -> bool {
    slot_eq::<M>(a, b, (M::spec_level_count() - 1) as nat)
}

/// What a leaf entry written with `ppn` and `flags` reads back as: nothing if
/// the entry is vacant, else the page number and flags that it holds.
pub open spec fn leaf_of<M: PageMode>(ppn: PhysPageNum, flags: M::Flags) -> Option<(PhysPageNum, M::Flags)> {
    entry_target::<M>(Some(M::spec_encode(ppn, flags)))
}

/// The page number and flags of the entry found for a page, if a valid one
/// was found.
pub open spec fn entry_target<M: PageMode>(e: Option<PageTableEntry>) -> Option<(PhysPageNum, M::Flags)> {
    match e {
        Some(pte) => if M::spec_entry_valid(pte) {
            Some((M::spec_entry_ppn(pte), M::spec_entry_flags(pte)))
        } else {
            None
        },
        None => None,
    }
}

/// The page numbers of a list of frames.
pub open spec fn frame_ppns(frames: Seq<FrameBox>) -> Seq<PhysPageNum> {
    frames.map_values(|b: FrameBox| b.spec_ppn())
}

/// The frames of a list are valid, pairwise distinct, and not free.
pub open spec fn frames_held(frames: Seq<PhysPageNum>, free: Set<PhysPageNum>) -> bool {
    &&& frames.no_duplicates()
    &&& forall|k: int| 0 <= k < frames.len() ==> (#[trigger] frames[k]).is_valid() && !free.contains(frames[k])
}

/// The list `after` is the list `before` with frames added at its end that
/// were all free before, and `free_after` is `free_before` without them.
pub open spec fn frames_taken(
    before: Seq<PhysPageNum>,
    free_before: Set<PhysPageNum>,
    after: Seq<PhysPageNum>,
    free_after: Set<PhysPageNum>,
) -> bool {
    &&& before.len() <= after.len()
    &&& after.subrange(0, before.len() as int) == before
    &&& forall|k: int|
        before.len() <= k < after.len() ==> free_before.contains(#[trigger] after[k]) && after[k].is_valid()
    &&& forall|p: PhysPageNum| free_after.contains(p) <==> (free_before.contains(p) && !after.contains(p))
}

/// The frames of `owned` went back to the allocator: `free_after` is
/// `free_before` and the frames of `owned`.
pub open spec fn frames_released(
    owned: Seq<PhysPageNum>,
    free_before: Set<PhysPageNum>,
    free_after: Set<PhysPageNum>,
) -> bool {
    forall|p: PhysPageNum| free_after.contains(p) <==> (free_before.contains(p) || owned.contains(p))
}

/// What the hardware finds for `vpn`: the walk through the tables as they
/// lie in memory, where `memory` gives the entries of the table that a frame
/// holds. The walk begins at the table in the frame `table`, which is at
/// `level`, and follows the page number of each valid entry down to level 0.
pub open spec fn hardware_walk<M: PageMode>(
    memory: spec_fn(PhysPageNum) -> Seq<PageTableEntry>,
    table: PhysPageNum,
    level: nat,
    vpn: VirtPageNum,
) -> Option<PageTableEntry>
    decreases level,
{
    let e = memory(table)[M::spec_vpn_index(vpn, PageLevel(level as u8))];
    if !M::spec_entry_valid(e) {
        None
    } else if level == 0 {
        Some(e)
    } else {
        hardware_walk::<M>(memory, M::spec_entry_ppn(e), (level - 1) as nat, vpn)
    }
}

/// Whether `p` is one of the frames of the list from the position `from` on.
pub open spec fn frames_added(from: nat, frames: Seq<PhysPageNum>, p: PhysPageNum) -> bool {
    exists|k: int| from <= k < frames.len() && #[trigger] frames[k] == p
}

/// One page table of the tree, with the tables below it.
#[derive(Debug)]
struct TableNode {
    /// The frame that holds the table.
    ppn: PhysPageNum,
    /// The entries as the hardware reads them.
    table: PageTable,
    /// Beside each entry, the table that it points to, if it points to one.
    children: Vec<Option<Box<TableNode>>>,
}

impl TableNode {
    /// The table has all its entries, the entries above level 0 that point to
    /// a table are exactly those beside which a table stands, and each of them
    /// holds the frame of that table.
    spec fn wf<M: PageMode>(&self, level: nat) -> bool
        decreases level,
    {
        &&& self.table.wf()
        &&& self.children@.len() == ENTRIES_PER_TABLE
        &&& forall|i: int|
            0 <= i < ENTRIES_PER_TABLE ==> match #[trigger] self.children@[i] {
                Some(c) => {
                    &&& level > 0
                    &&& c.wf::<M>((level - 1) as nat)
                    &&& self.table.entries@[i] == M::spec_encode(c.ppn, M::spec_table_flags())
                },
                None => level > 0 ==> !M::spec_entry_valid(self.table.entries@[i]),
            }
    }

    /// The valid leaf entry that the walk from this table finds for `vpn`.
    spec fn lookup<M: PageMode>(&self, level: nat, vpn: VirtPageNum) -> Option<PageTableEntry>
        decreases level,
    {
        let i = M::spec_vpn_index(vpn, PageLevel(level as u8));
        if level == 0 {
            let e = self.table.entries@[i];
            if M::spec_entry_valid(e) {
                Some(e)
            } else {
                None
            }
        } else {
            match self.children@[i] {
                Some(c) => c.lookup::<M>((level - 1) as nat, vpn),
                None => None,
            }
        }
    }

    /// The number of tables that are missing on the way from this table to
    /// the leaf entry for `vpn`.
    spec fn missing<M: PageMode>(&self, level: nat, vpn: VirtPageNum) -> nat
        decreases level,
    {
        if level == 0 {
            0
        } else {
            match self.children@[M::spec_vpn_index(vpn, PageLevel(level as u8))] {
                Some(c) => c.missing::<M>((level - 1) as nat, vpn),
                None => level,
            }
        }
    }

    /// Whether the frame `p` holds this table or a table below it.
    spec fn holds(&self, level: nat, p: PhysPageNum) -> bool
        decreases level,
    {
        p == self.ppn || (level > 0 && exists|i: int|
            0 <= i < ENTRIES_PER_TABLE && (#[trigger] self.children@[i]) is Some && self.children@[i]->Some_0.holds(
                (level - 1) as nat,
                p,
            ))
    }

    /// Whether the frame `p` holds the table behind the entry `i`, or a table
    /// below that one.
    spec fn child_holds(&self, level: nat, i: int, p: PhysPageNum) -> bool {
        &&& level > 0
        &&& 0 <= i < ENTRIES_PER_TABLE
        &&& self.children@[i] is Some
        &&& self.children@[i]->Some_0.holds((level - 1) as nat, p)
    }

    /// A frame holds this table or one below it exactly if it holds this
    /// table or holds the table behind one of its entries.
    proof fn lemma_holds(&self, level: nat, p: PhysPageNum)
        ensures
            self.holds(level, p) <==> (p == self.ppn || exists|i: int| #[trigger] self.child_holds(level, i, p)),
    {
        if self.holds(level, p) && p != self.ppn {
            let i = choose|i: int|
                0 <= i < ENTRIES_PER_TABLE && (#[trigger] self.children@[i]) is Some
                    && self.children@[i]->Some_0.holds((level - 1) as nat, p);
            assert(self.child_holds(level, i, p));
        }
        if exists|i: int| #[trigger] self.child_holds(level, i, p) {
            let i = choose|i: int| #[trigger] self.child_holds(level, i, p);
            assert(self.children@[i] is Some);
        }
    }

    /// No frame holds two of the tables from this one down.
    spec fn apart(&self, level: nat) -> bool
        decreases level,
    {
        level > 0 ==> forall|i: int|
            0 <= i < ENTRIES_PER_TABLE ==> match #[trigger] self.children@[i] {
                Some(c) => {
                    &&& c.apart((level - 1) as nat)
                    &&& !c.holds((level - 1) as nat, self.ppn)
                    &&& forall|j: int, p: PhysPageNum|
                        j != i && #[trigger] self.child_holds(level, j, p) ==> !c.holds((level - 1) as nat, p)
                },
                None => true,
            }
    }

    /// The entries of the table that the frame `p` holds, for a frame that
    /// holds this table or one below it.
    spec fn table_at(&self, level: nat, p: PhysPageNum) -> Seq<PageTableEntry>
        decreases level,
    {
        if p == self.ppn || level == 0 {
            self.table.entries@
        } else {
            let i = choose|i: int|
                0 <= i < ENTRIES_PER_TABLE && (#[trigger] self.children@[i]) is Some
                    && self.children@[i]->Some_0.holds((level - 1) as nat, p);
            if 0 <= i < ENTRIES_PER_TABLE {
                match self.children@[i] {
                    Some(c) => c.table_at((level - 1) as nat, p),
                    None => self.table.entries@,
                }
            } else {
                self.table.entries@
            }
        }
    }

    /// An entry that the walk finds is a valid one.
    proof fn lemma_lookup_valid<M: PageMode>(&self, level: nat, vpn: VirtPageNum)
        ensures
            self.lookup::<M>(level, vpn) matches Some(e) ==> M::spec_entry_valid(e),
        decreases level,
    {
        if level > 0 {
            let i = M::spec_vpn_index(vpn, PageLevel(level as u8));
            match self.children@[i] {
                Some(c) => {
                    c.lemma_lookup_valid::<M>((level - 1) as nat, vpn);
                },
                None => {},
            }
        }
    }

    /// Pages of one slot find the same entry.
    proof fn lemma_lookup_same_slot<M: PageMode>(&self, level: nat, a: VirtPageNum, b: VirtPageNum)
        requires
            slot_eq::<M>(a, b, level),
        ensures
            self.lookup::<M>(level, a) == self.lookup::<M>(level, b),
        decreases level,
    {
        if level > 0 {
            let i = M::spec_vpn_index(a, PageLevel(level as u8));
            match self.children@[i] {
                Some(c) => {
                    c.lemma_lookup_same_slot::<M>((level - 1) as nat, a, b);
                },
                None => {},
            }
        }
    }

    /// Every table from this one down has all its entries.
    proof fn lemma_table_at_len<M: PageMode>(&self, level: nat, p: PhysPageNum)
        requires
            self.wf::<M>(level),
        ensures
            self.table_at(level, p).len() == ENTRIES_PER_TABLE,
        decreases level,
    {
        if p != self.ppn && level > 0 {
            let i = choose|i: int|
                0 <= i < ENTRIES_PER_TABLE && (#[trigger] self.children@[i]) is Some
                    && self.children@[i]->Some_0.holds((level - 1) as nat, p);
            if 0 <= i < ENTRIES_PER_TABLE {
                match self.children@[i] {
                    Some(c) => {
                        c.lemma_table_at_len::<M>((level - 1) as nat, p);
                    },
                    None => {},
                }
            }
        }
    }

    /// The table that a frame below the entry `i` holds is found below that
    /// entry.
    proof fn lemma_table_at_child(&self, level: nat, i: int, p: PhysPageNum)
        requires
            self.apart(level),
            self.child_holds(level, i, p),
        ensures
            p != self.ppn,
            self.table_at(level, p) == self.children@[i]->Some_0.table_at((level - 1) as nat, p),
    {
        let c = self.children@[i]->Some_0;
        assert(self.children@[i] is Some);
        let k = choose|k: int|
            0 <= k < ENTRIES_PER_TABLE && (#[trigger] self.children@[k]) is Some && self.children@[k]->Some_0.holds(
                (level - 1) as nat,
                p,
            );
        if k != i {
            assert(self.child_holds(level, k, p));
        }
    }

    /// The hardware finds what the walk finds, as long as memory holds every
    /// table from this one down in the frame that holds it.
    proof fn lemma_walk<M: PageMode>(
        &self,
        level: nat,
        memory: spec_fn(PhysPageNum) -> Seq<PageTableEntry>,
        vpn: VirtPageNum,
    )
        requires
            level < M::spec_level_count(),
            self.wf::<M>(level),
            self.apart(level),
            forall|p: PhysPageNum| #[trigger] self.holds(level, p) ==> p.is_valid() && memory(p) == self.table_at(level, p),
        ensures
            hardware_walk::<M>(memory, self.ppn, level, vpn) == self.lookup::<M>(level, vpn),
        decreases level,
    {
        M::lemma_mode_laws();
        let i = M::spec_vpn_index(vpn, PageLevel(level as u8));
        assert(self.holds(level, self.ppn));
        assert(memory(self.ppn) == self.table.entries@);
        if level > 0 {
            match self.children@[i] {
                Some(c) => {
                    let below = (level - 1) as nat;
                    assert(c.holds(below, c.ppn));
                    assert(self.child_holds(level, i, c.ppn));
                    self.lemma_holds(level, c.ppn);
                    assert forall|p: PhysPageNum| #[trigger] c.holds(below, p) implies p.is_valid() && memory(p)
                        == c.table_at(below, p) by {
                        assert(self.child_holds(level, i, p));
                        self.lemma_holds(level, p);
                        self.lemma_table_at_child(level, i, p);
                    }
                    c.lemma_walk::<M>(below, memory, vpn);
                },
                None => {},
            }
        }
    }

    /// A table without a valid entry, held by the frame `ppn`.
    fn new_empty<M: PageMode>(ppn: PhysPageNum, level: Ghost<nat>) -> (r: TableNode)
        requires
            level@ < M::spec_level_count(),
        ensures
            r.ppn == ppn,
            r.wf::<M>(level@),
            forall|v: VirtPageNum| r.lookup::<M>(level@, v) is None,
            forall|v: VirtPageNum| r.missing::<M>(level@, v) == level@,
            forall|p: PhysPageNum| r.holds(level@, p) <==> p == ppn,
            r.apart(level@),
            r.table.entries@ == Seq::new(ENTRIES_PER_TABLE as nat, |i: int| M::spec_vacant()),
    {
        proof {
            M::lemma_mode_laws();
        }
        let mut table = PageTable::zeroed();
        M::fill_page_table_invalid(&mut table);
        let mut children: Vec<Option<Box<TableNode>>> = Vec::new();
        let mut i: usize = 0;
        while i < ENTRIES_PER_TABLE
            invariant
                i <= ENTRIES_PER_TABLE,
                children@.len() == i,
                forall|j: int| 0 <= j < i ==> (#[trigger] children@[j]) is None,
            decreases ENTRIES_PER_TABLE - i,
        {
            children.push(None);
            i += 1;
        }
        assert(table.entries@ =~= Seq::new(ENTRIES_PER_TABLE as nat, |i: int| M::spec_vacant()));
        TableNode { ppn, table, children }
    }
}

/// One table of a tree is exchanged, or put where none was. If the new table
/// holds what the old one held and frames that the tree did not hold, the
/// tree holds what it held and those frames, and still no frame holds two of
/// its tables.
proof fn lemma_child_replaced(
    before: TableNode,
    after: TableNode,
    level: nat,
    i: int,
    added: spec_fn(PhysPageNum) -> bool,
)
    requires
        level > 0,
        0 <= i < ENTRIES_PER_TABLE,
        before.children@.len() == ENTRIES_PER_TABLE,
        after.children@.len() == ENTRIES_PER_TABLE,
        after.ppn == before.ppn,
        forall|k: int| 0 <= k < ENTRIES_PER_TABLE && k != i ==> #[trigger] after.children@[k] == before.children@[k],
        after.children@[i] is Some,
        after.children@[i]->Some_0.apart((level - 1) as nat),
        forall|p: PhysPageNum|
            #[trigger] after.children@[i]->Some_0.holds((level - 1) as nat, p) <==> (before.child_holds(level, i, p)
                || added(p)),
        before.apart(level),
        forall|p: PhysPageNum| #[trigger] added(p) ==> !before.holds(level, p),
    ensures
        after.apart(level),
        forall|p: PhysPageNum| #[trigger] after.holds(level, p) <==> (before.holds(level, p) || added(p)),
{
    let below = (level - 1) as nat;
    let new_child = after.children@[i]->Some_0;
    assert forall|k: int, p: PhysPageNum| k != i implies #[trigger] after.child_holds(level, k, p)
        == before.child_holds(level, k, p) by {
        if 0 <= k < ENTRIES_PER_TABLE {
            assert(after.children@[k] == before.children@[k]);
        }
    }
    assert forall|p: PhysPageNum| after.child_holds(level, i, p) == (before.child_holds(level, i, p) || added(
        p,
    )) by {
        assert(after.child_holds(level, i, p) == new_child.holds(below, p));
    }
    assert forall|p: PhysPageNum| #[trigger] after.holds(level, p) <==> (before.holds(level, p) || added(p)) by {
        after.lemma_holds(level, p);
        before.lemma_holds(level, p);
        if after.holds(level, p) && p != after.ppn {
            let k = choose|k: int| #[trigger] after.child_holds(level, k, p);
            if k != i {
                assert(before.child_holds(level, k, p));
            } else if !added(p) {
                assert(before.child_holds(level, i, p));
            }
        }
        if before.holds(level, p) && p != before.ppn {
            let k = choose|k: int| #[trigger] before.child_holds(level, k, p);
            if k != i {
                assert(after.child_holds(level, k, p));
            } else {
                assert(after.child_holds(level, i, p));
            }
        }
        if added(p) {
            assert(after.child_holds(level, i, p));
        }
    }
    assert forall|k: int| 0 <= k < ENTRIES_PER_TABLE implies match #[trigger] after.children@[k] {
        Some(c) => {
            &&& c.apart(below)
            &&& !c.holds(below, after.ppn)
            &&& forall|j: int, p: PhysPageNum|
                j != k && #[trigger] after.child_holds(level, j, p) ==> !c.holds(below, p)
        },
        None => true,
    } by {
        match after.children@[k] {
            Some(c) => {
                if k == i {
                    before.lemma_holds(level, before.ppn);
                    if c.holds(below, after.ppn) {
                        assert(before.child_holds(level, i, before.ppn));
                        assert(before.children@[i] is Some);
                    }
                    assert forall|j: int, p: PhysPageNum|
                        j != k && #[trigger] after.child_holds(level, j, p) implies !c.holds(below, p) by {
                        assert(before.child_holds(level, j, p));
                        before.lemma_holds(level, p);
                        if c.holds(below, p) {
                            assert(before.child_holds(level, i, p));
                            assert(before.children@[i] is Some);
                        }
                    }
                } else {
                    assert(before.children@[k] == after.children@[k]);
                    assert forall|j: int, p: PhysPageNum|
                        j != k && #[trigger] after.child_holds(level, j, p) implies !c.holds(below, p) by {
                        if j == i {
                            if c.holds(below, p) {
                                assert(before.child_holds(level, k, p));
                                before.lemma_holds(level, p);
                                assert(before.child_holds(level, i, p));
                                assert(before.children@[i] is Some);
                            }
                        } else {
                            assert(before.child_holds(level, j, p));
                        }
                    }
                }
            },
            None => {},
        }
    }
}

/// Taking one free frame: the list grows by it, the free set loses it.
proof fn lemma_take_one(frames: Seq<PhysPageNum>, free: Set<PhysPageNum>, p: PhysPageNum)
    requires
        frames_held(frames, free),
        free.contains(p),
        p.is_valid(),
    ensures
        frames_held(frames.push(p), free.remove(p)),
        frames_taken(frames, free, frames.push(p), free.remove(p)),
{
    let after = frames.push(p);
    assert(after.subrange(0, frames.len() as int) =~= frames);
    assert forall|q: PhysPageNum| free.remove(p).contains(q) <==> (free.contains(q) && !after.contains(q)) by {
        if after.contains(q) {
            let k = choose|k: int| 0 <= k < after.len() && after[k] == q;
            if k < frames.len() {
                assert(frames[k] == q);
            }
        }
        if q == p {
            assert(after[frames.len() as int] == p);
        }
    }
    assert forall|i: int, j: int| 0 <= i < after.len() && 0 <= j < after.len() && i != j implies after[i]
        != after[j] by {
        if i < frames.len() {
            assert(frames[i] == after[i]);
        }
        if j < frames.len() {
            assert(frames[j] == after[j]);
        }
    }
    assert forall|k: int| 0 <= k < after.len() implies (#[trigger] after[k]).is_valid() && !free.remove(
        p,
    ).contains(after[k]) by {
        if k < frames.len() {
            assert(frames[k] == after[k]);
        }
    }
}

/// Frames taken in two steps are frames taken.
pub proof fn lemma_taken_twice(
    f0: Seq<PhysPageNum>,
    s0: Set<PhysPageNum>,
    f1: Seq<PhysPageNum>,
    s1: Set<PhysPageNum>,
    f2: Seq<PhysPageNum>,
    s2: Set<PhysPageNum>,
)
    requires
        frames_taken(f0, s0, f1, s1),
        frames_taken(f1, s1, f2, s2),
    ensures
        frames_taken(f0, s0, f2, s2),
{
    assert(f2.subrange(0, f0.len() as int) =~= f0) by {
        assert forall|k: int| 0 <= k < f0.len() implies f2[k] == f0[k] by {
            assert(f2.subrange(0, f1.len() as int)[k] == f1[k]);
            assert(f1.subrange(0, f0.len() as int)[k] == f0[k]);
        }
    }
    assert forall|k: int| f0.len() <= k < f2.len() implies s0.contains(#[trigger] f2[k]) && f2[k].is_valid() by {
        if k < f1.len() {
            assert(f2.subrange(0, f1.len() as int)[k] == f1[k]);
        }
    }
    assert forall|p: PhysPageNum| s2.contains(p) <==> (s0.contains(p) && !f2.contains(p)) by {
        if f1.contains(p) {
            let k = choose|k: int| 0 <= k < f1.len() && f1[k] == p;
            assert(f2.subrange(0, f1.len() as int)[k] == f1[k]);
            assert(f2[k] == p);
        }
    }
}

/// Nothing taken.
pub proof fn lemma_taken_none(f: Seq<PhysPageNum>, s: Set<PhysPageNum>)
    requires
        frames_held(f, s),
    ensures
        frames_taken(f, s, f, s),
{
    assert(f.subrange(0, f.len() as int) =~= f);
    assert forall|p: PhysPageNum| s.contains(p) <==> (s.contains(p) && !f.contains(p)) by {
        if f.contains(p) {
            let k = choose|k: int| 0 <= k < f.len() && f[k] == p;
        }
    }
}

/// What holds of a list of held frames holds of the list without its first
/// frame.
proof fn lemma_held_without_first(frames: Seq<PhysPageNum>, free: Set<PhysPageNum>)
    requires
        frames.len() >= 1,
        frames_held(frames, free),
    ensures
        frames_held(frames.subrange(1, frames.len() as int), free),
{
    let rest = frames.subrange(1, frames.len() as int);
    assert forall|i: int, j: int| 0 <= i < rest.len() && 0 <= j < rest.len() && i != j implies rest[i] != rest[j] by {
        assert(rest[i] == frames[i + 1]);
        assert(rest[j] == frames[j + 1]);
    }
    assert forall|k: int| 0 <= k < rest.len() implies (#[trigger] rest[k]).is_valid() && !free.contains(rest[k]) by {
        assert(rest[k] == frames[k + 1]);
    }
}

/// Frames taken behind a first frame that is held: the lists with the first
/// frame in front are held and taken in the same way.
proof fn lemma_taken_with_first(
    first: PhysPageNum,
    f0: Seq<PhysPageNum>,
    s0: Set<PhysPageNum>,
    f1: Seq<PhysPageNum>,
    s1: Set<PhysPageNum>,
)
    requires
        frames_held(seq![first] + f0, s0),
        frames_held(f1, s1),
        frames_taken(f0, s0, f1, s1),
    ensures
        frames_held(seq![first] + f1, s1),
        frames_taken(seq![first] + f0, s0, seq![first] + f1, s1),
{
    let a0 = seq![first] + f0;
    let a1 = seq![first] + f1;
    assert(a0[0] == first);
    assert(!s0.contains(first) && first.is_valid());
    assert forall|k: int| 0 <= k < f1.len() implies f1[k] != first by {
        if k < f0.len() {
            assert(f1.subrange(0, f0.len() as int)[k] == f0[k]);
            assert(a0[k + 1] == f0[k]);
        } else {
            assert(s0.contains(f1[k]));
        }
    }
    assert forall|i: int, j: int| 0 <= i < a1.len() && 0 <= j < a1.len() && i != j implies a1[i] != a1[j] by {
        if i > 0 {
            assert(a1[i] == f1[i - 1]);
        }
        if j > 0 {
            assert(a1[j] == f1[j - 1]);
        }
    }
    assert forall|k: int| 0 <= k < a1.len() implies (#[trigger] a1[k]).is_valid() && !s1.contains(a1[k]) by {
        if k > 0 {
            assert(a1[k] == f1[k - 1]);
        }
    }
    assert(a1.subrange(0, a0.len() as int) =~= a0) by {
        assert forall|k: int| 0 <= k < a0.len() implies a1[k] == a0[k] by {
            if k > 0 {
                assert(f1.subrange(0, f0.len() as int)[k - 1] == f0[k - 1]);
            }
        }
    }
    assert forall|k: int| a0.len() <= k < a1.len() implies s0.contains(#[trigger] a1[k]) && a1[k].is_valid() by {
        assert(a1[k] == f1[k - 1]);
    }
    assert forall|p: PhysPageNum| s1.contains(p) <==> (s0.contains(p) && !a1.contains(p)) by {
        if a1.contains(p) {
            let k = choose|k: int| 0 <= k < a1.len() && a1[k] == p;
            if k > 0 {
                assert(f1[k - 1] == p);
            }
        }
        if f1.contains(p) {
            let k = choose|k: int| 0 <= k < f1.len() && f1[k] == p;
            assert(a1[k + 1] == p);
        }
    }
}

/// Looks for the table that the frame `p` holds, from `node` down.
fn find_table<M: PageMode>(node: &TableNode, level: u8, p: PhysPageNum) -> (r: Option<Vec<PageTableEntry>>)
    requires
        level < M::spec_level_count(),
        node.wf::<M>(level as nat),
        node.apart(level as nat),
    ensures
        r is Some <==> node.holds(level as nat, p),
        r matches Some(t) ==> t@ == node.table_at(level as nat, p),
    decreases level,
{
    proof {
        node.lemma_holds(level as nat, p);
    }
    if node.ppn.0 == p.0 {
        let mut copy: Vec<PageTableEntry> = Vec::new();
        let mut k: usize = 0;
        while k < ENTRIES_PER_TABLE
            invariant
                k <= ENTRIES_PER_TABLE,
                node.table.wf(),
                copy@ == node.table.entries@.subrange(0, k as int),
            decreases ENTRIES_PER_TABLE - k,
        {
            copy.push(node.table.entries[k]);
            assert(copy@ =~= node.table.entries@.subrange(0, k + 1));
            k += 1;
        }
        assert(copy@ =~= node.table.entries@);
        return Some(copy);
    }
    if level == 0 {
        return None;
    }
    let mut i: usize = 0;
    while i < ENTRIES_PER_TABLE
        invariant
            i <= ENTRIES_PER_TABLE,
            0 < level < M::spec_level_count(),
            node.wf::<M>(level as nat),
            node.apart(level as nat),
            forall|j: int| 0 <= j < i ==> !node.child_holds(level as nat, j, p),
        decreases ENTRIES_PER_TABLE - i,
    {
        match &node.children[i] {
            Some(c) => {
                let found = find_table::<M>(c, level - 1, p);
                if found.is_some() {
                    proof {
                        assert(node.child_holds(level as nat, i as int, p));
                        node.lemma_table_at_child(level as nat, i as int, p);
                    }
                    return found;
                }
            },
            None => {},
        }
        i += 1;
    }
    proof {
        if exists|j: int| #[trigger] node.child_holds(level as nat, j, p) {
            let j = choose|j: int| #[trigger] node.child_holds(level as nat, j, p);
            assert(0 <= j < ENTRIES_PER_TABLE);
        }
    }
    None
}

/// Writes the leaf entry `entry` for `vpn` below `node`, making the tables
/// that are missing on the way.
fn map_in<M: PageMode, A: FrameAllocator>(
    node: &mut TableNode,
    level: u8,
    vpn: VirtPageNum,
    entry: PageTableEntry,
    frames: &mut Vec<FrameBox>,
    frame_alloc: &mut A,
) -> (r: Result<(), MapError>)
    requires
        level < M::spec_level_count(),
        old(node).wf::<M>(level as nat),
        old(node).apart(level as nat),
        forall|p: PhysPageNum| old(node).holds(level as nat, p) ==> !old(frame_alloc).free_frames().contains(p),
        old(frame_alloc).alloc_wf(),
        frames_held(frame_ppns(old(frames)@), old(frame_alloc).free_frames()),
    ensures
        final(node).wf::<M>(level as nat),
        final(node).apart(level as nat),
        forall|p: PhysPageNum| #[trigger]
            final(node).holds(level as nat, p) <==> (old(node).holds(level as nat, p) || frames_added(
                old(frames)@.len(),
                frame_ppns(final(frames)@),
                p,
            )),
        final(node).ppn == old(node).ppn,
        final(frame_alloc).alloc_wf(),
        frames_held(frame_ppns(final(frames)@), final(frame_alloc).free_frames()),
        frames_taken(
            frame_ppns(old(frames)@),
            old(frame_alloc).free_frames(),
            frame_ppns(final(frames)@),
            final(frame_alloc).free_frames(),
        ),
        r is Ok ==> old(node).lookup::<M>(level as nat, vpn) is None,
        r is Ok ==> forall|v: VirtPageNum| #[trigger]
            final(node).lookup::<M>(level as nat, v) == if slot_eq::<M>(v, vpn, level as nat) {
                if M::spec_entry_valid(entry) {
                    Some(entry)
                } else {
                    None
                }
            } else {
                old(node).lookup::<M>(level as nat, v)
            },
        r is Err ==> forall|v: VirtPageNum| #[trigger]
            final(node).lookup::<M>(level as nat, v) == old(node).lookup::<M>(level as nat, v),
        r == Err::<(), MapError>(MapError::Conflict) <==> old(node).lookup::<M>(level as nat, vpn) is Some,
        r == Err::<(), MapError>(MapError::Conflict) ==> final(frames)@ == old(frames)@,
        r == Err::<(), MapError>(MapError::OutOfMemory) ==> final(frame_alloc).free_frames() == Set::<
            PhysPageNum,
        >::empty(),
        r is Ok ==> final(frames)@.len() == old(frames)@.len() + old(node).missing::<M>(level as nat, vpn),
        r == Err::<(), MapError>(MapError::OutOfMemory) ==> final(frames)@.len() < old(frames)@.len() + old(
            node,
        ).missing::<M>(level as nat, vpn),
        final(node).missing::<M>(level as nat, vpn) + final(frames)@.len() == old(node).missing::<M>(
            level as nat,
            vpn,
        ) + old(frames)@.len(),
        old(frame_alloc).free_frames().len() >= old(node).missing::<M>(level as nat, vpn) ==> r != Err::<
            (),
            MapError,
        >(MapError::OutOfMemory),
    decreases level,
{
    proof {
        M::lemma_mode_laws();
        lemma_taken_none(frame_ppns(frames@), frame_alloc.free_frames());
        frame_alloc.lemma_free_finite();
    }
    let i = M::vpn_index(vpn, PageLevel(level));
    if level == 0 {
        match M::convert_entry(&node.table.entries[i]) {
            Some(_) => Err(MapError::Conflict),
            None => {
                node.table.entries.set(i, entry);
                proof {
                    assert forall|v: VirtPageNum| #[trigger]
                        node.lookup::<M>(0, v) == if slot_eq::<M>(v, vpn, 0) {
                            if M::spec_entry_valid(entry) {
                                Some(entry)
                            } else {
                                None
                            }
                        } else {
                            old(node).lookup::<M>(0, v)
                        } by {
                        let j = M::spec_vpn_index(v, PageLevel(0));
                        if j != i {
                            assert(node.table.entries@[j] == old(node).table.entries@[j]);
                        }
                    }
                }
                Ok(())
            },
        }
    } else {
        let ghost below = (level - 1) as nat;
        if node.children[i].is_none() {
            match frame_alloc.allocate_frame() {
                Err(_) => {
                    return Err(MapError::OutOfMemory);
                },
                Ok(p) => {
                    let child = TableNode::new_empty::<M>(p, Ghost(below));
                    let ghost fresh = child;
                    node.table.entries.set(i, M::new_entry(p, M::table_flags()));
                    node.children.set(i, Some(Box::new(child)));
                    frames.push(FrameBox::from_ppn(p));
                    proof {
                        lemma_take_one(frame_ppns(old(frames)@), old(frame_alloc).free_frames(), p);
                        assert(frame_ppns(frames@) =~= frame_ppns(old(frames)@).push(p));
                        assert(fresh.missing::<M>(below, vpn) == below);
                        assert(node.children@[i as int] == Some(Box::new(fresh)));
                        assert(node.missing::<M>(level as nat, vpn) == below);
                        assert(old(node).missing::<M>(level as nat, vpn) == level);
                        assert forall|k: int| 0 <= k < ENTRIES_PER_TABLE implies match #[trigger] node.children@[k] {
                            Some(c) => {
                                &&& level > 0
                                &&& c.wf::<M>(below)
                                &&& node.table.entries@[k] == M::spec_encode(c.ppn, M::spec_table_flags())
                            },
                            None => level > 0 ==> !M::spec_entry_valid(node.table.entries@[k]),
                        } by {
                            if k != i {
                                assert(node.children@[k] == old(node).children@[k]);
                                assert(node.table.entries@[k] == old(node).table.entries@[k]);
                            }
                        }
                        assert forall|v: VirtPageNum| #[trigger]
                            node.lookup::<M>(level as nat, v) == old(node).lookup::<M>(level as nat, v) by {
                            let j = M::spec_vpn_index(v, PageLevel(level));
                            if j == i {
                                assert(fresh.lookup::<M>(below, v) is None);
                            } else {
                                assert(node.children@[j] == old(node).children@[j]);
                            }
                        }
                        assert(node.children@[i as int]->Some_0 == fresh);
                        lemma_child_replaced(*old(node), *node, level as nat, i as int, |q: PhysPageNum| q == p);
                    }
                },
            }
        }
        let ghost mid_frames = frame_ppns(frames@);
        let ghost mid_free = frame_alloc.free_frames();
        let ghost mid = *node;
        let ghost mid_len = frames@.len();
        assert(mid.children@[i as int] is Some);
        assert(mid.wf::<M>(level as nat));
        assert(mid.apart(level as nat));
        assert forall|q: PhysPageNum| #[trigger]
            mid.holds(level as nat, q) <==> (old(node).holds(level as nat, q) || frames_added(
                old(frames)@.len(),
                mid_frames,
                q,
            )) by {
            if mid_len == old(frames)@.len() {
            } else {
                assert(mid_frames[old(frames)@.len() as int] == mid_frames.last());
                if frames_added(old(frames)@.len(), mid_frames, q) {
                    let k = choose|k: int| old(frames)@.len() <= k < mid_frames.len() && mid_frames[k] == q;
                }
            }
        }
        assert forall|q: PhysPageNum| mid.holds(level as nat, q) implies !mid_free.contains(q) by {
            if frames_added(old(frames)@.len(), mid_frames, q) {
                let k = choose|k: int| old(frames)@.len() <= k < mid_frames.len() && mid_frames[k] == q;
                assert(mid_frames.contains(q));
            }
        }
        assert forall|q: PhysPageNum|
            mid.children@[i as int]->Some_0.holds(below, q) implies !mid_free.contains(q) by {
            assert(mid.child_holds(level as nat, i as int, q));
            mid.lemma_holds(level as nat, q);
        }
        assert(mid.missing::<M>(level as nat, vpn) + mid_len == old(node).missing::<M>(level as nat, vpn) + old(
            frames,
        )@.len());
        assert(mid.lookup::<M>(level as nat, vpn) == old(node).lookup::<M>(level as nat, vpn));
        let r = match &mut node.children[i] {
            Some(c) => map_in::<M, A>(c, level - 1, vpn, entry, frames, frame_alloc),
            None => Err(MapError::OutOfMemory),
        };
        proof {
            lemma_taken_twice(
                frame_ppns(old(frames)@),
                old(frame_alloc).free_frames(),
                mid_frames,
                mid_free,
                frame_ppns(frames@),
                frame_alloc.free_frames(),
            );
            let before = mid.children@[i as int]->Some_0;
            let after = node.children@[i as int]->Some_0;
            assert(node.children@.len() == ENTRIES_PER_TABLE);
            let final_frames = frame_ppns(frames@);
            assert forall|k: int| 0 <= k < ENTRIES_PER_TABLE && k != i implies #[trigger] node.children@[k]
                == mid.children@[k] by {}
            assert forall|q: PhysPageNum| #[trigger]
                frames_added(mid_len, final_frames, q) implies !mid.holds(level as nat, q) by {
                let k = choose|k: int| mid_len <= k < final_frames.len() && final_frames[k] == q;
                assert(mid_free.contains(final_frames[k]));
            }
            lemma_child_replaced(mid, *node, level as nat, i as int, |q: PhysPageNum|
                frames_added(mid_len, final_frames, q));
            assert forall|q: PhysPageNum| #[trigger]
                node.holds(level as nat, q) <==> (old(node).holds(level as nat, q) || frames_added(
                    old(frames)@.len(),
                    final_frames,
                    q,
                )) by {
                if frames_added(old(frames)@.len(), mid_frames, q) {
                    let k = choose|k: int| old(frames)@.len() <= k < mid_frames.len() && mid_frames[k] == q;
                    assert(final_frames.subrange(0, mid_frames.len() as int)[k] == mid_frames[k]);
                    assert(final_frames[k] == q);
                }
                if frames_added(mid_len, final_frames, q) {
                    let k = choose|k: int| mid_len <= k < final_frames.len() && final_frames[k] == q;
                    assert(old(frames)@.len() <= k);
                }
                if frames_added(old(frames)@.len(), final_frames, q) {
                    let k = choose|k: int| old(frames)@.len() <= k < final_frames.len() && final_frames[k] == q;
                    if k < mid_len {
                        assert(final_frames.subrange(0, mid_frames.len() as int)[k] == mid_frames[k]);
                        assert(mid_frames[k] == q);
                    }
                }
            }
            assert forall|k: int| 0 <= k < ENTRIES_PER_TABLE implies match #[trigger] node.children@[k] {
                Some(c) => {
                    &&& level > 0
                    &&& c.wf::<M>(below)
                    &&& node.table.entries@[k] == M::spec_encode(c.ppn, M::spec_table_flags())
                },
                None => level > 0 ==> !M::spec_entry_valid(node.table.entries@[k]),
            } by {
                if k != i {
                    assert(node.children@[k] == mid.children@[k]);
                }
            }
            assert forall|v: VirtPageNum|
                r is Ok implies #[trigger] node.lookup::<M>(level as nat, v) == if slot_eq::<M>(
                v,
                vpn,
                level as nat,
            ) {
                if M::spec_entry_valid(entry) {
                    Some(entry)
                } else {
                    None
                }
            } else {
                old(node).lookup::<M>(level as nat, v)
            } by {
                let j = M::spec_vpn_index(v, PageLevel(level));
                assert(mid.lookup::<M>(level as nat, v) == old(node).lookup::<M>(level as nat, v));
                if j == i {
                    assert(node.lookup::<M>(level as nat, v) == after.lookup::<M>(below, v));
                    assert(mid.lookup::<M>(level as nat, v) == before.lookup::<M>(below, v));
                } else {
                    assert(node.children@[j] == mid.children@[j]);
                }
            }
            assert forall|v: VirtPageNum|
                r is Err implies #[trigger] node.lookup::<M>(level as nat, v) == old(node).lookup::<M>(
                level as nat,
                v,
            ) by {
                let j = M::spec_vpn_index(v, PageLevel(level));
                assert(mid.lookup::<M>(level as nat, v) == old(node).lookup::<M>(level as nat, v));
                if j == i {
                    assert(node.lookup::<M>(level as nat, v) == after.lookup::<M>(below, v));
                    assert(mid.lookup::<M>(level as nat, v) == before.lookup::<M>(below, v));
                } else {
                    assert(node.children@[j] == mid.children@[j]);
                }
            }
        }
        r
    }
}

/// Makes the leaf entry for `vpn` below `node` vacant, if there is a valid
/// one, and returns what it held.
fn unmap_in<M: PageMode>(node: &mut TableNode, level: u8, vpn: VirtPageNum) -> (r: Option<PageTableEntry>)
    requires
        level < M::spec_level_count(),
        old(node).wf::<M>(level as nat),
        old(node).apart(level as nat),
    ensures
        final(node).wf::<M>(level as nat),
        final(node).apart(level as nat),
        forall|p: PhysPageNum| #[trigger] final(node).holds(level as nat, p) == old(node).holds(level as nat, p),
        forall|v: VirtPageNum| #[trigger]
            final(node).missing::<M>(level as nat, v) == old(node).missing::<M>(level as nat, v),
        final(node).ppn == old(node).ppn,
        r == old(node).lookup::<M>(level as nat, vpn),
        forall|v: VirtPageNum| #[trigger]
            final(node).lookup::<M>(level as nat, v) == if slot_eq::<M>(v, vpn, level as nat) {
                None
            } else {
                old(node).lookup::<M>(level as nat, v)
            },
    decreases level,
{
    proof {
        M::lemma_mode_laws();
    }
    let i = M::vpn_index(vpn, PageLevel(level));
    if level == 0 {
        let e = node.table.entries[i];
        match M::convert_entry(&e) {
            Some(_) => {
                node.table.entries.set(i, M::vacant_entry());
                proof {
                    assert forall|v: VirtPageNum| #[trigger]
                        node.lookup::<M>(0, v) == if slot_eq::<M>(v, vpn, 0) {
                            None
                        } else {
                            old(node).lookup::<M>(0, v)
                        } by {
                        let j = M::spec_vpn_index(v, PageLevel(0));
                        if j != i {
                            assert(node.table.entries@[j] == old(node).table.entries@[j]);
                        }
                    }
                }
                Some(e)
            },
            None => None,
        }
    } else {
        let ghost below = (level - 1) as nat;
        let r = match &mut node.children[i] {
            Some(c) => unmap_in::<M>(c, level - 1, vpn),
            None => None,
        };
        proof {
            if old(node).children@[i as int] is Some {
                assert forall|k: int| 0 <= k < ENTRIES_PER_TABLE && k != i implies #[trigger] node.children@[k]
                    == old(node).children@[k] by {}
                lemma_child_replaced(*old(node), *node, level as nat, i as int, |q: PhysPageNum| false);
            } else {
                assert(node.children@ =~= old(node).children@);
                assert forall|q: PhysPageNum| #[trigger]
                    node.holds(level as nat, q) == old(node).holds(level as nat, q) by {
                    node.lemma_holds(level as nat, q);
                    old(node).lemma_holds(level as nat, q);
                    if node.holds(level as nat, q) && q != node.ppn {
                        let k = choose|k: int| #[trigger] node.child_holds(level as nat, k, q);
                        assert(old(node).child_holds(level as nat, k, q));
                    }
                    if old(node).holds(level as nat, q) && q != node.ppn {
                        let k = choose|k: int| #[trigger] old(node).child_holds(level as nat, k, q);
                        assert(node.child_holds(level as nat, k, q));
                    }
                }
                assert forall|k: int| 0 <= k < ENTRIES_PER_TABLE implies match #[trigger] node.children@[k] {
                    Some(c) => {
                        &&& c.apart(below)
                        &&& !c.holds(below, node.ppn)
                        &&& forall|j: int, q: PhysPageNum|
                            j != k && #[trigger] node.child_holds(level as nat, j, q) ==> !c.holds(below, q)
                    },
                    None => true,
                } by {
                    assert(node.children@[k] == old(node).children@[k]);
                    match node.children@[k] {
                        Some(c) => {
                            assert forall|j: int, q: PhysPageNum|
                                j != k && #[trigger] node.child_holds(level as nat, j, q) implies !c.holds(
                                below,
                                q,
                            ) by {
                                assert(old(node).child_holds(level as nat, j, q));
                            }
                        },
                        None => {},
                    }
                }
            }
            assert forall|v: VirtPageNum| #[trigger]
                node.missing::<M>(level as nat, v) == old(node).missing::<M>(level as nat, v) by {
                let j = M::spec_vpn_index(v, PageLevel(level));
                if j != i {
                    assert(node.children@[j] == old(node).children@[j]);
                } else {
                    match old(node).children@[i as int] {
                        Some(before) => {
                            let after = node.children@[i as int]->Some_0;
                            assert(node.missing::<M>(level as nat, v) == after.missing::<M>(below, v));
                            assert(old(node).missing::<M>(level as nat, v) == before.missing::<M>(below, v));
                        },
                        None => {
                            assert(node.children@[i as int] is None);
                        },
                    }
                }
            }
            assert forall|k: int| 0 <= k < ENTRIES_PER_TABLE implies match #[trigger] node.children@[k] {
                Some(c) => {
                    &&& level > 0
                    &&& c.wf::<M>(below)
                    &&& node.table.entries@[k] == M::spec_encode(c.ppn, M::spec_table_flags())
                },
                None => level > 0 ==> !M::spec_entry_valid(node.table.entries@[k]),
            } by {
                if k != i {
                    assert(node.children@[k] == old(node).children@[k]);
                }
            }
            assert forall|v: VirtPageNum| #[trigger]
                node.lookup::<M>(level as nat, v) == if slot_eq::<M>(v, vpn, level as nat) {
                    None
                } else {
                    old(node).lookup::<M>(level as nat, v)
                } by {
                let j = M::spec_vpn_index(v, PageLevel(level));
                if j != i {
                    assert(node.children@[j] == old(node).children@[j]);
                } else {
                    match old(node).children@[i as int] {
                        Some(before) => {
                            let after = node.children@[i as int]->Some_0;
                            assert(node.lookup::<M>(level as nat, v) == after.lookup::<M>(below, v));
                            assert(old(node).lookup::<M>(level as nat, v) == before.lookup::<M>(below, v));
                        },
                        None => {
                            assert(node.children@[i as int] is None);
                        },
                    }
                }
            }
        }
        r
    }
}

/// An address space made of page tables of the mode `M`.
#[derive(Debug)]
pub struct PagedAddrSpace<M: PageMode> {
    root_frame: FrameBox,
    frames: Vec<FrameBox>,
    root: TableNode,
    page_mode: M,
}

impl<M: PageMode> PagedAddrSpace<M> {
    /// The invariant of the address space: its tables are well formed from the
    /// root down, each of them is held by a frame of its own, and these
    /// frames are exactly the frames that the address space owns.
    pub closed spec fn wf(&self) -> bool {
        &&& 1 <= M::spec_level_count() <= 255
        &&& self.root.wf::<M>((M::spec_level_count() - 1) as nat)
        &&& self.root.ppn == self.root_frame.spec_ppn()
        &&& self.root.apart((M::spec_level_count() - 1) as nat)
        &&& forall|p: PhysPageNum| #[trigger]
            self.root.holds((M::spec_level_count() - 1) as nat, p) <==> self.owned_frames().contains(p)
    }

    /// The frames that the address space owns: the frame of the root table
    /// first, then those of the other tables in the order in which they were
    /// taken.
    pub closed spec fn owned_frames(&self) -> Seq<PhysPageNum> {
        seq![self.root_frame.spec_ppn()] + frame_ppns(self.frames@)
    }

    /// The page that holds the root table.
    pub closed spec fn spec_root_ppn(&self) -> PhysPageNum {
        self.root_frame.spec_ppn()
    }

    /// The physical page and the flags that `vpn` is mapped to, if it is
    /// mapped.
    pub closed spec fn mapping(&self, vpn: VirtPageNum) -> Option<(PhysPageNum, M::Flags)> {
        entry_target::<M>(self.root.lookup::<M>((M::spec_level_count() - 1) as nat, vpn))
    }

    /// The number of tables that have to be made before `vpn` can be mapped:
    /// those that are missing on the way from the root table to its leaf.
    pub closed spec fn tables_missing(&self, vpn: VirtPageNum) -> nat {
        self.root.missing::<M>((M::spec_level_count() - 1) as nat, vpn)
    }

    /// The entries of the table that the frame `p` holds, for a frame that
    /// the address space owns.
    pub closed spec fn table_image(&self, p: PhysPageNum) -> Seq<PageTableEntry> {
        self.root.table_at((M::spec_level_count() - 1) as nat, p)
    }

    /// The paging mode of the address space.
    pub closed spec fn spec_page_mode(&self) -> M {
        self.page_mode
    }

    /// An address space that maps nothing. It takes one frame, for the root
    /// table, and fails if the allocator has none.
    pub fn try_new_in<A: FrameAllocator>(page_mode: M, frame_alloc: &mut A) -> (r: Result<
        PagedAddrSpace<M>,
        FrameAllocError,
    >)
        requires
            old(frame_alloc).alloc_wf(),
        ensures
            final(frame_alloc).alloc_wf(),
            match r {
                Ok(space) => {
                    &&& space.wf()
                    &&& space.spec_page_mode() == page_mode
                    &&& forall|v: VirtPageNum| space.tables_missing(v) == M::spec_level_count() - 1
                    &&& space.owned_frames().len() == 1
                    &&& space.owned_frames()[0] == space.spec_root_ppn()
                    &&& space.table_image(space.spec_root_ppn()) == Seq::new(
                        ENTRIES_PER_TABLE as nat,
                        |i: int| M::spec_vacant(),
                    )
                    &&& forall|v: VirtPageNum| space.mapping(v) is None
                    &&& frames_taken(
                        Seq::empty(),
                        old(frame_alloc).free_frames(),
                        space.owned_frames(),
                        final(frame_alloc).free_frames(),
                    )
                    &&& frames_held(space.owned_frames(), final(frame_alloc).free_frames())
                },
                Err(_) => {
                    &&& old(frame_alloc).free_frames() == Set::<PhysPageNum>::empty()
                    &&& final(frame_alloc).free_frames() == old(frame_alloc).free_frames()
                },
            },
    {
        proof {
            M::lemma_mode_laws();
        }
        match FrameBox::try_new_in(frame_alloc) {
            Err(e) => Err(e),
            Ok(root_frame) => {
                let root = TableNode::new_empty::<M>(
                    root_frame.phys_page_num(),
                    Ghost((M::spec_level_count() - 1) as nat),
                );
                let space = PagedAddrSpace { root_frame, frames: Vec::new(), root, page_mode };
                proof {
                    assert(space.owned_frames() =~= seq![space.spec_root_ppn()]);
                    assert(space.owned_frames().subrange(0, 0) =~= Seq::<PhysPageNum>::empty());
                    assert forall|p: PhysPageNum| #[trigger]
                        space.root.holds((M::spec_level_count() - 1) as nat, p) <==> space.owned_frames().contains(
                            p,
                        ) by {
                        if space.owned_frames().contains(p) {
                            let k = choose|k: int| 0 <= k < space.owned_frames().len() && space.owned_frames()[k] == p;
                        } else {
                            assert(space.owned_frames()[0] != p);
                        }
                    }
                    assert forall|p: PhysPageNum| final(frame_alloc).free_frames().contains(p) <==> (old(
                        frame_alloc,
                    ).free_frames().contains(p) && !space.owned_frames().contains(p)) by {
                        if space.owned_frames().contains(p) {
                            let k = choose|k: int| 0 <= k < space.owned_frames().len() && space.owned_frames()[k] == p;
                        } else {
                            assert(space.owned_frames()[0] != p);
                        }
                    }
                }
                Ok(space)
            },
        }
    }

    /// `after` maps what `self` maps, but for the pages in the slot of `vpn`:
    /// those are mapped to `target`, or not at all where `target` is nothing.
    pub open spec fn remapped(
        &self,
        after: &PagedAddrSpace<M>,
        vpn: VirtPageNum,
        target: Option<(PhysPageNum, M::Flags)>,
    ) -> bool {
        forall|v: VirtPageNum| #[trigger]
            after.mapping(v) == if same_slot::<M>(v, vpn) {
                target
            } else {
                self.mapping(v)
            }
    }

    /// `after` maps exactly what `self` maps.
    pub open spec fn same_mapping(&self, after: &PagedAddrSpace<M>) -> bool {
        forall|v: VirtPageNum| #[trigger] after.mapping(v) == self.mapping(v)
    }

    /// `after` is `self` with the first `k` pages of a run mapped: the page
    /// `j` steps after `vpn` to the page `j` steps after `ppn`, each with
    /// `flags`, later pages of the run over earlier ones.
    pub open spec fn run_mapped(
        &self,
        after: &PagedAddrSpace<M>,
        vpn: VirtPageNum,
        ppn: PhysPageNum,
        flags: M::Flags,
        k: nat,
    ) -> bool {
        forall|v: VirtPageNum| #[trigger] after.mapping(v) == self.run_target(vpn, ppn, flags, k, v)
    }

    /// What `v` is mapped to once the first `k` pages of a run are mapped on
    /// top of `self`.
    pub open spec fn run_target(
        &self,
        vpn: VirtPageNum,
        ppn: PhysPageNum,
        flags: M::Flags,
        k: nat,
        v: VirtPageNum,
    ) -> Option<(PhysPageNum, M::Flags)>
        decreases k,
    {
        if k == 0 {
            self.mapping(v)
        } else if same_slot::<M>(v, VirtPageNum(vpn_nth(vpn.0, (k - 1) as nat))) {
            leaf_of::<M>(PhysPageNum(ppn_nth(ppn.0, (k - 1) as nat)), flags)
        } else {
            self.run_target(vpn, ppn, flags, (k - 1) as nat, v)
        }
    }

    /// Maps the page `vpn` to the page `ppn` with `flags`.
    ///
    /// Walks from the root table down. Where a table is missing on the way,
    /// takes a frame for it and enters it as a table pointer. At the leaf,
    /// writes the entry, unless the leaf is valid already: that is a
    /// conflict, and nothing changes. When the allocator runs out, the tables
    /// made so far stay, empty, and the mapping is as before.
    pub fn map_page<A: FrameAllocator>(
        &mut self,
        vpn: VirtPageNum,
        ppn: PhysPageNum,
        flags: M::Flags,
        frame_alloc: &mut A,
    ) -> (r: Result<(), MapError>)
        requires
            old(self).wf(),
            old(frame_alloc).alloc_wf(),
            frames_held(old(self).owned_frames(), old(frame_alloc).free_frames()),
        ensures
            final(self).wf(),
            final(frame_alloc).alloc_wf(),
            final(self).spec_root_ppn() == old(self).spec_root_ppn(),
            frames_held(final(self).owned_frames(), final(frame_alloc).free_frames()),
            frames_taken(
                old(self).owned_frames(),
                old(frame_alloc).free_frames(),
                final(self).owned_frames(),
                final(frame_alloc).free_frames(),
            ),
            r is Ok ==> old(self).remapped(final(self), vpn, leaf_of::<M>(ppn, flags)),
            r is Err ==> old(self).same_mapping(final(self)),
            r == Err::<(), MapError>(MapError::Conflict) <==> old(self).mapping(vpn) is Some,
            r == Err::<(), MapError>(MapError::Conflict) ==> final(self).owned_frames() == old(self).owned_frames(),
            r == Err::<(), MapError>(MapError::OutOfMemory) ==> final(frame_alloc).free_frames() == Set::<
                PhysPageNum,
            >::empty(),
            r is Ok ==> final(self).owned_frames().len() == old(self).owned_frames().len() + old(
                self,
            ).tables_missing(vpn),
            r == Err::<(), MapError>(MapError::OutOfMemory) ==> final(self).owned_frames().len() < old(
                self,
            ).owned_frames().len() + old(self).tables_missing(vpn),
            final(self).tables_missing(vpn) + final(self).owned_frames().len() == old(self).tables_missing(vpn)
                + old(self).owned_frames().len(),
            old(frame_alloc).free_frames().len() >= old(self).tables_missing(vpn) ==> r != Err::<(), MapError>(
                MapError::OutOfMemory,
            ),
            final(self).spec_page_mode() == old(self).spec_page_mode(),
    {
        proof {
            M::lemma_mode_laws();
            lemma_held_without_first(old(self).owned_frames(), old(frame_alloc).free_frames());
            assert(old(self).owned_frames().subrange(1, old(self).owned_frames().len() as int) =~= frame_ppns(
                old(self).frames@,
            ));
            assert forall|p: PhysPageNum|
                old(self).root.holds((M::spec_level_count() - 1) as nat, p) implies !old(
                frame_alloc,
            ).free_frames().contains(p) by {
                let k = choose|k: int| 0 <= k < old(self).owned_frames().len() && old(self).owned_frames()[k] == p;
            }
        }
        let entry = M::new_entry(ppn, flags);
        let top: u8 = M::root_level().0 - 1;
        let r = map_in::<M, A>(&mut self.root, top, vpn, entry, &mut self.frames, frame_alloc);
        proof {
            old(self).root.lemma_lookup_valid::<M>(top as nat, vpn);
            lemma_taken_with_first(
                old(self).root_frame.spec_ppn(),
                frame_ppns(old(self).frames@),
                old(frame_alloc).free_frames(),
                frame_ppns(self.frames@),
                frame_alloc.free_frames(),
            );
            if r == Err::<(), MapError>(MapError::Conflict) {
                assert(self.owned_frames() =~= old(self).owned_frames());
            }
            let before = old(self).owned_frames();
            let after = self.owned_frames();
            let taken = frame_ppns(self.frames@);
            assert forall|p: PhysPageNum| #[trigger]
                self.root.holds((M::spec_level_count() - 1) as nat, p) <==> after.contains(p) by {
                if before.contains(p) {
                    let k = choose|k: int| 0 <= k < before.len() && before[k] == p;
                    assert(after.subrange(0, before.len() as int)[k] == before[k]);
                    assert(after[k] == p);
                }
                if frames_added(old(self).frames@.len(), taken, p) {
                    let k = choose|k: int| old(self).frames@.len() <= k < taken.len() && taken[k] == p;
                    assert(after[k + 1] == p);
                }
                if after.contains(p) {
                    let k = choose|k: int| 0 <= k < after.len() && after[k] == p;
                    if k < before.len() {
                        assert(after.subrange(0, before.len() as int)[k] == before[k]);
                        assert(before.contains(p));
                    } else {
                        assert(taken[k - 1] == p);
                    }
                }
            }
        }
        r
    }

    /// Maps a run of `count` pages: the page `j` steps after `vpn` to the page
    /// `j` steps after `ppn_base`, for every `j` below `count`, each with
    /// `flags`.
    ///
    /// Stops at the first page that cannot be mapped and reports how many
    /// pages were mapped before it, and why that page was not.
    pub fn map<A: FrameAllocator>(
        &mut self,
        vpn: VirtPageNum,
        count: u64,
        ppn_base: PhysPageNum,
        flags: M::Flags,
        frame_alloc: &mut A,
    ) -> (r: Result<(), (u64, MapError)>)
        requires
            old(self).wf(),
            old(frame_alloc).alloc_wf(),
            frames_held(old(self).owned_frames(), old(frame_alloc).free_frames()),
        ensures
            final(self).wf(),
            final(frame_alloc).alloc_wf(),
            final(self).spec_root_ppn() == old(self).spec_root_ppn(),
            frames_held(final(self).owned_frames(), final(frame_alloc).free_frames()),
            frames_taken(
                old(self).owned_frames(),
                old(frame_alloc).free_frames(),
                final(self).owned_frames(),
                final(frame_alloc).free_frames(),
            ),
            match r {
                Ok(()) => old(self).run_mapped(final(self), vpn, ppn_base, flags, count as nat),
                Err((done, cause)) => {
                    &&& done < count
                    &&& old(self).run_mapped(final(self), vpn, ppn_base, flags, done as nat)
                    &&& cause == MapError::Conflict <==> final(self).mapping(VirtPageNum(vpn_nth(vpn.0, done as nat)))
                        is Some
                    &&& cause == MapError::OutOfMemory ==> final(frame_alloc).free_frames() == Set::<
                        PhysPageNum,
                    >::empty()
                },
            },
    {
        let mut done: u64 = 0;
        let mut v = vpn;
        let mut p = ppn_base;
        proof {
            lemma_taken_none(self.owned_frames(), frame_alloc.free_frames());
        }
        while done < count
            invariant
                done <= count,
                v.0 == vpn_nth(vpn.0, done as nat),
                p.0 == ppn_nth(ppn_base.0, done as nat),
                self.wf(),
                frame_alloc.alloc_wf(),
                self.spec_root_ppn() == old(self).spec_root_ppn(),
                frames_held(self.owned_frames(), frame_alloc.free_frames()),
                frames_taken(
                    old(self).owned_frames(),
                    old(frame_alloc).free_frames(),
                    self.owned_frames(),
                    frame_alloc.free_frames(),
                ),
                old(self).run_mapped(self, vpn, ppn_base, flags, done as nat),
            decreases count - done,
        {
            let ghost before = *self;
            let ghost before_free = frame_alloc.free_frames();
            match self.map_page(v, p, flags, frame_alloc) {
                Ok(()) => {},
                Err(cause) => {
                    proof {
                        lemma_taken_twice(
                            old(self).owned_frames(),
                            old(frame_alloc).free_frames(),
                            before.owned_frames(),
                            before_free,
                            self.owned_frames(),
                            frame_alloc.free_frames(),
                        );
                        assert forall|w: VirtPageNum| #[trigger]
                            self.mapping(w) == old(self).run_target(vpn, ppn_base, flags, done as nat, w) by {
                            assert(self.mapping(w) == before.mapping(w));
                        }
                        assert(self.mapping(v) == before.mapping(v));
                    }
                    return Err((done, cause));
                },
            }
            proof {
                lemma_taken_twice(
                    old(self).owned_frames(),
                    old(frame_alloc).free_frames(),
                    before.owned_frames(),
                    before_free,
                    self.owned_frames(),
                    frame_alloc.free_frames(),
                );
                assert forall|w: VirtPageNum| #[trigger]
                    self.mapping(w) == old(self).run_target(vpn, ppn_base, flags, (done + 1) as nat, w) by {
                    assert(before.mapping(w) == old(self).run_target(vpn, ppn_base, flags, done as nat, w));
                }
            }
            v = v.next_page();
            p = p.next_page();
            done = done + 1;
        }
        Ok(())
    }

    /// Unmaps the page `vpn`: makes its leaf entry vacant and returns what it
    /// was mapped to. Where the page is not mapped, nothing changes and
    /// nothing is returned. The tables stay, and so does the frame that the
    /// page was mapped to: that one is the caller's.
    pub fn unmap(&mut self, vpn: VirtPageNum) -> (r: Option<(PhysPageNum, M::Flags)>)
        requires
            old(self).wf(),
        ensures
            final(self).wf(),
            final(self).spec_root_ppn() == old(self).spec_root_ppn(),
            final(self).owned_frames() == old(self).owned_frames(),
            r == old(self).mapping(vpn),
            old(self).remapped(final(self), vpn, None),
    {
        proof {
            M::lemma_mode_laws();
        }
        let top: u8 = M::root_level().0 - 1;
        match unmap_in::<M>(&mut self.root, top, vpn) {
            Some(e) => match M::convert_entry(&e) {
                Some(entry) => Some((M::entry_ppn(&entry), M::entry_flags(&entry))),
                None => None,
            },
            None => None,
        }
    }

    /// Tears the address space down: gives the frame of every table, the root
    /// table included, back to the allocator, each of them once.
    pub fn teardown<A: FrameAllocator>(self, frame_alloc: &mut A)
        requires
            old(frame_alloc).alloc_wf(),
            frames_held(self.owned_frames(), old(frame_alloc).free_frames()),
        ensures
            final(frame_alloc).alloc_wf(),
            frames_released(self.owned_frames(), old(frame_alloc).free_frames(), final(frame_alloc).free_frames()),
    {
        let ghost owned = self.owned_frames();
        let ghost free0 = frame_alloc.free_frames();
        let mut space = self;
        proof {
            assert(owned[0] == space.root_frame.spec_ppn());
        }
        while space.frames.len() > 0
            invariant
                frame_alloc.alloc_wf(),
                frames_held(owned, free0),
                owned.len() >= 1,
                space.frames@.len() + 1 <= owned.len(),
                owned.subrange(0, space.frames@.len() as int + 1) == seq![space.root_frame.spec_ppn()] + frame_ppns(
                    space.frames@,
                ),
                forall|p: PhysPageNum|
                    frame_alloc.free_frames().contains(p) <==> (free0.contains(p) || exists|k: int|
                        space.frames@.len() + 1 <= k < owned.len() && #[trigger] owned[k] == p),
            decreases space.frames.len(),
        {
            let ghost n = space.frames@.len() as int;
            let ghost prefix = owned.subrange(0, n + 1);
            match space.frames.pop() {
                Some(f) => {
                    proof {
                        assert(prefix[n] == f.spec_ppn());
                        assert(owned[n] == f.spec_ppn());
                        assert(owned.subrange(0, n) =~= seq![space.root_frame.spec_ppn()] + frame_ppns(
                            space.frames@,
                        )) by {
                            assert forall|j: int| 0 <= j < n implies owned.subrange(0, n)[j] == (seq![
                                space.root_frame.spec_ppn(),
                            ] + frame_ppns(space.frames@))[j] by {
                                assert(prefix[j] == owned[j]);
                            }
                        }
                    }
                    f.release(frame_alloc);
                    proof {
                        assert forall|p: PhysPageNum|
                            frame_alloc.free_frames().contains(p) <==> (free0.contains(p) || exists|k: int|
                                n <= k < owned.len() && #[trigger] owned[k] == p) by {
                            if p == owned[n] {
                            }
                        }
                    }
                },
                None => {},
            }
        }
        proof {
            assert(owned.subrange(0, 1)[0] == owned[0]);
        }
        space.root_frame.release(frame_alloc);
        proof {
            assert forall|p: PhysPageNum|
                frame_alloc.free_frames().contains(p) <==> (free0.contains(p) || owned.contains(p)) by {
                if owned.contains(p) {
                    let k = choose|k: int| 0 <= k < owned.len() && owned[k] == p;
                    if k >= 1 {
                        assert(owned[k] == p);
                    }
                }
            }
        }
    }

    /// The page that holds the root table: what the translation-root register
    /// has to point to for this address space to be in force.
    pub fn root_ppn(&self) -> (r: PhysPageNum)
        ensures
            r == self.spec_root_ppn(),
    {
        self.root_frame.phys_page_num()
    }

    /// The paging mode of the address space.
    pub fn page_mode(&self) -> (r: M)
        ensures
            r == self.spec_page_mode(),
    {
        self.page_mode
    }

    /// The frames that the address space owns, the frame of the root table
    /// first.
    pub fn frames(&self) -> (r: Vec<PhysPageNum>)
        ensures
            r@ == self.owned_frames(),
    {
        let mut list: Vec<PhysPageNum> = Vec::new();
        list.push(self.root_frame.phys_page_num());
        let mut i: usize = 0;
        while i < self.frames.len()
            invariant
                i <= self.frames.len(),
                list@ == seq![self.root_frame.spec_ppn()] + frame_ppns(self.frames@.subrange(0, i as int)),
            decreases self.frames.len() - i,
        {
            list.push(self.frames[i].phys_page_num());
            assert(list@ =~= seq![self.root_frame.spec_ppn()] + frame_ppns(self.frames@.subrange(0, i + 1)));
            i += 1;
        }
        assert(self.frames@.subrange(0, self.frames@.len() as int) =~= self.frames@);
        list
    }

    /// The entries of the table that the frame `ppn` holds, as they have to
    /// lie in that frame for the hardware to walk the tables. Nothing for a
    /// frame that the address space does not own.
    pub fn table_of(&self, ppn: PhysPageNum) -> (r: Option<Vec<PageTableEntry>>)
        requires
            self.wf(),
        ensures
            r is Some <==> self.owned_frames().contains(ppn),
            r matches Some(t) ==> t@ == self.table_image(ppn) && t@.len() == ENTRIES_PER_TABLE,
    {
        proof {
            M::lemma_mode_laws();
            self.lemma_table_image_len(ppn);
        }
        find_table::<M>(&self.root, M::root_level().0 - 1, ppn)
    }

    /// Walks the tables from the root to the leaf for `vpn` and reads the
    /// mapping there.
    pub fn translate(&self, vpn: VirtPageNum) -> (r: Option<(PhysPageNum, M::Flags)>)
        requires
            self.wf(),
        ensures
            r == self.mapping(vpn),
    {
        proof {
            M::lemma_mode_laws();
        }
        let mut node = &self.root;
        let mut level: u8 = M::root_level().0 - 1;
        loop
            invariant
                level < M::spec_level_count() <= 255,
                node.wf::<M>(level as nat),
                node.lookup::<M>(level as nat, vpn) == self.root.lookup::<M>(
                    (M::spec_level_count() - 1) as nat,
                    vpn,
                ),
                forall|vpn: VirtPageNum, level: PageLevel|
                    level.0 < M::spec_level_count() ==> 0 <= #[trigger] M::spec_vpn_index(vpn, level)
                        < ENTRIES_PER_TABLE,
            decreases level,
        {
            let i = M::vpn_index(vpn, PageLevel(level));
            if level == 0 {
                return match M::convert_entry(&node.table.entries[i]) {
                    Some(e) => Some((M::entry_ppn(&e), M::entry_flags(&e))),
                    None => None,
                };
            }
            match &node.children[i] {
                Some(c) => {
                    node = c;
                    level = level - 1;
                },
                None => {
                    return None;
                },
            }
        }
    }
}

/// Every page is in its own slot.
pub proof fn lemma_slot_eq_reflexive<M: PageMode>(a: VirtPageNum, level: nat)
    ensures
        slot_eq::<M>(a, a, level),
    decreases level,
{
    if level > 0 {
        lemma_slot_eq_reflexive::<M>(a, (level - 1) as nat);
    }
}

/// Being in the same slot is symmetric and transitive.
pub proof fn lemma_slot_eq_equivalence<M: PageMode>(a: VirtPageNum, b: VirtPageNum, c: VirtPageNum, level: nat)
    ensures
        slot_eq::<M>(a, b, level) ==> slot_eq::<M>(b, a, level),
        slot_eq::<M>(a, b, level) && slot_eq::<M>(b, c, level) ==> slot_eq::<M>(a, c, level),
    decreases level,
{
    if level > 0 {
        lemma_slot_eq_equivalence::<M>(a, b, c, (level - 1) as nat);
    }
}

impl<M: PageMode> PagedAddrSpace<M> {
    /// Every table has all its entries.
    pub proof fn lemma_table_image_len(&self, p: PhysPageNum)
        requires
            self.wf(),
        ensures
            self.table_image(p).len() == ENTRIES_PER_TABLE,
    {
        self.root.lemma_table_at_len::<M>((M::spec_level_count() - 1) as nat, p);
    }

    /// The hardware sees what the address space maps. Let memory hold, in
    /// every frame that the address space owns, the entries of the table that
    /// this frame holds. Then the walk of the hardware from the root table
    /// finds for every page exactly what the page is mapped to.
    pub proof fn lemma_hardware_walk(&self, memory: spec_fn(PhysPageNum) -> Seq<PageTableEntry>, vpn: VirtPageNum)
        requires
            self.wf(),
            forall|k: int| 0 <= k < self.owned_frames().len() ==> (#[trigger] self.owned_frames()[k]).is_valid(),
            forall|p: PhysPageNum| self.owned_frames().contains(p) ==> #[trigger] memory(p) == self.table_image(p),
        ensures
            entry_target::<M>(
                hardware_walk::<M>(memory, self.spec_root_ppn(), (M::spec_level_count() - 1) as nat, vpn),
            ) == self.mapping(vpn),
    {
        let top = (M::spec_level_count() - 1) as nat;
        assert forall|p: PhysPageNum| #[trigger] self.root.holds(top, p) implies p.is_valid() && memory(p)
            == self.root.table_at(top, p) by {
            assert(self.owned_frames().contains(p));
            let k = choose|k: int| 0 <= k < self.owned_frames().len() && self.owned_frames()[k] == p;
            assert(memory(p) == self.table_image(p));
        }
        self.root.lemma_walk::<M>(top, memory, vpn);
    }

    /// Pages of one slot are mapped alike.
    pub proof fn lemma_same_slot_same_mapping(&self, a: VirtPageNum, b: VirtPageNum)
        requires
            same_slot::<M>(a, b),
        ensures
            self.mapping(a) == self.mapping(b),
    {
        self.root.lemma_lookup_same_slot::<M>((M::spec_level_count() - 1) as nat, a, b);
    }

    /// Reading back a mapping gives what was mapped. After `vpn` was mapped
    /// to `ppn` with `flags`, the page `vpn` is mapped to what a leaf entry
    /// written with `ppn` and `flags` holds, and every page outside the slot
    /// of `vpn` is mapped as before.
    pub proof fn lemma_map_reads_back(
        &self,
        after: &PagedAddrSpace<M>,
        vpn: VirtPageNum,
        ppn: PhysPageNum,
        flags: M::Flags,
        other: VirtPageNum,
    )
        requires
            self.remapped(after, vpn, leaf_of::<M>(ppn, flags)),
        ensures
            after.mapping(vpn) == leaf_of::<M>(ppn, flags),
            !same_slot::<M>(other, vpn) ==> after.mapping(other) == self.mapping(other),
    {
        lemma_slot_eq_reflexive::<M>(vpn, (M::spec_level_count() - 1) as nat);
    }

    /// A page that was mapped is a page that cannot be mapped again. After
    /// `vpn` was mapped to a valid leaf, `vpn` and every page in its slot are
    /// mapped: this is the condition on which `map_page` reports a conflict
    /// and changes nothing.
    pub proof fn lemma_mapped_then_conflict(
        &self,
        after: &PagedAddrSpace<M>,
        vpn: VirtPageNum,
        target: (PhysPageNum, M::Flags),
        again: VirtPageNum,
    )
        requires
            self.remapped(after, vpn, Some(target)),
            same_slot::<M>(again, vpn),
        ensures
            after.mapping(vpn) is Some,
            after.mapping(again) is Some,
    {
        lemma_slot_eq_reflexive::<M>(vpn, (M::spec_level_count() - 1) as nat);
    }

    /// Unmapping a page that is not mapped changes nothing, and after a page
    /// was unmapped it is not mapped.
    pub proof fn lemma_unmap(&self, after: &PagedAddrSpace<M>, vpn: VirtPageNum)
        requires
            self.remapped(after, vpn, None),
        ensures
            after.mapping(vpn) is None,
            self.mapping(vpn) is None ==> self.same_mapping(after),
    {
        lemma_slot_eq_reflexive::<M>(vpn, (M::spec_level_count() - 1) as nat);
        if self.mapping(vpn) is None {
            assert forall|v: VirtPageNum| #[trigger] after.mapping(v) == self.mapping(v) by {
                if same_slot::<M>(v, vpn) {
                    self.lemma_same_slot_same_mapping(v, vpn);
                }
            }
        }
    }
}

/// A torn-down address space leaves the allocator as it found it. Let an
/// address space be made on a free set `free_start`, let it take frames for
/// its tables until it owns `owned` and the free set is `free_mid`, and let
/// it then be torn down. The free set is then `free_start` again: every frame
/// that was taken has gone back, and none has gone back that was not taken.
pub proof fn lemma_cycle_returns_every_frame(
    free_start: Set<PhysPageNum>,
    owned: Seq<PhysPageNum>,
    free_mid: Set<PhysPageNum>,
    free_end: Set<PhysPageNum>,
)
    requires
        frames_taken(Seq::empty(), free_start, owned, free_mid),
        frames_released(owned, free_mid, free_end),
    ensures
        free_end == free_start,
{
    assert forall|p: PhysPageNum| free_end.contains(p) <==> free_start.contains(p) by {
        if owned.contains(p) {
            let k = choose|k: int| 0 <= k < owned.len() && owned[k] == p;
            assert(free_start.contains(owned[k]));
        }
    }
    assert(free_end =~= free_start);
}

} // verus!
