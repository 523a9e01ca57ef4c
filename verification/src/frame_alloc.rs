//! The physical frame allocator.
//!
//! The allocator owns the page range `[current, end)` that was never handed
//! out, and a stack of recycled pages. It prefers the page that was freed most
//! recently and advances `current` only when nothing is left to recycle.

use vstd::prelude::*;
use vstd::set_lib::{lemma_int_range, lemma_set_subset_finite, set_int_range};
use crate::addr::{PhysPageNum, ppn_in_range, ppn_successor, lemma_ppn_successor, PPN_VALID_MASK};

verus! {

/// No frame is left to hand out.
#[derive(Copy, Clone, PartialEq, Eq, Debug, Structural)]
pub struct FrameAllocError;

/// What a [`StackFrameAllocator`] holds, as mathematical values.
pub struct FrameAllocState {
    /// The next page that was never handed out.
    pub current: u64,
    /// The page after the last page of the managed range.
    pub end: u64,
    /// The freed pages, the one freed last at the back.
    pub recycled: Seq<u64>,
}

impl FrameAllocState {
    /// The state of an allocator that was just made for `[start, end)`.
    pub open spec fn fresh(start: u64, end: u64) -> FrameAllocState {
        FrameAllocState { current: start, end, recycled: Seq::empty() }
    }

    /// One allocation: the state that follows and the page handed out, if
    /// there is one.
    pub open spec fn allocate(self) -> (FrameAllocState, Option<u64>) {
        if self.recycled.len() > 0 {
            (FrameAllocState { recycled: self.recycled.drop_last(), ..self }, Some(self.recycled.last()))
        } else if self.current == self.end {
            (self, None)
        } else {
            (FrameAllocState { current: ppn_successor(self.current), ..self }, Some(self.current))
        }
    }

    /// Whether the allocator can hand `p` out: it is recycled or was never
    /// handed out.
    pub open spec fn is_free(self, p: u64) -> bool {
        self.recycled.contains(p) || ppn_in_range(p, self.current, self.end)
    }

    /// Whether `p` may be given back: exactly the pages that are not free.
    pub open spec fn can_deallocate(self, p: u64) -> bool {
        !ppn_in_range(p, self.current, self.end) && !self.recycled.contains(p)
    }

    /// The state after `p` was given back.
    pub open spec fn deallocate(self, p: u64) -> FrameAllocState {
        FrameAllocState { recycled: self.recycled.push(p), ..self }
    }

    /// The recycled pages are pairwise distinct and none of them lies in the
    /// range that was never handed out.
    pub open spec fn recycled_ok(self) -> bool {
        &&& self.recycled.no_duplicates()
        &&& forall|i: int| 0 <= i < self.recycled.len() ==> !ppn_in_range(#[trigger] self.recycled[i], self.current, self.end)
    }

    /// A well-formed state: both bounds are valid page numbers, and
    /// [`Self::recycled_ok`] holds.
    pub open spec fn wf(self) -> bool {
        &&& self.current <= PPN_VALID_MASK
        &&& self.end <= PPN_VALID_MASK
        &&& self.recycled_ok()
    }

    /// The state after `n` allocations in a row.
    pub open spec fn allocate_n(self, n: nat) -> FrameAllocState
        decreases n,
    {
        if n == 0 {
            self
        } else {
            self.allocate().0.allocate_n((n - 1) as nat)
        }
    }
}

/// A stack-like allocator of physical frames.
#[derive(Debug)]
pub struct StackFrameAllocator {
    current: PhysPageNum,
    end: PhysPageNum,
    recycled: Vec<PhysPageNum>,
}

impl View for StackFrameAllocator {
    type V = FrameAllocState;

    closed spec fn view(&self) -> FrameAllocState {
        FrameAllocState {
            current: self.current.0,
            end: self.end.0,
            recycled: self.recycled@.map_values(|p: PhysPageNum| p.0),
        }
    }
}

impl StackFrameAllocator {
    /// An allocator for the pages from `start` up to, but not including,
    /// `end`.
    pub fn new(start: PhysPageNum, end: PhysPageNum) -> (r: StackFrameAllocator)
        ensures
            r@ == FrameAllocState::fresh(start.0, end.0),
            (start.is_valid() && end.is_valid()) ==> r@.wf(),
    {
        let r = StackFrameAllocator { current: start, end, recycled: Vec::new() };
        assert(r@.recycled =~= Seq::empty());
        r
    }

    /// Hands out a frame: the one freed last if there is one, else the next
    /// one that was never handed out. Fails when neither exists.
    pub fn allocate_frame(&mut self) -> (r: Result<PhysPageNum, FrameAllocError>)
        ensures
            final(self)@ == old(self)@.allocate().0,
            r == match old(self)@.allocate().1 {
                Some(p) => Ok::<PhysPageNum, FrameAllocError>(PhysPageNum(p)),
                None => Err::<PhysPageNum, FrameAllocError>(FrameAllocError),
            },
    {
        let ghost before = self.recycled@;
        if let Some(ppn) = self.recycled.pop() {
            assert(self@.recycled =~= old(self)@.recycled.drop_last());
            assert(old(self)@.recycled.last() == before.last().0);
            Ok(ppn)
        } else {
            assert(self@.recycled =~= old(self)@.recycled);
            if self.current.0 == self.end.0 {
                Err(FrameAllocError)
            } else {
                let ans = self.current;
                self.current = self.current.next_page();
                Ok(ans)
            }
        }
    }

    /// Whether `ppn` may be given back now: it is neither recycled nor in the
    /// range that was never handed out.
    pub fn can_deallocate_frame(&self, ppn: PhysPageNum) -> (r: bool)
        ensures
            r == self@.can_deallocate(ppn.0),
    {
        if ppn.is_within_range(self.current, self.end) {
            return false;
        }
        let mut i: usize = 0;
        while i < self.recycled.len()
            invariant
                i <= self.recycled.len(),
                forall|j: int| 0 <= j < i ==> self.recycled@[j].0 != ppn.0,
            decreases self.recycled.len() - i,
        {
            if self.recycled[i].0 == ppn.0 {
                assert(self@.recycled[i as int] == ppn.0);
                return false;
            }
            i += 1;
        }
        true
    }

    /// Takes a frame back. The frame must not be free already: giving a frame
    /// back twice is a fault of the caller.
    pub fn deallocate_frame(&mut self, ppn: PhysPageNum)
        requires
            old(self)@.can_deallocate(ppn.0),
        ensures
            final(self)@ == old(self)@.deallocate(ppn.0),
    {
        self.recycled.push(ppn);
        assert(self@.recycled =~= old(self)@.recycled.push(ppn.0));
    }
}

/// Anything that hands out and takes back physical frames.
///
/// `free_frames` is the set of pages that the allocator may still hand out.
/// A page that the allocator handed out stays out of that set until it is
/// given back.
pub trait FrameAllocator {
    /// The allocator's own invariant.
    spec fn alloc_wf(&self) -> bool;

    /// The pages that may still be handed out.
    spec fn free_frames(&self) -> Set<PhysPageNum>;

    /// Hands out a free page, or fails when no page is free.
    fn allocate_frame(&mut self) -> (r: Result<PhysPageNum, FrameAllocError>)
        requires
            old(self).alloc_wf(),
        ensures
            final(self).alloc_wf(),
            match r {
                Ok(p) => {
                    &&& p.is_valid()
                    &&& old(self).free_frames().contains(p)
                    &&& final(self).free_frames() == old(self).free_frames().remove(p)
                },
                Err(_) => {
                    &&& old(self).free_frames() == Set::<PhysPageNum>::empty()
                    &&& final(self).free_frames() == old(self).free_frames()
                },
            },
    ;

    /// Only finitely many pages are free.
    proof fn lemma_free_finite(&self)
        requires
            self.alloc_wf(),
        ensures
            self.free_frames().finite(),
    ;

    /// Takes back a page that is not free.
    fn deallocate_frame(&mut self, ppn: PhysPageNum)
        requires
            old(self).alloc_wf(),
            ppn.is_valid(),
            !old(self).free_frames().contains(ppn),
        ensures
            final(self).alloc_wf(),
            final(self).free_frames() == old(self).free_frames().insert(ppn),
    ;
}

impl FrameAllocator for StackFrameAllocator {
    open spec fn alloc_wf(&self) -> bool {
        &&& self@.wf()
        &&& forall|i: int| 0 <= i < self@.recycled.len() ==> #[trigger] self@.recycled[i] <= PPN_VALID_MASK
    }

    open spec fn free_frames(&self) -> Set<PhysPageNum> {
        Set::new(|p: PhysPageNum| p.is_valid() && self@.is_free(p.0))
    }

    proof fn lemma_free_finite(&self) {
        let numbers = set_int_range(0, PPN_VALID_MASK as int + 1);
        let page = |i: int| PhysPageNum(i as u64);
        lemma_int_range(0, PPN_VALID_MASK as int + 1);
        numbers.lemma_map_finite(page);
        let pages = numbers.map(page);
        assert forall|p: PhysPageNum| self.free_frames().contains(p) implies pages.contains(p) by {
            assert(numbers.contains(p.0 as int));
            assert(page(p.0 as int) == p);
        }
        lemma_set_subset_finite(pages, self.free_frames());
    }

    fn allocate_frame(&mut self) -> (r: Result<PhysPageNum, FrameAllocError>) {
        proof {
            lemma_ppn_successor(self@.current);
        }
        let r = StackFrameAllocator::allocate_frame(self);
        proof {
            let s0 = old(self)@;
            match r {
                Ok(p) => {
                    assert(s0.is_free(p.0));
                    assert forall|q: PhysPageNum|
                        final(self).free_frames().contains(q) == old(self).free_frames().remove(p).contains(q) by {
                        if s0.recycled.len() > 0 {
                            lemma_drop_last_contains(s0.recycled, q.0);
                        }
                    }
                    assert(final(self).free_frames() =~= old(self).free_frames().remove(p));
                },
                Err(_) => {
                    assert forall|q: PhysPageNum| !old(self).free_frames().contains(q) by {
                        if s0.recycled.contains(q.0) {
                            let i = choose|i: int| 0 <= i < s0.recycled.len() && s0.recycled[i] == q.0;
                        }
                    }
                    assert(old(self).free_frames() =~= Set::<PhysPageNum>::empty());
                },
            }
        }
        r
    }

    fn deallocate_frame(&mut self, ppn: PhysPageNum) {
        StackFrameAllocator::deallocate_frame(self, ppn);
        proof {
            let s0 = old(self)@;
            assert forall|q: PhysPageNum|
                final(self).free_frames().contains(q) == old(self).free_frames().insert(ppn).contains(q) by {
                lemma_push_contains(s0.recycled, ppn.0, q.0);
            }
            assert(final(self).free_frames() =~= old(self).free_frames().insert(ppn));
            lemma_push_no_duplicates(s0.recycled, ppn.0);
        }
    }
}

/// Membership in a sequence without duplicates, after its last element left.
proof fn lemma_drop_last_contains(s: Seq<u64>, x: u64)
    requires
        s.len() > 0,
        s.no_duplicates(),
    ensures
        s.drop_last().contains(x) <==> (s.contains(x) && x != s.last()),
        s.drop_last().no_duplicates(),
{
    let d = s.drop_last();
    if d.contains(x) {
        let i = choose|i: int| 0 <= i < d.len() && d[i] == x;
        assert(s[i] == x);
    }
    if s.contains(x) && x != s.last() {
        let i = choose|i: int| 0 <= i < s.len() && s[i] == x;
        assert(d[i] == x);
    }
}

/// Membership in a sequence after one more element was pushed.
proof fn lemma_push_contains(s: Seq<u64>, y: u64, x: u64)
    ensures
        s.push(y).contains(x) <==> (s.contains(x) || x == y),
{
    let t = s.push(y);
    if t.contains(x) {
        let i = choose|i: int| 0 <= i < t.len() && t[i] == x;
        if i < s.len() {
            assert(s[i] == x);
        }
    }
    if s.contains(x) {
        let i = choose|i: int| 0 <= i < s.len() && s[i] == x;
        assert(t[i] == x);
    }
    if x == y {
        assert(t[s.len() as int] == x);
    }
}

/// Pushing an element that a duplicate-free sequence lacks keeps it
/// duplicate-free.
proof fn lemma_push_no_duplicates(s: Seq<u64>, y: u64)
    requires
        s.no_duplicates(),
        !s.contains(y),
    ensures
        s.push(y).no_duplicates(),
{
    let t = s.push(y);
    assert forall|i: int, j: int| 0 <= i < t.len() && 0 <= j < t.len() && i != j implies t[i] != t[j] by {
        if i < s.len() && j < s.len() {
        } else if i < s.len() {
            assert(s[i] != y);
        } else if j < s.len() {
            assert(s[j] != y);
        }
    }
}

/// One request to a frame allocator, as a trace of requests records it.
pub enum FrameOp {
    /// Ask for a frame.
    Allocate,
    /// Give the frame with this page number back.
    Deallocate(u64),
}

/// The allocator's state after one request.
pub open spec fn frame_op_state(s: FrameAllocState, op: FrameOp) -> FrameAllocState {
    match op {
        FrameOp::Allocate => s.allocate().0,
        FrameOp::Deallocate(p) => s.deallocate(p),
    }
}

/// The set of pages in use after one request, where `live` was in use before.
pub open spec fn frame_op_live(s: FrameAllocState, live: Set<u64>, op: FrameOp) -> Set<u64> {
    match op {
        FrameOp::Allocate => match s.allocate().1 {
            Some(p) => live.insert(p),
            None => live,
        },
        FrameOp::Deallocate(p) => live.remove(p),
    }
}

/// Every deallocation of the trace gives back a page that is in use at that
/// moment: nothing is freed twice, and nothing is freed that was not handed
/// out.
pub open spec fn frees_only_live(s: FrameAllocState, live: Set<u64>, ops: Seq<FrameOp>) -> bool
    decreases ops.len(),
{
    if ops.len() == 0 {
        true
    } else {
        &&& match ops[0] {
            FrameOp::Allocate => true,
            FrameOp::Deallocate(p) => live.contains(p),
        }
        &&& frees_only_live(frame_op_state(s, ops[0]), frame_op_live(s, live, ops[0]), ops.drop_first())
    }
}

/// Every allocation of the trace that succeeds hands out a page that is not in
/// use at that moment, and every deallocation is one that the allocator
/// accepts.
pub open spec fn trace_sound(s: FrameAllocState, live: Set<u64>, ops: Seq<FrameOp>) -> bool
    decreases ops.len(),
{
    if ops.len() == 0 {
        true
    } else {
        &&& match ops[0] {
            FrameOp::Allocate => match s.allocate().1 {
                Some(p) => !live.contains(p),
                None => true,
            },
            FrameOp::Deallocate(p) => s.can_deallocate(p),
        }
        &&& trace_sound(frame_op_state(s, ops[0]), frame_op_live(s, live, ops[0]), ops.drop_first())
    }
}

/// No page in use is free.
pub open spec fn live_apart_from_free(s: FrameAllocState, live: Set<u64>) -> bool {
    forall|p: u64| live.contains(p) ==> !s.is_free(p)
}

/// A fresh allocator over valid bounds is well formed, and everything in its
/// range is free.
pub proof fn lemma_fresh_wf(start: u64, end: u64)
    requires
        start <= PPN_VALID_MASK,
        end <= PPN_VALID_MASK,
    ensures
        FrameAllocState::fresh(start, end).wf(),
        forall|p: u64| FrameAllocState::fresh(start, end).is_free(p) <==> ppn_in_range(p, start, end),
{
}

/// One allocation keeps a well-formed state well formed. The page handed out
/// was free and is free no longer, and no other page becomes free.
pub proof fn lemma_allocate_step(s: FrameAllocState)
    requires
        s.wf(),
    ensures
        s.allocate().0.wf(),
        forall|q: u64| s.allocate().0.is_free(q) ==> s.is_free(q),
        s.allocate().1 matches Some(p) ==> s.is_free(p) && !s.allocate().0.is_free(p),
        s.allocate().1 is None ==> s.allocate().0 == s && forall|q: u64| !s.is_free(q),
{
    lemma_ppn_successor(s.current);
    let t = s.allocate().0;
    if s.recycled.len() > 0 {
        let p = s.recycled.last();
        assert(s.recycled[s.recycled.len() - 1] == p);
        assert forall|q: u64| t.is_free(q) implies s.is_free(q) by {
            lemma_drop_last_contains(s.recycled, q);
        }
        lemma_drop_last_contains(s.recycled, p);
    } else {
        assert forall|q: u64| !s.recycled.contains(q) by {
            if s.recycled.contains(q) {
                let i = choose|i: int| 0 <= i < s.recycled.len() && s.recycled[i] == q;
            }
        }
    }
}

/// Giving back a page that is not free keeps a well-formed state well formed
/// and makes that page, and no other, free.
pub proof fn lemma_deallocate_step(s: FrameAllocState, p: u64)
    requires
        s.wf(),
        s.can_deallocate(p),
    ensures
        s.deallocate(p).wf(),
        forall|q: u64| s.deallocate(p).is_free(q) <==> (s.is_free(q) || q == p),
{
    lemma_push_no_duplicates(s.recycled, p);
    assert forall|q: u64| s.deallocate(p).is_free(q) <==> (s.is_free(q) || q == p) by {
        lemma_push_contains(s.recycled, p, q);
    }
}

/// The frame freed last is the frame handed out next, and the allocator is
/// then back in the state from before the frame was freed.
pub proof fn lemma_reuse_last_freed(s: FrameAllocState, p: u64)
    ensures
        s.deallocate(p).allocate().1 == Some(p),
        s.deallocate(p).allocate().0 == s,
{
    assert(s.recycled.push(p).drop_last() =~= s.recycled);
}

/// A fresh allocator over the `n` pages from `start` hands them out in
/// ascending order: after `k` allocations the next one gives `start + k`, and
/// after `n` allocations the next one fails.
pub proof fn lemma_fresh_allocates_in_order(start: u64, n: nat, k: nat)
    requires
        start + n <= PPN_VALID_MASK,
        k <= n,
    ensures
        FrameAllocState::fresh(start, (start + n) as u64).allocate_n(k) == FrameAllocState::fresh(
            (start + k) as u64,
            (start + n) as u64,
        ),
        k < n ==> FrameAllocState::fresh(start, (start + n) as u64).allocate_n(k).allocate().1 == Some(
            (start + k) as u64,
        ),
        k == n ==> FrameAllocState::fresh(start, (start + n) as u64).allocate_n(k).allocate().1 is None,
    decreases k,
{
    let s = FrameAllocState::fresh(start, (start + n) as u64);
    if k > 0 {
        lemma_ppn_successor(start);
        assert(s.allocate().0 == FrameAllocState::fresh((start + 1) as u64, (start + n) as u64));
        lemma_fresh_allocates_in_order((start + 1) as u64, (n - 1) as nat, (k - 1) as nat);
    }
}

/// Frames in use are unique. Take a well-formed allocator and a set of pages
/// in use, none of them free. Along any trace of requests that gives back only
/// pages that are in use at that moment, every allocation that succeeds hands
/// out a page that is not in use, and every deallocation is accepted.
pub proof fn lemma_live_frames_unique(s: FrameAllocState, live: Set<u64>, ops: Seq<FrameOp>)
    requires
        s.wf(),
        live_apart_from_free(s, live),
        frees_only_live(s, live, ops),
    ensures
        trace_sound(s, live, ops),
    decreases ops.len(),
{
    if ops.len() > 0 {
        let t = frame_op_state(s, ops[0]);
        let l = frame_op_live(s, live, ops[0]);
        match ops[0] {
            FrameOp::Allocate => {
                lemma_allocate_step(s);
            },
            FrameOp::Deallocate(p) => {
                lemma_deallocate_step(s, p);
            },
        }
        assert(live_apart_from_free(t, l));
        lemma_live_frames_unique(t, l, ops.drop_first());
    }
}

} // verus!
