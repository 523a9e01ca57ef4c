//! Address-space identifiers and their allocator.
//!
//! Identifiers run from 0 to a maximum that the hardware reports, both
//! included. Identifier 0 always exists. The allocator hands out the
//! identifier freed last if there is one, else the next one never handed out,
//! and remembers in `exhausted` that the maximum itself has been handed out.

use vstd::prelude::*;

verus! {

/// An address-space identifier.
#[derive(Copy, Clone, PartialEq, Eq, Debug, Structural)]
pub struct AddressSpaceId(pub u16);

/// The number of the identifier that every hart implements.
pub const DEFAULT_ASID: u16 = 0;

/// The value to write to the translation-root register to find the largest
/// identifier: every bit of the identifier field set.
pub const ASID_PROBE: u64 = 0x0fff_f000_0000_0000;

/// No identifier is left to hand out.
#[derive(Copy, Clone, PartialEq, Eq, Debug, Structural)]
pub struct AsidAllocError;

impl AddressSpaceId {
    /// The identifier after this one, if this one is below `max_asid`.
    pub fn next_asid(&self, max_asid: AddressSpaceId) -> (r: Option<AddressSpaceId>)
        ensures
            r == if self.0 >= max_asid.0 {
                None::<AddressSpaceId>
            } else {
                Some(AddressSpaceId((self.0 + 1) as u16))
            },
    {
        if self.0 >= max_asid.0 {
            None
        } else {
            Some(AddressSpaceId(self.0.wrapping_add(1)))
        }
    }
}

/// The identifier field of a translation-root register value: bits 44 to 59.
pub open spec fn asid_field(satp: u64) -> u16 {
    ((satp as int / 0x1000_0000_0000) % 0x1_0000) as u16
}

/// The largest identifier that the hart implements, read off the value that
/// the translation-root register held after [`ASID_PROBE`] was written to it.
pub fn max_asid(satp_after_probe: u64) -> (r: AddressSpaceId)
    ensures
        r.0 == asid_field(satp_after_probe),
{
    let v = satp_after_probe;
    assert((v >> 44) & 0xffff == (v / 0x1000_0000_0000) % 0x1_0000) by (bit_vector);
    AddressSpaceId(((satp_after_probe >> 44) & 0xffff) as u16)
}

/// What a [`StackAsidAllocator`] holds, as mathematical values.
pub struct AsidAllocState {
    /// The next identifier that was never handed out.
    pub current: u16,
    /// Whether the largest identifier has been handed out.
    pub exhausted: bool,
    /// The largest identifier.
    pub max: u16,
    /// The freed identifiers, the one freed last at the back.
    pub recycled: Seq<u16>,
}

impl AsidAllocState {
    /// The state of an allocator that was just made for `0..=max`.
    pub open spec fn fresh(max: u16) -> AsidAllocState {
        AsidAllocState { current: 0, exhausted: false, max, recycled: Seq::empty() }
    }

    /// One allocation: the state that follows and the identifier handed out,
    /// if there is one.
    pub open spec fn allocate(self) -> (AsidAllocState, Option<u16>) {
        if self.recycled.len() > 0 {
            (AsidAllocState { recycled: self.recycled.drop_last(), ..self }, Some(self.recycled.last()))
        } else if self.exhausted {
            (self, None)
        } else if self.current == self.max {
            (AsidAllocState { exhausted: true, ..self }, Some(self.max))
        } else if self.current < self.max {
            (AsidAllocState { current: (self.current + 1) as u16, ..self }, Some(self.current))
        } else {
            (self, None)
        }
    }

    /// Whether `a` may be given back: it is below the maximum and not
    /// recycled already.
    pub open spec fn can_deallocate(self, a: u16) -> bool {
        a < self.max && !self.recycled.contains(a)
    }

    /// The state after `a` was given back.
    pub open spec fn deallocate(self, a: u16) -> AsidAllocState {
        AsidAllocState { recycled: self.recycled.push(a), ..self }
    }

    /// Whether the allocator can hand `a` out.
    pub open spec fn is_free(self, a: u16) -> bool {
        ||| self.recycled.contains(a)
        ||| (!self.exhausted && self.current <= a <= self.max)
    }

    /// A well-formed state: nothing is recycled twice, nothing recycled was
    /// never handed out, and the largest identifier is never recycled.
    pub open spec fn wf(self) -> bool {
        &&& self.current <= self.max
        &&& self.exhausted ==> self.current == self.max
        &&& self.recycled.no_duplicates()
        &&& forall|i: int| 0 <= i < self.recycled.len() ==> #[trigger] self.recycled[i] < self.current
    }

    /// The state after `n` allocations in a row.
    pub open spec fn allocate_n(self, n: nat) -> AsidAllocState
        decreases n,
    {
        if n == 0 {
            self
        } else {
            self.allocate().0.allocate_n((n - 1) as nat)
        }
    }
}

/// A stack-like allocator of address-space identifiers.
#[derive(Debug)]
pub struct StackAsidAllocator {
    current: AddressSpaceId,
    exhausted: bool,
    max: AddressSpaceId,
    recycled: Vec<AddressSpaceId>,
}

impl View for StackAsidAllocator {
    type V = AsidAllocState;

    closed spec fn view(&self) -> AsidAllocState {
        AsidAllocState {
            current: self.current.0,
            exhausted: self.exhausted,
            max: self.max.0,
            recycled: self.recycled@.map_values(|a: AddressSpaceId| a.0),
        }
    }
}

impl StackAsidAllocator {
    /// An allocator for the identifiers from 0 to `max_asid`, both included.
    pub fn new(max_asid: AddressSpaceId) -> (r: StackAsidAllocator)
        ensures
            r@ == AsidAllocState::fresh(max_asid.0),
            r@.wf(),
    {
        let r = StackAsidAllocator {
            current: AddressSpaceId(DEFAULT_ASID),
            exhausted: false,
            max: max_asid,
            recycled: Vec::new(),
        };
        assert(r@.recycled =~= Seq::empty());
        r
    }

    /// Hands out an identifier: the one freed last if there is one, else the
    /// next one never handed out. Fails once the largest identifier has been
    /// handed out and nothing is recycled.
    pub fn allocate_asid(&mut self) -> (r: Result<AddressSpaceId, AsidAllocError>)
        ensures
            final(self)@ == old(self)@.allocate().0,
            r == match old(self)@.allocate().1 {
                Some(a) => Ok::<AddressSpaceId, AsidAllocError>(AddressSpaceId(a)),
                None => Err::<AddressSpaceId, AsidAllocError>(AsidAllocError),
            },
    {
        let ghost before = self.recycled@;
        if let Some(asid) = self.recycled.pop() {
            assert(self@.recycled =~= old(self)@.recycled.drop_last());
            assert(old(self)@.recycled.last() == before.last().0);
            return Ok(asid);
        }
        assert(self@.recycled =~= old(self)@.recycled);
        if self.exhausted {
            return Err(AsidAllocError);
        }
        if self.current.0 == self.max.0 {
            self.exhausted = true;
            return Ok(self.max);
        }
        if let Some(next) = self.current.next_asid(self.max) {
            let ans = self.current;
            self.current = next;
            Ok(ans)
        } else {
            Err(AsidAllocError)
        }
    }

    /// Whether `asid` may be given back now.
    pub fn can_deallocate_asid(&self, asid: AddressSpaceId) -> (r: bool)
        ensures
            r == self@.can_deallocate(asid.0),
    {
        if asid.0 >= self.max.0 {
            return false;
        }
        let mut i: usize = 0;
        while i < self.recycled.len()
            invariant
                i <= self.recycled.len(),
                forall|j: int| 0 <= j < i ==> self.recycled@[j].0 != asid.0,
            decreases self.recycled.len() - i,
        {
            if self.recycled[i].0 == asid.0 {
                assert(self@.recycled[i as int] == asid.0);
                return false;
            }
            i += 1;
        }
        true
    }

    /// Takes an identifier back. It must be below the maximum and must not be
    /// recycled already.
    pub fn deallocate_asid(&mut self, asid: AddressSpaceId)
        requires
            old(self)@.can_deallocate(asid.0),
        ensures
            final(self)@ == old(self)@.deallocate(asid.0),
    {
        self.recycled.push(asid);
        assert(self@.recycled =~= old(self)@.recycled.push(asid.0));
    }
}

/// One allocation keeps a well-formed state well formed; the identifier handed
/// out was free and is free no longer, and no other identifier becomes free.
pub proof fn lemma_asid_allocate_step(s: AsidAllocState)
    requires
        s.wf(),
    ensures
        s.allocate().0.wf(),
        forall|b: u16| s.allocate().0.is_free(b) ==> s.is_free(b),
        s.allocate().1 matches Some(a) ==> a <= s.max && s.is_free(a) && !s.allocate().0.is_free(a),
        s.allocate().1 is None ==> s.allocate().0 == s && forall|b: u16| !s.is_free(b),
{
    let t = s.allocate().0;
    if s.recycled.len() > 0 {
        let a = s.recycled.last();
        assert(s.recycled[s.recycled.len() - 1] == a);
        assert forall|b: u16| t.recycled.contains(b) implies s.recycled.contains(b) && b != a by {
            let i = choose|i: int| 0 <= i < t.recycled.len() && t.recycled[i] == b;
            assert(s.recycled[i] == b);
        }
    } else {
        assert forall|b: u16| !s.recycled.contains(b) by {
            if s.recycled.contains(b) {
                let i = choose|i: int| 0 <= i < s.recycled.len() && s.recycled[i] == b;
            }
        }
        assert forall|b: u16| !t.recycled.contains(b) by {
            if t.recycled.contains(b) {
                let i = choose|i: int| 0 <= i < t.recycled.len() && t.recycled[i] == b;
            }
        }
    }
}

/// Giving back an identifier that was handed out keeps a well-formed state
/// well formed and makes that identifier, and no other, free.
pub proof fn lemma_asid_deallocate_step(s: AsidAllocState, a: u16)
    requires
        s.wf(),
        s.can_deallocate(a),
        !s.is_free(a),
    ensures
        s.deallocate(a).wf(),
        forall|b: u16| s.deallocate(a).is_free(b) <==> (s.is_free(b) || b == a),
{
    let t = s.deallocate(a);
    assert forall|i: int, j: int| 0 <= i < t.recycled.len() && 0 <= j < t.recycled.len() && i != j implies t.recycled[i]
        != t.recycled[j] by {
        if i < s.recycled.len() && j < s.recycled.len() {
        } else if i < s.recycled.len() {
            assert(s.recycled[i] != a);
        } else if j < s.recycled.len() {
            assert(s.recycled[j] != a);
        }
    }
    assert forall|b: u16| t.is_free(b) <==> (s.is_free(b) || b == a) by {
        if t.recycled.contains(b) {
            let i = choose|i: int| 0 <= i < t.recycled.len() && t.recycled[i] == b;
            if i < s.recycled.len() {
                assert(s.recycled[i] == b);
            }
        }
        if s.recycled.contains(b) {
            let i = choose|i: int| 0 <= i < s.recycled.len() && s.recycled[i] == b;
            assert(t.recycled[i] == b);
        }
        if b == a {
            assert(t.recycled[s.recycled.len() as int] == a);
        }
    }
}

/// The identifier freed last is the identifier handed out next, before the
/// allocator advances any further, and the allocator is then back in the state
/// from before the identifier was freed.
pub proof fn lemma_asid_reuse_last_freed(s: AsidAllocState, a: u16)
    ensures
        s.deallocate(a).allocate().1 == Some(a),
        s.deallocate(a).allocate().0 == s,
{
    assert(s.recycled.push(a).drop_last() =~= s.recycled);
}

/// Without a deallocation, a fresh allocator for `0..=max` hands out
/// `0, 1, .., max` in this order:
/// after `k <= max` allocations the next one gives `k`.
pub proof fn lemma_asid_fresh_allocates_in_order(max: u16, k: nat)
    requires
        k <= max,
    ensures
        AsidAllocState::fresh(max).allocate_n(k) == (AsidAllocState {
            current: k as u16,
            ..AsidAllocState::fresh(max)
        }),
        AsidAllocState::fresh(max).allocate_n(k).allocate().1 == Some(k as u16),
    decreases k,
{
    lemma_asid_allocate_n_from((AsidAllocState::fresh(max)), k);
}

/// From a state with nothing recycled and `current + k <= max`, `k`
/// allocations advance `current` by `k`.
proof fn lemma_asid_allocate_n_from(s: AsidAllocState, k: nat)
    requires
        s.recycled.len() == 0,
        !s.exhausted,
        s.current + k <= s.max,
    ensures
        s.allocate_n(k) == (AsidAllocState { current: (s.current + k) as u16, ..s }),
    decreases k,
{
    if k > 0 {
        lemma_asid_allocate_n_from(s.allocate().0, (k - 1) as nat);
    }
}

/// Without a deallocation, exactly `max + 1` allocations of a fresh allocator
/// succeed: after them the allocator is exhausted, and from then on every
/// allocation fails and leaves the state as it is.
pub proof fn lemma_asid_exhausted_after_all(max: u16)
    ensures
        AsidAllocState::fresh(max).allocate_n(max as nat + 1) == (AsidAllocState {
            current: max,
            exhausted: true,
            ..AsidAllocState::fresh(max)
        }),
        AsidAllocState::fresh(max).allocate_n(max as nat + 1).allocate().1 is None,
        AsidAllocState::fresh(max).allocate_n(max as nat + 1).allocate().0 == AsidAllocState::fresh(
            max,
        ).allocate_n(max as nat + 1),
{
    let s = AsidAllocState::fresh(max);
    lemma_asid_allocate_n_from(s, max as nat);
    lemma_asid_allocate_n_split(s, max as nat, 1);
    let t = s.allocate_n(max as nat);
    assert(t.allocate_n(1) == t.allocate().0.allocate_n(0));
}

/// `n + m` allocations are `n` allocations followed by `m` allocations.
pub proof fn lemma_asid_allocate_n_split(s: AsidAllocState, n: nat, m: nat)
    ensures
        s.allocate_n(n + m) == s.allocate_n(n).allocate_n(m),
    decreases n,
{
    if n > 0 {
        lemma_asid_allocate_n_split(s.allocate().0, (n - 1) as nat, m);
        assert(s.allocate_n(n + m) == s.allocate().0.allocate_n((n + m - 1) as nat));
    }
}

/// Where the hardware implements identifier 0 only, nothing can ever be given
/// back: the first allocation gives 0, and every later one fails.
pub proof fn lemma_asid_single(s: AsidAllocState, a: u16)
    requires
        s.wf(),
        s.max == 0,
    ensures
        !s.can_deallocate(a),
        s.recycled.len() == 0,
        !s.exhausted ==> s.allocate().1 == Some(0u16) && s.allocate().0.exhausted,
        s.exhausted ==> s.allocate().1 is None && s.allocate().0 == s,
{
    if s.recycled.len() > 0 {
        assert(s.recycled[0] < s.current);
    }
}

} // verus!
