//! Region bookkeeping for device-memory suballocation.
//!
//! The visualization side carves fixed-size memory blocks into aligned
//! regions.  The arithmetic of that bookkeeping — finding a free slot,
//! aligning an offset, keeping regions inside the block and apart from each
//! other — is plain integer logic and is verified here; binding the regions
//! to actual device memory stays with the renderer.

use vstd::prelude::*;

verus! {

/// Upper bound on a block's size in bytes, so that offset arithmetic stays
/// far from the integer limits.
pub const MAX_BLOCK_BYTES: u64 = 0x4000_0000_0000_0000;

/// One carved-out region: `size` bytes starting at `offset` inside a block.
#[derive(Clone, Copy, Debug, PartialEq, Eq, Structural)]
pub struct MemoryRegion {
    pub offset: u64,
    pub size: u64,
}

/// Address of a region: which block, and which slot inside that block.
#[derive(Clone, Copy, Debug, PartialEq, Eq, Structural)]
pub struct MemoryRegionPointer {
    pub block: usize,
    pub region: usize,
}

/// Two regions occupy disjoint byte ranges.
pub open spec fn disjoint_regions(a: MemoryRegion, b: MemoryRegion) -> bool {
    a.offset + a.size <= b.offset || b.offset + b.size <= a.offset
}

/// A fresh region of `size` bytes at `offset` would stay inside block `b`
/// and apart from every stored region.
pub open spec fn placeable(b: MemoryBlockMap, offset: int, size: int) -> bool {
    &&& offset + size <= b.size
    &&& forall|m: int|
        0 <= m < b.regions.len() ==> (#[trigger] b.regions@[m] matches Some(other) ==> offset
            + size <= other.offset || other.offset + other.size <= offset)
}

/// Smallest multiple of `a` at or above `v`.
pub open spec fn align_up_spec(v: int, a: int) -> int {
    if v % a == 0 {
        v
    } else {
        v + a - v % a
    }
}

/// The region table of one memory block: slots (vacant or occupied) and the
/// block's byte size.
pub struct MemoryBlockMap {
    pub regions: Vec<Option<MemoryRegion>>,
    pub size: u64,
}

impl MemoryBlockMap {
    /// Every stored region lies inside the block.
    pub open spec fn wf(self) -> bool {
        &&& self.size <= MAX_BLOCK_BYTES
        &&& forall|m: int|
            0 <= m < self.regions.len() ==> (#[trigger] self.regions@[m] matches Some(r)
                ==> r.offset + r.size <= self.size)
    }

    pub fn new(size: u64) -> (b: MemoryBlockMap)
        requires
            size <= MAX_BLOCK_BYTES,
        ensures
            b.wf(),
            b.size == size,
            b.regions@.len() == 0,
    {
        MemoryBlockMap { regions: Vec::new(), size }
    }

    /// Store `region` in the first vacant slot, or append a new slot.
    #[verifier::loop_isolation(false)]
    pub fn fit_region(&mut self, region: MemoryRegion) -> (idx: usize)
        requires
            old(self).wf(),
            region.offset + region.size <= old(self).size,
        ensures
            final(self).wf(),
            final(self).size == old(self).size,
            idx < final(self).regions.len(),
            final(self).regions@[idx as int] == Some(region),
            forall|m: int| 0 <= m < idx ==> (#[trigger] old(self).regions@[m]) is Some,
            (idx < old(self).regions.len() && old(self).regions@[idx as int] is None
                && final(self).regions@ == old(self).regions@.update(idx as int, Some(region)))
                || (idx == old(self).regions.len()
                && final(self).regions@ == old(self).regions@.push(Some(region))),
    {
        let mut i: usize = 0;
        while i < self.regions.len()
            invariant
                *self == *old(self),
                forall|m: int| 0 <= m < i ==> (#[trigger] self.regions@[m]) is Some,
                i <= self.regions.len(),
            decreases self.regions.len() - i,
        {
            if self.regions[i].is_none() {
                self.regions[i] = Some(region);
                return i;
            }
            i += 1;
        }
        self.regions.push(Some(region));
        self.regions.len() - 1
    }

    /// Whether a prospective region at `offset` would touch a stored one.
    #[verifier::loop_isolation(false)]
    fn region_collides(&self, offset: u64, size: u64) -> (c: bool)
        requires
            self.wf(),
            offset + size <= self.size,
        ensures
            !c == (forall|m: int|
                0 <= m < self.regions.len() ==> (#[trigger] self.regions@[m] matches Some(other)
                    ==> disjoint_regions(MemoryRegion { offset, size }, other))),
    {
        let mut i: usize = 0;
        while i < self.regions.len()
            invariant
                self.wf(),
                offset + size <= self.size,
                i <= self.regions.len(),
                forall|m: int|
                    0 <= m < i ==> (#[trigger] self.regions@[m] matches Some(other)
                        ==> disjoint_regions(MemoryRegion { offset, size }, other)),
            decreases self.regions.len() - i,
        {
            match self.regions[i] {
                Some(other) => {
                    if !(offset + size <= other.offset || other.offset + other.size <= offset) {
                        return true;
                    }
                },
                None => {},
            }
            i += 1;
        }
        false
    }

    /// Place a region of `size` bytes at an `alignment`-aligned offset that
    /// stays inside the block and apart from every stored region, trying
    /// offset zero and then the aligned end of each stored region.  The
    /// search is complete over those candidates: a refusal means neither
    /// offset zero nor any stored region's aligned end admits the request.
    #[verifier::loop_isolation(false)]
    pub fn try_fit_region(&mut self, size: u64, alignment: u64) -> (r: Option<usize>)
        requires
            old(self).wf(),
            1 <= alignment <= MAX_BLOCK_BYTES,
        ensures
            final(self).wf(),
            final(self).size == old(self).size,
            r is None ==> final(self).regions@ == old(self).regions@,
            r matches Some(idx) ==> {
                &&& idx < final(self).regions.len()
                &&& (final(self).regions@[idx as int] matches Some(reg) && {
                    &&& reg.size == size
                    &&& reg.offset % alignment == 0
                    &&& reg.offset + reg.size <= old(self).size
                    &&& forall|m: int|
                        0 <= m < old(self).regions.len()
                        ==> (#[trigger] old(self).regions@[m] matches Some(other)
                        ==> disjoint_regions(reg, other))
                })
                &&& forall|m: int|
                    0 <= m < final(self).regions.len() && m != idx
                        ==> m < old(self).regions.len()
                        && final(self).regions@[m] == #[trigger] old(self).regions@[m]
            },
            r is None ==> !placeable(*old(self), 0, size as int),
            r is None ==> forall|m: int|
                0 <= m < old(self).regions.len()
                    ==> (#[trigger] old(self).regions@[m] matches Some(st) ==> !placeable(
                    *old(self),
                    align_up_spec(st.offset + st.size, alignment as int),
                    size as int,
                )),
    {
        if size <= self.size && !self.region_collides(0, size) {
            let idx = self.fit_region(MemoryRegion { offset: 0, size });
            return Some(idx);
        }
        proof {
            assert(!placeable(*self, 0, size as int));
        }
        let mut i: usize = 0;
        while i < self.regions.len()
            invariant
                *self == *old(self),
                i <= self.regions.len(),
                forall|m: int|
                    0 <= m < i ==> (#[trigger] self.regions@[m] matches Some(st) ==> !placeable(
                        *self,
                        align_up_spec(st.offset + st.size, alignment as int),
                        size as int,
                    )),
            decreases self.regions.len() - i,
        {
            match self.regions[i] {
                Some(stored) => {
                    proof {
                        assert(self.regions@[i as int] matches Some(rr) ==> rr.offset + rr.size
                            <= self.size);
                    }
                    let end = stored.offset + stored.size;
                    let candidate = align_up(end, alignment);
                    if candidate <= self.size && size <= self.size - candidate
                        && !self.region_collides(candidate, size) {
                        let idx = self.fit_region(MemoryRegion { offset: candidate, size });
                        return Some(idx);
                    }
                    proof {
                        assert(!placeable(*self, candidate as int, size as int));
                    }
                },
                None => {},
            }
            i += 1;
        }
        None
    }
}

/// Smallest multiple of `alignment` at or above `v`.
fn align_up(v: u64, alignment: u64) -> (r: u64)
    requires
        1 <= alignment <= MAX_BLOCK_BYTES,
        v <= MAX_BLOCK_BYTES,
    ensures
        r % alignment == 0,
        v <= r < v + alignment,
        r == align_up_spec(v as int, alignment as int),
{
    let rem = v % alignment;
    if rem == 0 {
        v
    } else {
        proof {
            vstd::arithmetic::div_mod::lemma_fundamental_div_mod(v as int, alignment as int);
            assert(v as int + (alignment as int - rem as int) == (v as int / alignment as int + 1)
                * alignment as int) by (nonlinear_arith)
                requires
                    v as int == alignment as int * (v as int / alignment as int) + rem as int,
            ;
            vstd::arithmetic::div_mod::lemma_mod_multiples_basic(
                v as int / alignment as int + 1,
                alignment as int,
            );
        }
        v + (alignment - rem)
    }
}

} // verus!
