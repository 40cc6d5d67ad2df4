//! Memory region allocator: hands out memory from the first region that is
//! large enough, bumping the region's start.

use vstd::prelude::*;
use super::PHYS_ADDR_LIMIT;

verus! {

/// One region tracked by the allocator.
#[derive(Debug, Clone, Copy)]
pub struct AllocRegion {
    pub start: u64,
    pub end: u64,
    pub allocated: bool,
}

/// Memory region allocator for physical memory management.
pub struct MemoryAllocator {
    regions: Vec<AllocRegion>,
}

/// Whether a region can serve a request of `size` bytes.
pub open spec fn region_fits(r: AllocRegion, size: usize) -> bool {
    !r.allocated && r.end - r.start >= size
}

/// The region after `size` bytes were taken from its start.
pub open spec fn region_after(r: AllocRegion, size: usize) -> AllocRegion {
    AllocRegion {
        start: (r.start + size) as u64,
        end: r.end,
        allocated: r.start + size >= r.end,
    }
}

impl MemoryAllocator {
    /// The regions, in the order they were added.
    pub closed spec fn view(&self) -> Seq<AllocRegion> {
        self.regions@
    }

    /// Every region lies within the physical address space, start before end.
    pub closed spec fn wf(&self) -> bool {
        forall|i: int|
            0 <= i < self.regions@.len() ==> #[trigger] self.regions@[i].start <= self.regions@[i].end
                && self.regions@[i].end < PHYS_ADDR_LIMIT
    }

    /// An allocator without regions.
    pub fn new() -> (r: Self)
        ensures
            r@ == Seq::<AllocRegion>::empty(),
            r.wf(),
    {
        MemoryAllocator { regions: Vec::new() }
    }

    /// Add a memory region to the allocator.
    pub fn add_region(&mut self, start: u64, end: u64)
        requires
            old(self).wf(),
            start <= end,
            end < PHYS_ADDR_LIMIT,
        ensures
            final(self).wf(),
            final(self)@ == old(self)@.push(AllocRegion { start, end, allocated: false }),
    {
        self.regions.push(AllocRegion { start, end, allocated: false });
    }

    /// Allocate `size` bytes from the first region that still has room.
    pub fn allocate(&mut self, size: usize) -> (r: Option<u64>)
        requires
            old(self).wf(),
        ensures
            final(self).wf(),
            match r {
                Some(addr) => exists|i: int|
                    {
                        &&& 0 <= i < old(self)@.len()
                        &&& region_fits(old(self)@[i], size)
                        &&& (forall|j: int| 0 <= j < i ==> !region_fits(#[trigger] old(self)@[j], size))
                        &&& addr == old(self)@[i].start
                        &&& final(self)@ == old(self)@.update(i, region_after(old(self)@[i], size))
                    },
                None => {
                    &&& (forall|j: int| 0 <= j < old(self)@.len() ==> !region_fits(#[trigger] old(self)@[j], size))
                    &&& final(self)@ == old(self)@
                },
            },
    {
        let mut i: usize = 0;
        while i < self.regions.len()
            invariant
                i <= self.regions@.len(),
                self.regions@ == old(self).regions@,
                self.wf(),
                forall|j: int| 0 <= j < i ==> !region_fits(#[trigger] self.regions@[j], size),
            decreases self.regions@.len() - i,
        {
            let region = self.regions[i];
            if !region.allocated && (region.end - region.start) >= size as u64 {
                let addr = region.start;
                let new_start = region.start + size as u64;
                let updated = AllocRegion {
                    start: new_start,
                    end: region.end,
                    allocated: new_start >= region.end,
                };
                self.regions.set(i, updated);
                assert(region_fits(old(self)@[i as int], size));
                assert(self@ == old(self)@.update(i as int, region_after(old(self)@[i as int], size)));
                return Some(addr);
            }
            i = i + 1;
        }
        None
    }
}

} // verus!
