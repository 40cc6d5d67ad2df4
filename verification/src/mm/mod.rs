//! Memory management: physical regions, frame allocation, page tables and
//! heap statistics.
//!
//! Physical and virtual addresses are plain `u64` values here.

use vstd::prelude::*;

pub mod allocator;
pub mod frame;
pub mod page_table;
pub mod heap;

use self::frame::{FrameAllocator, allocate_post, deallocate_post, MAX_FRAMES};
use self::allocator::{AllocRegion, MemoryAllocator};

verus! {

/// Highest physical address width of x86_64 (52 bits).
pub const PHYS_ADDR_LIMIT: u64 = 0x0010_0000_0000_0000;

/// Memory region types.
#[derive(Debug, Clone, Copy, PartialEq, Eq, Structural)]
pub enum MemoryRegionType {
    Usable,
    Reserved,
    ACPI,
    MMIO,
    Kernel,
    User,
}

/// Represents a memory region.
#[derive(Debug, Clone, Copy)]
pub struct MemoryRegion {
    pub start: u64,
    pub end: u64,
    pub region_type: MemoryRegionType,
}

impl MemoryRegion {
    /// A region from `start` to `end`; both are valid physical addresses.
    pub fn new(start: u64, end: u64, region_type: MemoryRegionType) -> (r: Self)
        requires
            start < PHYS_ADDR_LIMIT,
            end < PHYS_ADDR_LIMIT,
        ensures
            r.start == start,
            r.end == end,
            r.region_type == region_type,
    {
        MemoryRegion { start, end, region_type }
    }

    /// Size of the region in bytes.
    pub fn size(&self) -> (r: u64)
        requires
            self.start <= self.end,
        ensures
            r == self.end - self.start,
    {
        self.end - self.start
    }
}

/// Whether `addr` is a canonical x86_64 virtual address: bits 48..64 repeat
/// bit 47.
pub open spec fn canonical(addr: u64) -> bool {
    addr < 0x0000_8000_0000_0000 || addr >= 0xffff_8000_0000_0000
}

/// Convert a physical address to a virtual address (identity mapping); the
/// address must also be a canonical virtual address.
pub fn phys_to_virt(addr: u64) -> (r: u64)
    requires
        canonical(addr),
    ensures
        r == addr,
{
    addr
}

/// Convert a virtual address to a physical address (identity mapping); the
/// address must fit the 52-bit physical address space.
pub fn virt_to_phys(addr: u64) -> (r: u64)
    requires
        addr < PHYS_ADDR_LIMIT,
    ensures
        r == addr,
{
    addr
}

/// Allocate a physical frame from the kernel's frame allocator.
pub fn allocate_frame(allocator: &mut FrameAllocator) -> (r: Option<u64>)
    requires
        old(allocator).wf(),
        old(allocator).allocated() < usize::MAX,
    ensures
        final(allocator).wf(),
        allocate_post(*old(allocator), *final(allocator), r),
{
    frame::allocate_frame(allocator)
}

/// Return a physical frame to the kernel's frame allocator.
pub fn deallocate_frame(allocator: &mut FrameAllocator, frame: u64)
    requires
        old(allocator).wf(),
        frame / 4096 < MAX_FRAMES ==> old(allocator).allocated() > 0,
    ensures
        final(allocator).wf(),
        deallocate_post(*old(allocator), *final(allocator), frame),
{
    frame::deallocate_frame(allocator, frame)
}

/// The allocator regions of the usable regions of `regions`, in order.
pub open spec fn usable_alloc_regions(regions: Seq<MemoryRegion>) -> Seq<AllocRegion>
    decreases regions.len(),
{
    if regions.len() == 0 {
        Seq::empty()
    } else {
        let r = regions.last();
        usable_alloc_regions(regions.drop_last()) + if r.region_type == MemoryRegionType::Usable {
            seq![AllocRegion { start: r.start, end: r.end, allocated: false }]
        } else {
            Seq::empty()
        }
    }
}

/// A region allocator holding the usable regions of the memory map, in order.
pub fn allocator_from_regions(regions: &[MemoryRegion]) -> (r: MemoryAllocator)
    requires
        forall|i: int|
            0 <= i < regions@.len() && #[trigger] regions@[i].region_type == MemoryRegionType::Usable
                ==> regions@[i].start <= regions@[i].end && regions@[i].end < PHYS_ADDR_LIMIT,
    ensures
        r.wf(),
        r@ == usable_alloc_regions(regions@),
{
    let mut allocator = MemoryAllocator::new();
    let mut i: usize = 0;
    while i < regions.len()
        invariant
            i <= regions@.len(),
            allocator.wf(),
            allocator@ == usable_alloc_regions(regions@.take(i as int)),
            forall|k: int|
                0 <= k < regions@.len() && #[trigger] regions@[k].region_type == MemoryRegionType::Usable
                    ==> regions@[k].start <= regions@[k].end && regions@[k].end < PHYS_ADDR_LIMIT,
        decreases regions@.len() - i,
    {
        let r = regions[i];
        assert(regions@.take(i + 1).drop_last() =~= regions@.take(i as int));
        assert(regions@.take(i + 1).last() == r);
        if r.region_type == MemoryRegionType::Usable {
            allocator.add_region(r.start, r.end);
            assert(allocator@ =~= usable_alloc_regions(regions@.take(i + 1)));
        } else {
            assert(usable_alloc_regions(regions@.take(i + 1)) =~= usable_alloc_regions(regions@.take(i as int)));
        }
        i = i + 1;
    }
    assert(regions@.take(regions@.len() as int) =~= regions@);
    allocator
}

} // verus!
