use aurora_kernel::mm::allocator::MemoryAllocator;
use aurora_kernel::mm::frame::{self, FrameAllocator};
use aurora_kernel::mm::heap::get_stats;
use aurora_kernel::mm::page_table::{PageTable, PageTableFlags, NO_EXECUTE, PRESENT, WRITABLE};
use x86_64::structures::paging::{PageTable as X86PageTable, PageTableFlags as X86PageTableFlags};
use aurora_kernel::mm::{allocate_frame, deallocate_frame, phys_to_virt, virt_to_phys, MemoryRegion, MemoryRegionType};
use linked_list_allocator::Heap;
use std::alloc::Layout;
use std::mem::MaybeUninit;

#[test]
fn region_size() {
    let r = MemoryRegion::new(0x1000, 0x5000, MemoryRegionType::Usable);
    assert_eq!(r.size(), 0x4000);
    assert_eq!(r.region_type, MemoryRegionType::Usable);
}

#[test]
fn address_translation_is_identity() {
    assert_eq!(phys_to_virt(0xdead_b000), 0xdead_b000);
    assert_eq!(virt_to_phys(0x1234), 0x1234);
}

#[test]
fn frames_from_usable_regions() {
    let mut fa = FrameAllocator::new();
    let regions = [
        MemoryRegion::new(0, 0x3000, MemoryRegionType::Usable),
        MemoryRegion::new(0x3000, 0x8000, MemoryRegionType::Reserved),
    ];
    fa.init_from_bootinfo(&regions);
    let st = fa.stats();
    assert_eq!(st.total_frames, 3);
    assert_eq!(st.allocated_frames, 0);
    assert_eq!(st.free_frames, 3);
    assert_eq!(st.total_memory, 3 * 4096);
    assert_eq!(fa.allocate(), Some(0));
    assert_eq!(fa.allocate(), Some(0x1000));
    assert_eq!(fa.allocate(), Some(0x2000));
    assert_eq!(fa.allocate(), None);
    assert_eq!(fa.stats().allocated_frames, 3);
    assert_eq!(fa.stats().allocated_memory, 3 * 4096);
}

#[test]
fn deallocate_then_reallocate() {
    let mut fa = FrameAllocator::new();
    fa.init_from_bootinfo(&[MemoryRegion::new(0, 0x4000, MemoryRegionType::Usable)]);
    let a = allocate_frame(&mut fa).unwrap();
    let b = frame::allocate_frame(&mut fa).unwrap();
    assert_eq!((a, b), (0, 0x1000));
    deallocate_frame(&mut fa, a);
    assert_eq!(frame::get_stats(&fa).allocated_frames, 1);
    assert_eq!(fa.allocate(), Some(0));
    frame::deallocate_frame(&mut fa, 0x1000);
    assert_eq!(fa.allocate(), Some(0x1000));
}

#[test]
fn first_fit_allocator() {
    let mut m = MemoryAllocator::new();
    assert_eq!(m.allocate(16), None);
    m.add_region(0x1000, 0x1010);
    m.add_region(0x2000, 0x3000);
    assert_eq!(m.allocate(0x20), Some(0x2000));
    assert_eq!(m.allocate(0x10), Some(0x1000));
    assert_eq!(m.allocate(0x10), Some(0x2020));
    assert_eq!(m.allocate(0x1000), None);
}

#[test]
fn page_table_map_unmap() {
    let table: &'static mut X86PageTable = Box::leak(Box::new(X86PageTable::new()));
    let mut pt = PageTable::new(table);
    assert!(!pt.is_mapped(3));
    assert_eq!(pt.get_frame(3), None);
    pt.map(3, 0x5000, PageTableFlags::from_bits_truncate(PRESENT | WRITABLE));
    assert!(pt.is_mapped(3));
    assert_eq!(pt.get_frame(3), Some(0x5000));
    pt.unmap(3);
    assert!(!pt.is_mapped(3));
    assert_eq!(pt.get_frame(3), None);
    assert_eq!(pt.as_mut()[3].addr().as_u64(), 0x5000);
    assert!(pt.as_mut()[3].flags().is_empty());
    pt.map(4, 0x7000, PageTableFlags::from_bits_truncate(WRITABLE));
    assert!(!pt.is_mapped(4));
    assert_eq!(pt.as_mut()[4].addr().as_u64(), 0x7000);
    assert!(pt.as_mut()[4].flags().contains(X86PageTableFlags::WRITABLE));
}

#[test]
fn page_table_flags() {
    let f = PageTableFlags::from_bits_truncate(PRESENT | NO_EXECUTE);
    assert!(f.contains(PRESENT));
    assert!(f.contains(NO_EXECUTE));
    assert!(!f.contains(WRITABLE));
    assert_eq!(PageTableFlags::empty().bits(), 0);
}

#[test]
fn heap_stats_follow_allocations() {
    let empty = Heap::empty();
    let st = get_stats(&empty);
    assert_eq!((st.used, st.free, st.total), (0, 0, 0));
    let mem: &'static mut [MaybeUninit<u8>] = Box::leak(vec![MaybeUninit::<u8>::uninit(); 4096].into_boxed_slice());
    let mut heap = Heap::from_slice(mem);
    let size = heap.size();
    assert!(size > 0);
    let before = get_stats(&heap);
    assert_eq!(before.used, 0);
    assert_eq!(before.free, size);
    assert_eq!(before.total, size);
    assert!(heap.allocate_first_fit(Layout::from_size_align(256, 8).unwrap()).is_ok());
    let after = get_stats(&heap);
    assert!(after.used >= 256);
    assert_eq!(after.used + after.free, size);
    assert_eq!(after.total, size);
}

#[test]
fn heap_stats_text() {
    let st = aurora_kernel::mm::heap::HeapStats { used: 2048, free: 3072, total: 5120 };
    assert_eq!(st.to_string(), "Heap: 2 KB used, 3 KB free, 5 KB total");
}

#[test]
fn allocator_from_usable_regions() {
    let regions = [
        MemoryRegion::new(0x1000, 0x2000, MemoryRegionType::Reserved),
        MemoryRegion::new(0x3000, 0x3100, MemoryRegionType::Usable),
        MemoryRegion::new(0x8000, 0x9000, MemoryRegionType::Usable),
    ];
    let mut m = aurora_kernel::mm::allocator_from_regions(&regions);
    assert_eq!(m.allocate(0x200), Some(0x8000));
    assert_eq!(m.allocate(0x100), Some(0x3000));
    assert_eq!(m.allocate(0x100), Some(0x8200));
}

#[test]
fn heap_stats_from_counts() {
    let st = aurora_kernel::mm::heap::HeapStats::from_counts(100, 28);
    assert_eq!((st.used, st.free, st.total), (100, 28, 128));
}

#[test]
fn counts_stay_within_total() {
    let mut fa = FrameAllocator::new();
    fa.init_from_bootinfo(&[MemoryRegion::new(0, 0x2000, MemoryRegionType::Usable)]);
    let a = fa.allocate().unwrap();
    assert!(fa.allocated_frames() <= fa.total_frames());
    fa.deallocate(a);
    assert_eq!(fa.allocate(), Some(a));
    fa.allocate();
    assert_eq!(fa.allocate(), None);
    assert_eq!(fa.allocated_frames(), fa.total_frames());
}
