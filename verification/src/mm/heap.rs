//! Kernel heap statistics, read from the `linked_list_allocator` heap.

use vstd::prelude::*;
use linked_list_allocator::Heap;
use vstd::string::*;
use crate::fmt::{append_decimal, decimal};

verus! {

#[verifier::external_type_specification]
#[verifier::external_body]
pub struct ExHeap(Heap);

/// Heap statistics.
#[derive(Debug, Clone, Copy)]
pub struct HeapStats {
    pub used: usize,
    pub free: usize,
    pub total: usize,
}

/// The number of bytes that `heap` has handed out.
pub uninterp spec fn heap_used_bytes(heap: Heap) -> usize;

/// The number of bytes of `heap` that are not handed out.
pub uninterp spec fn heap_free_bytes(heap: Heap) -> usize;

/// `Heap::used`: the heap's count of bytes handed out, a field of the heap
/// that the call reads and does not change.
#[verifier::external_body]
fn heap_used(heap: &Heap) -> (r: usize)
    ensures
        r == heap_used_bytes(*heap),
{
    heap.used()
}

/// `Heap::free`: the heap's size less its used bytes, read without change.
/// Used and free bytes together are the heap's size, a `usize`.
#[verifier::external_body]
fn heap_free(heap: &Heap) -> (r: usize)
    ensures
        r == heap_free_bytes(*heap),
        r + heap_used_bytes(*heap) <= usize::MAX,
{
    heap.free()
}

/// Statistics of `heap`: its used and free byte counts and their sum, the
/// heap's size.
pub fn get_stats(heap: &Heap) -> (r: HeapStats)
    ensures
        r.used == heap_used_bytes(*heap),
        r.free == heap_free_bytes(*heap),
        r.total == heap_used_bytes(*heap) + heap_free_bytes(*heap),
{
    let used = heap_used(heap);
    let free = heap_free(heap);
    HeapStats::from_counts(used, free)
}

impl HeapStats {
    /// The statistics of a heap with `used` bytes handed out and `free`
    /// bytes left.
    pub fn from_counts(used: usize, free: usize) -> (r: Self)
        requires
            used + free <= usize::MAX,
        ensures
            r.used == used,
            r.free == free,
            r.total == used + free,
    {
        HeapStats { used, free, total: used + free }
    }

    /// The statistics as text: "Heap: U KB used, F KB free, T KB total",
    /// each count in whole kibibytes.
    pub fn to_string(&self) -> (r: String)
        ensures
            r@ == "Heap: "@ + decimal((self.used / 1024) as nat) + " KB used, "@ + decimal(
                (self.free / 1024) as nat,
            ) + " KB free, "@ + decimal((self.total / 1024) as nat) + " KB total"@,
    {
        let mut out = String::from_str("Heap: ");
        append_decimal(&mut out, (self.used / 1024) as u64);
        out.append(" KB used, ");
        append_decimal(&mut out, (self.free / 1024) as u64);
        out.append(" KB free, ");
        append_decimal(&mut out, (self.total / 1024) as u64);
        out.append(" KB total");
        out
    }
}

} // verus!
