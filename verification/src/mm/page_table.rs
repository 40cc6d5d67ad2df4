//! Page table management: a table of 512 x86_64 page-table entries.
//!
//! An entry holds a 4 KiB-aligned physical address in bits 12..52 and flag
//! bits elsewhere; bit 0 (`PRESENT`) marks a mapped page.

use vstd::prelude::*;
use super::PHYS_ADDR_LIMIT;
use x86_64::structures::paging::{PageTable as X86PageTable, PageTableFlags as X86PageTableFlags};
use x86_64::PhysAddr;

verus! {

/// Number of entries of a page table.
pub const ENTRY_COUNT: usize = 512;

/// Bits of an entry that hold the physical address.
pub const ADDR_MASK: u64 = 0x000f_ffff_ffff_f000;

/// The page is present (mapped).
pub const PRESENT: u64 = 1;

/// The page is writable.
pub const WRITABLE: u64 = 2;

/// The page is accessible from user mode.
pub const USER_ACCESSIBLE: u64 = 4;

/// Writes go straight through the cache.
pub const WRITE_THROUGH: u64 = 8;

/// The page is not cached.
pub const NO_CACHE: u64 = 16;

/// Code on the page may not run.
pub const NO_EXECUTE: u64 = 0x8000_0000_0000_0000;

/// Flags of a page-table entry: every bit of an entry outside the address.
#[derive(Debug, Clone, Copy)]
pub struct PageTableFlags {
    bits: u64,
}

impl PageTableFlags {
    /// The raw flag bits.
    pub closed spec fn spec_bits(&self) -> u64 {
        self.bits
    }

    /// Flags are never address bits.
    pub closed spec fn wf(&self) -> bool {
        self.bits & ADDR_MASK == 0
    }

    /// The flags of `bits`; address bits are dropped.
    pub fn from_bits_truncate(bits: u64) -> (r: Self)
        ensures
            r.wf(),
            r.spec_bits() == bits & !ADDR_MASK,
    {
        let r = PageTableFlags { bits: bits & !ADDR_MASK };
        assert((bits & !0x000f_ffff_ffff_f000u64) & 0x000f_ffff_ffff_f000u64 == 0) by (bit_vector);
        r
    }

    /// No flag set.
    pub fn empty() -> (r: Self)
        ensures
            r.wf(),
            r.spec_bits() == 0,
    {
        assert(0u64 & 0x000f_ffff_ffff_f000u64 == 0) by (bit_vector);
        PageTableFlags { bits: 0 }
    }

    /// The raw flag bits.
    pub fn bits(&self) -> (r: u64)
        ensures
            r == self.spec_bits(),
    {
        self.bits
    }

    /// Whether every flag of `other` is set in `self`.
    pub fn contains(&self, other: u64) -> (r: bool)
        ensures
            r == (self.spec_bits() & other == other),
    {
        self.bits & other == other
    }
}

#[verifier::external_type_specification]
#[verifier::external_body]
pub struct ExX86PageTable(X86PageTable);

/// The raw entries of a hardware page table, by index.
pub uninterp spec fn table_entries(table: X86PageTable) -> Map<usize, u64>;

/// `PageTable[idx].flags()`: the entry's bits outside the address, read
/// without change.
#[verifier::external_body]
fn entry_flags(table: &X86PageTable, idx: usize) -> (r: u64)
    requires
        idx < ENTRY_COUNT,
    ensures
        r == table_entries(*table)[idx] & !ADDR_MASK,
{
    table[idx].flags().bits()
}

/// `PageTable[idx].addr()`: the entry's address bits, read without change.
#[verifier::external_body]
fn entry_address(table: &X86PageTable, idx: usize) -> (r: u64)
    requires
        idx < ENTRY_COUNT,
    ensures
        r == table_entries(*table)[idx] & ADDR_MASK,
{
    table[idx].addr().as_u64()
}

/// `PageTable[idx].set_addr(addr, flags)`: the entry becomes the 4 KiB
/// aligned address with the flag bits; the call panics on an unaligned
/// address, and `PhysAddr::new` on one beyond 52 bits.
#[verifier::external_body]
fn entry_set_addr(table: &mut X86PageTable, idx: usize, addr: u64, flags: u64)
    requires
        idx < ENTRY_COUNT,
        addr % 4096 == 0,
        addr < PHYS_ADDR_LIMIT,
    ensures
        table_entries(*final(table)) == table_entries(*old(table)).insert(idx, addr | flags),
{
    table[idx].set_addr(PhysAddr::new(addr), X86PageTableFlags::from_bits_retain(flags))
}

/// `PageTable[idx].set_flags(flags)`: the entry keeps its address bits and
/// takes the flag bits.
#[verifier::external_body]
fn entry_set_flags(table: &mut X86PageTable, idx: usize, flags: u64)
    requires
        idx < ENTRY_COUNT,
    ensures
        table_entries(*final(table)) == table_entries(*old(table)).insert(
            idx,
            (table_entries(*old(table))[idx] & ADDR_MASK) | flags,
        ),
{
    table[idx].set_flags(X86PageTableFlags::from_bits_retain(flags))
}

/// A hardware page table, borrowed for the kernel's lifetime.
#[derive(Debug)]
pub struct PageTable {
    inner: &'static mut X86PageTable,
}

/// Whether the entry `e` maps a page.
pub open spec fn entry_present(e: u64) -> bool {
    e & PRESENT != 0
}

/// The physical address held by the entry `e`.
pub open spec fn entry_addr(e: u64) -> u64 {
    e & ADDR_MASK
}

impl PageTable {
    /// The entries of the table.
    pub closed spec fn entries(&self) -> Map<usize, u64> {
        table_entries(*self.inner)
    }

    /// Wrap a hardware page table.
    pub fn new(table: &'static mut X86PageTable) -> (r: Self)
        ensures
            r.entries() == table_entries(*old(table)),
    {
        PageTable { inner: table }
    }

    /// The underlying hardware page table.
    pub fn as_mut(&mut self) -> (r: &mut X86PageTable)
        ensures
            table_entries(*r) == old(self).entries(),
            final(self).entries() == table_entries(*final(r)),
    {
        &mut *self.inner
    }

    /// Map entry `page_idx` to the frame at `frame_addr` with `flags`.
    pub fn map(&mut self, page_idx: usize, frame_addr: u64, flags: PageTableFlags)
        requires
            page_idx < ENTRY_COUNT,
            frame_addr % 4096 == 0,
            frame_addr < PHYS_ADDR_LIMIT,
            flags.wf(),
        ensures
            final(self).entries() == old(self).entries().insert(page_idx, frame_addr | flags.spec_bits()),
            entry_addr(final(self).entries()[page_idx]) == frame_addr,
            entry_present(final(self).entries()[page_idx]) == (flags.spec_bits() & PRESENT != 0),
    {
        let fb = flags.bits();
        assert((frame_addr | fb) & 0x000f_ffff_ffff_f000u64 == frame_addr) by (bit_vector)
            requires
                frame_addr % 4096 == 0,
                frame_addr < 0x0010_0000_0000_0000u64,
                fb & 0x000f_ffff_ffff_f000u64 == 0,
        ;
        assert(((frame_addr | fb) & 1u64 != 0) == (fb & 1u64 != 0)) by (bit_vector)
            requires
                frame_addr % 4096 == 0,
        ;
        entry_set_addr(self.inner, page_idx, frame_addr, fb);
    }

    /// Unmap entry `page_idx`: every flag is cleared, the address is kept.
    pub fn unmap(&mut self, page_idx: usize)
        requires
            page_idx < ENTRY_COUNT,
        ensures
            final(self).entries() == old(self).entries().insert(
                page_idx,
                entry_addr(old(self).entries()[page_idx]),
            ),
            !entry_present(final(self).entries()[page_idx]),
    {
        let ghost e = self.entries()[page_idx];
        assert((e & 0x000f_ffff_ffff_f000u64) | 0u64 == e & 0x000f_ffff_ffff_f000u64) by (bit_vector);
        assert((e & 0x000f_ffff_ffff_f000u64) & 1u64 == 0) by (bit_vector);
        entry_set_flags(self.inner, page_idx, 0);
    }

    /// Check if a page is mapped.
    pub fn is_mapped(&self, page_idx: usize) -> (r: bool)
        requires
            page_idx < ENTRY_COUNT,
        ensures
            r == entry_present(self.entries()[page_idx]),
    {
        let f = entry_flags(self.inner, page_idx);
        let ghost e = self.entries()[page_idx];
        assert((e & !0x000f_ffff_ffff_f000u64) & 1u64 == e & 1u64) by (bit_vector);
        f & PRESENT != 0
    }

    /// Get the physical address for a page, if it is mapped.
    pub fn get_frame(&self, page_idx: usize) -> (r: Option<u64>)
        requires
            page_idx < ENTRY_COUNT,
        ensures
            r == frame_of(self.entries()[page_idx]),
    {
        if self.is_mapped(page_idx) {
            Some(entry_address(self.inner, page_idx))
        } else {
            None
        }
    }
}

/// The frame that an entry maps, if it is present.
pub open spec fn frame_of(e: u64) -> Option<u64> {
    if entry_present(e) {
        Some(entry_addr(e))
    } else {
        None
    }
}

/// Reading back an entry just mapped gives the mapped frame when the flags
/// include `PRESENT` and nothing otherwise; every other entry reads as before.
pub proof fn lemma_map_then_get_frame(
    entries: Map<usize, u64>,
    page_idx: usize,
    frame_addr: u64,
    flags: PageTableFlags,
)
    requires
        page_idx < ENTRY_COUNT,
        frame_addr % 4096 == 0,
        frame_addr < PHYS_ADDR_LIMIT,
        flags.wf(),
    ensures
        frame_of(entries.insert(page_idx, frame_addr | flags.spec_bits())[page_idx]) == if flags.spec_bits()
            & PRESENT != 0 {
            Some(frame_addr)
        } else {
            None
        },
        forall|j: usize|
            j != page_idx ==> #[trigger] frame_of(
                entries.insert(page_idx, frame_addr | flags.spec_bits())[j],
            ) == frame_of(entries[j]),
{
    let fb = flags.spec_bits();
    assert(fb & 0x000f_ffff_ffff_f000u64 == 0);
    assert((frame_addr | fb) & 0x000f_ffff_ffff_f000u64 == frame_addr) by (bit_vector)
        requires
            frame_addr % 4096 == 0,
            frame_addr < 0x0010_0000_0000_0000u64,
            fb & 0x000f_ffff_ffff_f000u64 == 0,
    ;
    assert(((frame_addr | fb) & 1u64 != 0) == (fb & 1u64 != 0)) by (bit_vector)
        requires
            frame_addr % 4096 == 0,
    ;
}

/// After unmapping, an entry reads as unmapped.
pub proof fn lemma_unmap_then_get_frame(entries: Map<usize, u64>, page_idx: usize)
    ensures
        frame_of(entries.insert(page_idx, entry_addr(entries[page_idx]))[page_idx]) is None,
{
    let e = entries[page_idx];
    assert((e & 0x000f_ffff_ffff_f000u64) & 1u64 == 0) by (bit_vector);
}

} // verus!
