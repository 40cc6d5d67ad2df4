//! The global descriptor table, built with the `x86_64` crate's table.

use vstd::prelude::*;
use x86_64::structures::gdt::{Descriptor, DescriptorFlags, GlobalDescriptorTable};

verus! {

#[verifier::external_type_specification]
#[verifier::external_body]
pub struct ExGlobalDescriptorTable<const MAX: usize>(GlobalDescriptorTable<MAX>);

/// The raw entries of a descriptor table, the null entry first.
pub uninterp spec fn gdt_entries(table: GlobalDescriptorTable) -> Seq<u64>;

/// Bits of a descriptor that hold its privilege level.
pub open spec fn descriptor_dpl(value: u64) -> u16 {
    ((value >> 45u64) & 3) as u16
}

/// `GlobalDescriptorTable::new`: a table of eight entries holding only the
/// null entry.
#[verifier::external_body]
fn gdt_new() -> (r: GlobalDescriptorTable)
    ensures
        gdt_entries(r) == seq![0u64],
{
    GlobalDescriptorTable::new()
}

/// `GlobalDescriptorTable::append` of the code or data segment descriptor
/// `value`: the entry goes at the end and the selector of its index, with
/// the descriptor's privilege level as requested level, comes back.  The
/// table panics when full, so it must have room.
#[verifier::external_body]
fn gdt_append_user_segment(table: &mut GlobalDescriptorTable, value: u64) -> (r: u16)
    requires
        gdt_entries(*old(table)).len() < 8,
    ensures
        gdt_entries(*final(table)) == gdt_entries(*old(table)).push(value),
        r == ((gdt_entries(*old(table)).len() as u16) << 3u16) | descriptor_dpl(value),
{
    table.append(Descriptor::UserSegment(value)).0
}

/// `DescriptorFlags::KERNEL_CODE64`: the flat 64-bit kernel code segment,
/// the value of `Descriptor::kernel_code_segment`.
#[verifier::external_body]
fn kernel_code64_bits() -> (r: u64)
    ensures
        r == 0x00af9b000000ffffu64,
{
    DescriptorFlags::KERNEL_CODE64.bits()
}

/// `DescriptorFlags::KERNEL_DATA`: the flat kernel data segment, the value of
/// `Descriptor::kernel_data_segment`.
#[verifier::external_body]
fn kernel_data_bits() -> (r: u64)
    ensures
        r == 0x00cf93000000ffffu64,
{
    DescriptorFlags::KERNEL_DATA.bits()
}

/// `DescriptorFlags::USER_CODE64`: the flat 64-bit ring 3 code segment.
#[verifier::external_body]
fn user_code64_bits() -> (r: u64)
    ensures
        r == 0x00affb000000ffffu64,
{
    DescriptorFlags::USER_CODE64.bits()
}

/// `DescriptorFlags::USER_DATA`: the flat ring 3 data segment.
#[verifier::external_body]
fn user_data_bits() -> (r: u64)
    ensures
        r == 0x00cff3000000ffffu64,
{
    DescriptorFlags::USER_DATA.bits()
}

/// The kernel's descriptor table with its code and data selectors.
pub struct GdtWrapper {
    table: GlobalDescriptorTable,
    code_selector: u16,
    data_selector: u16,
}

impl GdtWrapper {
    /// The raw entries of the table.
    pub closed spec fn entries(&self) -> Seq<u64> {
        gdt_entries(self.table)
    }

    /// The kernel code segment selector.
    pub closed spec fn code_selector_spec(&self) -> u16 {
        self.code_selector
    }

    /// The kernel data segment selector.
    pub closed spec fn data_selector_spec(&self) -> u16 {
        self.data_selector
    }

    /// A table with the null entry, the kernel code and data segments and
    /// the user code and data segments, in that order.
    pub fn new() -> (r: Self)
        ensures
            r.entries() == seq![
                0u64,
                0x00af9b000000ffffu64,
                0x00cf93000000ffffu64,
                0x00affb000000ffffu64,
                0x00cff3000000ffffu64,
            ],
            r.code_selector_spec() == 0x08,
            r.data_selector_spec() == 0x10,
    {
        let mut table = gdt_new();
        let code_selector = gdt_append_user_segment(&mut table, kernel_code64_bits());
        let data_selector = gdt_append_user_segment(&mut table, kernel_data_bits());
        let _user_code = gdt_append_user_segment(&mut table, user_code64_bits());
        let _user_data = gdt_append_user_segment(&mut table, user_data_bits());
        assert(((0x00af9b000000ffffu64 >> 45u64) & 3u64) == 0u64) by (bit_vector);
        assert(((0x00cf93000000ffffu64 >> 45u64) & 3u64) == 0u64) by (bit_vector);
        assert((1u16 << 3u16) == 8) by (bit_vector);
        assert((2u16 << 3u16) == 16) by (bit_vector);
        assert((8u16 | 0u16) == 8) by (bit_vector);
        assert((16u16 | 0u16) == 16) by (bit_vector);
        GdtWrapper { table, code_selector, data_selector }
    }

    /// The kernel code segment selector.
    pub fn kernel_code_selector(&self) -> (r: u16)
        ensures
            r == self.code_selector_spec(),
    {
        self.code_selector
    }

    /// The kernel data segment selector.
    pub fn kernel_data_selector(&self) -> (r: u16)
        ensures
            r == self.data_selector_spec(),
    {
        self.data_selector
    }

    /// The descriptor table itself, to be loaded into the CPU.
    pub fn table(&self) -> (r: &GlobalDescriptorTable)
        ensures
            gdt_entries(*r) == self.entries(),
    {
        &self.table
    }
}

} // verus!
