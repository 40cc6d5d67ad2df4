//! Architecture-specific decisions that do not touch the hardware.

use vstd::prelude::*;

pub mod cpu;
pub mod gdt;
pub mod idt;
pub mod pic;
pub mod serial;

verus! {

/// The current CPU's index: the kernel is built without APIC support, so
/// every CPU reports index 0.
pub fn cpu_id() -> (r: usize)
    ensures
        r == 0,
{
    0
}

/// Whether the current code runs in an interrupt context: the kernel keeps no
/// such state, so it always answers no.
pub fn in_interrupt() -> (r: bool)
    ensures
        !r,
{
    false
}

} // verus!
