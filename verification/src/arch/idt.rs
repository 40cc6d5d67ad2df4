//! The interrupt descriptor table: which handler serves which vector.

use vstd::prelude::*;

verus! {

/// Number of interrupt vectors.
pub const IDT_ENTRIES: usize = 256;

/// The kernel's interrupt handlers: CPU exceptions, then the hardware
/// interrupts of the remapped PICs (IRQ 0 to 15 at vectors 32 to 47).
#[derive(Debug, Clone, Copy, PartialEq, Eq, Structural)]
pub enum InterruptHandler {
    /// The division error handler.
    DivisionError,
    /// The debug handler.
    Debug,
    /// The non-maskable interrupt handler.
    NonMaskableInterrupt,
    /// The breakpoint handler.
    Breakpoint,
    /// The overflow handler.
    Overflow,
    /// The bound range exceeded handler.
    BoundRangeExceeded,
    /// The invalid opcode handler.
    InvalidOpcode,
    /// The device not available handler.
    DeviceNotAvailable,
    /// The double fault handler.
    DoubleFault,
    /// The invalid TSS handler.
    InvalidTss,
    /// The segment not present handler.
    SegmentNotPresent,
    /// The stack-segment fault handler.
    StackSegmentFault,
    /// The general protection fault handler.
    GeneralProtectionFault,
    /// The page fault handler.
    PageFault,
    /// The x87 floating point handler.
    X87FloatingPoint,
    /// The alignment check handler.
    AlignmentCheck,
    /// The machine check handler.
    MachineCheck,
    /// The SIMD floating point handler.
    SimdFloatingPoint,
    /// The virtualization handler.
    Virtualization,
    /// The security exception handler.
    SecurityException,
    /// The timer handler.
    Timer,
    /// The keyboard handler.
    Keyboard,
    /// The cascade handler.
    Cascade,
    /// The COM2 handler.
    Com2,
    /// The COM1 handler.
    Com1,
    /// The LPT2 handler.
    Lpt2,
    /// The floppy handler.
    Floppy,
    /// The LPT1 handler.
    Lpt1,
    /// The RTC handler.
    Rtc,
    /// The PCI1 handler.
    Pci1,
    /// The PCI2 handler.
    Pci2,
    /// The mouse handler.
    Mouse,
    /// The coprocessor handler.
    Coprocessor,
    /// The IDE1 handler.
    Ide1,
    /// The IDE2 handler.
    Ide2,
    /// The IRQ 15 handler.
    Irq15,
}

/// The vector at which the kernel installs handler `h`.
pub open spec fn handler_vector(h: InterruptHandler) -> int {
    match h {
        InterruptHandler::DivisionError => 0,
        InterruptHandler::Debug => 1,
        InterruptHandler::NonMaskableInterrupt => 2,
        InterruptHandler::Breakpoint => 3,
        InterruptHandler::Overflow => 4,
        InterruptHandler::BoundRangeExceeded => 5,
        InterruptHandler::InvalidOpcode => 6,
        InterruptHandler::DeviceNotAvailable => 7,
        InterruptHandler::DoubleFault => 8,
        InterruptHandler::InvalidTss => 10,
        InterruptHandler::SegmentNotPresent => 11,
        InterruptHandler::StackSegmentFault => 12,
        InterruptHandler::GeneralProtectionFault => 13,
        InterruptHandler::PageFault => 14,
        InterruptHandler::X87FloatingPoint => 16,
        InterruptHandler::AlignmentCheck => 17,
        InterruptHandler::MachineCheck => 18,
        InterruptHandler::SimdFloatingPoint => 19,
        InterruptHandler::Virtualization => 20,
        InterruptHandler::SecurityException => 30,
        InterruptHandler::Timer => 32,
        InterruptHandler::Keyboard => 33,
        InterruptHandler::Cascade => 34,
        InterruptHandler::Com2 => 35,
        InterruptHandler::Com1 => 36,
        InterruptHandler::Lpt2 => 37,
        InterruptHandler::Floppy => 38,
        InterruptHandler::Lpt1 => 39,
        InterruptHandler::Rtc => 40,
        InterruptHandler::Pci1 => 41,
        InterruptHandler::Pci2 => 42,
        InterruptHandler::Mouse => 43,
        InterruptHandler::Coprocessor => 44,
        InterruptHandler::Ide1 => 45,
        InterruptHandler::Ide2 => 46,
        InterruptHandler::Irq15 => 47,
    }
}

/// Whether handler `h` stops the kernel: every CPU exception handler (those
/// below vector 32) does but the debug and breakpoint ones, which only log;
/// the hardware interrupt handlers log.
pub open spec fn handler_is_fatal(h: InterruptHandler) -> bool {
    &&& handler_vector(h) < 32
    &&& h != InterruptHandler::Debug
    &&& h != InterruptHandler::Breakpoint
}

/// Each handler is the one the kernel installs at its own vector.
pub proof fn lemma_handler_at_its_vector(h: InterruptHandler)
    ensures
        kernel_handler(handler_vector(h)) == Some(h),
{
}

/// Whether handler `h` stops the kernel.
pub fn is_fatal(h: InterruptHandler) -> (r: bool)
    ensures
        r == handler_is_fatal(h),
{
    match h {
        InterruptHandler::DivisionError | InterruptHandler::NonMaskableInterrupt | InterruptHandler::Overflow | InterruptHandler::BoundRangeExceeded | InterruptHandler::InvalidOpcode | InterruptHandler::DeviceNotAvailable | InterruptHandler::DoubleFault | InterruptHandler::InvalidTss | InterruptHandler::SegmentNotPresent | InterruptHandler::StackSegmentFault | InterruptHandler::GeneralProtectionFault | InterruptHandler::PageFault | InterruptHandler::X87FloatingPoint | InterruptHandler::AlignmentCheck | InterruptHandler::MachineCheck | InterruptHandler::SimdFloatingPoint | InterruptHandler::Virtualization | InterruptHandler::SecurityException => true,
        _ => false,
    }
}

/// The handler the kernel installs at `vector`.
pub open spec fn kernel_handler(vector: int) -> Option<InterruptHandler> {
    if vector == 0 {
        Some(InterruptHandler::DivisionError)
    } else if vector == 1 {
        Some(InterruptHandler::Debug)
    } else if vector == 2 {
        Some(InterruptHandler::NonMaskableInterrupt)
    } else if vector == 3 {
        Some(InterruptHandler::Breakpoint)
    } else if vector == 4 {
        Some(InterruptHandler::Overflow)
    } else if vector == 5 {
        Some(InterruptHandler::BoundRangeExceeded)
    } else if vector == 6 {
        Some(InterruptHandler::InvalidOpcode)
    } else if vector == 7 {
        Some(InterruptHandler::DeviceNotAvailable)
    } else if vector == 8 {
        Some(InterruptHandler::DoubleFault)
    } else if vector == 10 {
        Some(InterruptHandler::InvalidTss)
    } else if vector == 11 {
        Some(InterruptHandler::SegmentNotPresent)
    } else if vector == 12 {
        Some(InterruptHandler::StackSegmentFault)
    } else if vector == 13 {
        Some(InterruptHandler::GeneralProtectionFault)
    } else if vector == 14 {
        Some(InterruptHandler::PageFault)
    } else if vector == 16 {
        Some(InterruptHandler::X87FloatingPoint)
    } else if vector == 17 {
        Some(InterruptHandler::AlignmentCheck)
    } else if vector == 18 {
        Some(InterruptHandler::MachineCheck)
    } else if vector == 19 {
        Some(InterruptHandler::SimdFloatingPoint)
    } else if vector == 20 {
        Some(InterruptHandler::Virtualization)
    } else if vector == 30 {
        Some(InterruptHandler::SecurityException)
    } else if vector == 32 {
        Some(InterruptHandler::Timer)
    } else if vector == 33 {
        Some(InterruptHandler::Keyboard)
    } else if vector == 34 {
        Some(InterruptHandler::Cascade)
    } else if vector == 35 {
        Some(InterruptHandler::Com2)
    } else if vector == 36 {
        Some(InterruptHandler::Com1)
    } else if vector == 37 {
        Some(InterruptHandler::Lpt2)
    } else if vector == 38 {
        Some(InterruptHandler::Floppy)
    } else if vector == 39 {
        Some(InterruptHandler::Lpt1)
    } else if vector == 40 {
        Some(InterruptHandler::Rtc)
    } else if vector == 41 {
        Some(InterruptHandler::Pci1)
    } else if vector == 42 {
        Some(InterruptHandler::Pci2)
    } else if vector == 43 {
        Some(InterruptHandler::Mouse)
    } else if vector == 44 {
        Some(InterruptHandler::Coprocessor)
    } else if vector == 45 {
        Some(InterruptHandler::Ide1)
    } else if vector == 46 {
        Some(InterruptHandler::Ide2)
    } else if vector == 47 {
        Some(InterruptHandler::Irq15)
    } else {
        None
    }
}

/// Every hardware interrupt line of the two PICs, IRQ 0 to 15 at vectors
/// 32 to 47, has a handler, and none of them stops the kernel.
pub proof fn lemma_every_irq_handled(vector: int)
    requires
        32 <= vector <= 47,
    ensures
        kernel_handler(vector) is Some,
        !handler_is_fatal(kernel_handler(vector)->0),
{
}

/// The kernel's interrupt descriptor table.
pub struct IdtWrapper {
    /// The handler of each vector.
    table: Vec<Option<InterruptHandler>>,
}

impl IdtWrapper {
    /// The handler of each vector.
    pub closed spec fn view(&self) -> Seq<Option<InterruptHandler>> {
        self.table@
    }

    /// A table with every exception and hardware interrupt handler
    /// installed.
    pub fn new() -> (r: Self)
        ensures
            r@.len() == IDT_ENTRIES,
            forall|v: int| 0 <= v < IDT_ENTRIES ==> #[trigger] r@[v] == kernel_handler(v),
    {
        let mut table: Vec<Option<InterruptHandler>> = Vec::new();
        let mut i: usize = 0;
        while i < IDT_ENTRIES
            invariant
                i <= IDT_ENTRIES,
                table@.len() == i,
                forall|j: int| 0 <= j < i ==> #[trigger] table@[j] == None::<InterruptHandler>,
            decreases IDT_ENTRIES - i,
        {
            table.push(None);
            i = i + 1;
        }
        table.set(0, Some(InterruptHandler::DivisionError));
        table.set(1, Some(InterruptHandler::Debug));
        table.set(2, Some(InterruptHandler::NonMaskableInterrupt));
        table.set(3, Some(InterruptHandler::Breakpoint));
        table.set(4, Some(InterruptHandler::Overflow));
        table.set(5, Some(InterruptHandler::BoundRangeExceeded));
        table.set(6, Some(InterruptHandler::InvalidOpcode));
        table.set(7, Some(InterruptHandler::DeviceNotAvailable));
        table.set(8, Some(InterruptHandler::DoubleFault));
        table.set(10, Some(InterruptHandler::InvalidTss));
        table.set(11, Some(InterruptHandler::SegmentNotPresent));
        table.set(12, Some(InterruptHandler::StackSegmentFault));
        table.set(13, Some(InterruptHandler::GeneralProtectionFault));
        table.set(14, Some(InterruptHandler::PageFault));
        table.set(16, Some(InterruptHandler::X87FloatingPoint));
        table.set(17, Some(InterruptHandler::AlignmentCheck));
        table.set(18, Some(InterruptHandler::MachineCheck));
        table.set(19, Some(InterruptHandler::SimdFloatingPoint));
        table.set(20, Some(InterruptHandler::Virtualization));
        table.set(30, Some(InterruptHandler::SecurityException));
        table.set(32, Some(InterruptHandler::Timer));
        table.set(33, Some(InterruptHandler::Keyboard));
        table.set(34, Some(InterruptHandler::Cascade));
        table.set(35, Some(InterruptHandler::Com2));
        table.set(36, Some(InterruptHandler::Com1));
        table.set(37, Some(InterruptHandler::Lpt2));
        table.set(38, Some(InterruptHandler::Floppy));
        table.set(39, Some(InterruptHandler::Lpt1));
        table.set(40, Some(InterruptHandler::Rtc));
        table.set(41, Some(InterruptHandler::Pci1));
        table.set(42, Some(InterruptHandler::Pci2));
        table.set(43, Some(InterruptHandler::Mouse));
        table.set(44, Some(InterruptHandler::Coprocessor));
        table.set(45, Some(InterruptHandler::Ide1));
        table.set(46, Some(InterruptHandler::Ide2));
        table.set(47, Some(InterruptHandler::Irq15));
        let r = IdtWrapper { table };
        assert forall|v: int| 0 <= v < IDT_ENTRIES implies #[trigger] r@[v] == kernel_handler(v) by {}
        r
    }

    /// The handler installed at `vector`.
    pub fn handler(&self, vector: u8) -> (r: Option<InterruptHandler>)
        requires
            self@.len() == IDT_ENTRIES,
        ensures
            r == self@[vector as int],
    {
        self.table[vector as usize]
    }
}

} // verus!
