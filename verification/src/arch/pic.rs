//! The 8259 programmable interrupt controllers: which port gets which
//! byte.

use vstd::prelude::*;

verus! {

/// Command port of the master PIC.
pub const PIC1_COMMAND: u16 = 0x20;
/// Data port of the master PIC.
pub const PIC1_DATA: u16 = 0x21;
/// Command port of the slave PIC.
pub const PIC2_COMMAND: u16 = 0xA0;
/// Data port of the slave PIC.
pub const PIC2_DATA: u16 = 0xA1;
/// Start initialization.
pub const ICW1_INIT: u8 = 0x11;
/// ICW4 will follow.
pub const ICW1_ICW4: u8 = 0x01;
/// 8086 mode.
pub const ICW4_8086: u8 = 0x01;
/// Automatic end of interrupt.
pub const ICW4_AUTO: u8 = 0x02;
/// End-of-interrupt command.
pub const PIC_EOI: u8 = 0x20;

/// The writes that remap the PICs to vectors 0x20-0x27 and 0x28-0x2F and
/// mask every line: initialization, offsets, cascading, 8086 mode, masks.
pub open spec fn remap_writes() -> Seq<(u16, u8)> {
    seq![
        (PIC1_COMMAND, 0x11u8),
        (PIC2_COMMAND, 0x11u8),
        (PIC1_DATA, 0x20u8),
        (PIC2_DATA, 0x28u8),
        (PIC1_DATA, 4u8),
        (PIC2_DATA, 2u8),
        (PIC1_DATA, ICW4_8086),
        (PIC2_DATA, ICW4_8086),
        (PIC1_DATA, 0xffu8),
        (PIC2_DATA, 0xffu8),
    ]
}

/// The port writes, in order, that remap the PICs.
pub fn remap_sequence() -> (r: Vec<(u16, u8)>)
    ensures
        r@ == remap_writes(),
{
    let init: u8 = ICW1_INIT | ICW1_ICW4;
    assert(init == 0x11) by (bit_vector)
        requires
            init == 0x11u8 | 0x01u8,
    ;
    let mut v: Vec<(u16, u8)> = Vec::new();
    v.push((PIC1_COMMAND, init));
    v.push((PIC2_COMMAND, init));
    v.push((PIC1_DATA, 0x20));
    v.push((PIC2_DATA, 0x28));
    v.push((PIC1_DATA, 4));
    v.push((PIC2_DATA, 2));
    v.push((PIC1_DATA, ICW4_8086));
    v.push((PIC2_DATA, ICW4_8086));
    v.push((PIC1_DATA, 0xff));
    v.push((PIC2_DATA, 0xff));
    assert(v@ =~= remap_writes());
    v
}

/// The data port holding the mask bit of IRQ line `irq`, with the bit's
/// position; none for lines beyond 15.
pub open spec fn irq_line(irq: u8) -> Option<(u16, u8)> {
    if irq < 8 {
        Some((PIC1_DATA, irq))
    } else if irq < 16 {
        Some((PIC2_DATA, (irq - 8) as u8))
    } else {
        None
    }
}

/// The mask port and bit of IRQ line `irq`.
pub fn irq_mask_port(irq: u8) -> (r: Option<(u16, u8)>)
    ensures
        r == irq_line(irq),
{
    if irq < 8 {
        Some((PIC1_DATA, irq))
    } else if irq < 16 {
        Some((PIC2_DATA, irq - 8))
    } else {
        None
    }
}

/// The mask `value` with bit `bit` cleared: the line is unmasked.
pub fn unmask_bit(value: u8, bit: u8) -> (r: u8)
    requires
        bit < 8,
    ensures
        r == value & !(1u8 << bit),
        r & (1u8 << bit) == 0,
{
    let r = value & !(1u8 << bit);
    assert(r & (1u8 << bit) == 0) by (bit_vector)
        requires
            r == value & !(1u8 << bit),
            bit < 8,
    ;
    r
}

/// The mask `value` with bit `bit` set: the line is masked.
pub fn mask_bit(value: u8, bit: u8) -> (r: u8)
    requires
        bit < 8,
    ensures
        r == value | (1u8 << bit),
        r & (1u8 << bit) != 0,
{
    let r = value | (1u8 << bit);
    assert(r & (1u8 << bit) != 0) by (bit_vector)
        requires
            r == value | (1u8 << bit),
            bit < 8,
    ;
    r
}

/// The command ports that get an end-of-interrupt for line `irq`: the slave
/// first for lines from 8 on, then always the master.
pub open spec fn eoi_targets(irq: u8) -> Seq<u16> {
    if irq >= 8 {
        seq![PIC2_COMMAND, PIC1_COMMAND]
    } else {
        seq![PIC1_COMMAND]
    }
}

/// The command ports, in order, to send an end of interrupt for `irq`.
pub fn eoi_ports(irq: u8) -> (r: Vec<u16>)
    ensures
        r@ == eoi_targets(irq),
{
    let mut v: Vec<u16> = Vec::new();
    if irq >= 8 {
        v.push(PIC2_COMMAND);
    }
    v.push(PIC1_COMMAND);
    assert(v@ =~= eoi_targets(irq));
    v
}

/// Masking a line and then unmasking it leaves the other lines as they were
/// and the line unmasked; the two undo each other on the line's bit.
pub proof fn lemma_mask_unmask(value: u8, bit: u8)
    requires
        bit < 8,
    ensures
        ((value | (1u8 << bit)) & !(1u8 << bit)) == value & !(1u8 << bit),
        ((value & !(1u8 << bit)) | (1u8 << bit)) == value | (1u8 << bit),
{
    assert(((value | (1u8 << bit)) & !(1u8 << bit)) == value & !(1u8 << bit)) by (bit_vector)
        requires
            bit < 8,
    ;
    assert(((value & !(1u8 << bit)) | (1u8 << bit)) == value | (1u8 << bit)) by (bit_vector)
        requires
            bit < 8,
    ;
}

} // verus!
