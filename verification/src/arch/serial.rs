//! The 16550 serial port: its registers, its setup and how text is sent.

use vstd::prelude::*;

verus! {

/// Base port of COM1.
pub const COM1: u16 = 0x3F8;

/// Line status bit: a byte was received.
pub const LSR_DATA_READY: u8 = 0x01;

/// Line status bit: the transmitter holding register is empty.
pub const LSR_TRANSMIT_EMPTY: u8 = 0x20;

/// The register ports of a serial port at a base port.
#[derive(Debug, Clone, Copy, PartialEq, Eq, Structural)]
pub struct SerialPort {
    pub data: u16,
    pub interrupt_enable: u16,
    pub fifo_control: u16,
    pub line_control: u16,
    pub modem_control: u16,
    pub line_status: u16,
}

/// The writes that set up a serial port: interrupts off, divisor 1 through
/// DLAB, 8N1, FIFO on, RTS/DSR set.
pub open spec fn init_writes(p: SerialPort) -> Seq<(u16, u8)> {
    seq![
        (p.interrupt_enable, 0x00u8),
        (p.line_control, 0x80u8),
        (p.data, 0x01u8),
        (p.interrupt_enable, 0x00u8),
        (p.line_control, 0x03u8),
        (p.fifo_control, 0xC7u8),
        (p.modem_control, 0x0Bu8),
    ]
}

/// The bytes sent for `s`: each newline goes out as carriage return and
/// newline.
pub open spec fn encoded(s: Seq<u8>) -> Seq<u8>
    decreases s.len(),
{
    if s.len() == 0 {
        Seq::empty()
    } else {
        let rest = encoded(s.drop_last());
        if s.last() == 10u8 {
            rest + seq![13u8, 10u8]
        } else {
            rest.push(s.last())
        }
    }
}

impl SerialPort {
    /// The serial port whose registers start at `base_port`.
    pub fn new(base_port: u16) -> (r: Self)
        requires
            base_port <= u16::MAX - 5,
        ensures
            r.data == base_port,
            r.interrupt_enable == base_port + 1,
            r.fifo_control == base_port + 2,
            r.line_control == base_port + 3,
            r.modem_control == base_port + 4,
            r.line_status == base_port + 5,
    {
        SerialPort {
            data: base_port,
            interrupt_enable: base_port + 1,
            fifo_control: base_port + 2,
            line_control: base_port + 3,
            modem_control: base_port + 4,
            line_status: base_port + 5,
        }
    }

    /// The port writes, in order, that set the port up.
    pub fn init_sequence(&self) -> (r: Vec<(u16, u8)>)
        ensures
            r@ == init_writes(*self),
    {
        let mut v: Vec<(u16, u8)> = Vec::new();
        v.push((self.interrupt_enable, 0x00));
        v.push((self.line_control, 0x80));
        v.push((self.data, 0x01));
        v.push((self.interrupt_enable, 0x00));
        v.push((self.line_control, 0x03));
        v.push((self.fifo_control, 0xC7));
        v.push((self.modem_control, 0x0B));
        assert(v@ =~= init_writes(*self));
        v
    }
}

/// Whether a line status says the transmitter can take a byte.
pub fn transmit_empty(status: u8) -> (r: bool)
    ensures
        r == (status & LSR_TRANSMIT_EMPTY != 0),
{
    status & LSR_TRANSMIT_EMPTY != 0
}

/// Whether a line status says a byte was received.
pub fn data_ready(status: u8) -> (r: bool)
    ensures
        r == (status & LSR_DATA_READY != 0),
{
    status & LSR_DATA_READY != 0
}

/// The bytes to send for `s`.
pub fn encode_text(s: &[u8]) -> (r: Vec<u8>)
    ensures
        r@ == encoded(s@),
{
    let mut out: Vec<u8> = Vec::new();
    let mut i: usize = 0;
    while i < s.len()
        invariant
            i <= s@.len(),
            out@ == encoded(s@.take(i as int)),
        decreases s@.len() - i,
    {
        let b = s[i];
        assert(s@.take(i + 1).drop_last() =~= s@.take(i as int));
        if b == 10 {
            out.push(13);
            out.push(10);
            assert(out@ =~= encoded(s@.take(i as int)) + seq![13u8, 10u8]);
        } else {
            out.push(b);
        }
        i = i + 1;
    }
    assert(s@.take(s@.len() as int) =~= s@);
    out
}

} // verus!
