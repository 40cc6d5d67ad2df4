use aurora_kernel::arch::cpu::CpuFeatures;
use aurora_kernel::arch::gdt::GdtWrapper;
use aurora_kernel::arch::idt::{is_fatal, IdtWrapper, InterruptHandler};
use aurora_kernel::arch::pic::{eoi_ports, irq_mask_port, mask_bit, remap_sequence, unmask_bit};
use aurora_kernel::arch::serial::{data_ready, encode_text, transmit_empty, SerialPort, COM1};
use aurora_kernel::arch::{cpu_id, in_interrupt};

#[test]
fn cpu_features_from_registers() {
    let f = CpuFeatures::from_cpuid(1 << 28 | 1, 1 << 25 | 1 << 26, 1 << 5, 1, 1 << 20);
    assert!(f.has_sse());
    assert!(f.has_avx());
    assert!(f.has_nx());
    assert!(f.sse3);
    assert!(f.lahf_sahf);
    assert!(!f.tsc);
    let h = CpuFeatures::from_cpuid(1, 0, 0, 0, 0);
    assert!(h.sse3);
    assert!(!h.lahf_sahf);
    assert!(!h.has_nx());
    let g = CpuFeatures::from_cpuid(0, 1 << 25, 0, 0, 0);
    assert!(!g.has_sse());
    assert!(!g.has_avx());
    assert!(!g.has_nx());
}

#[test]
fn pic_remap_sequence() {
    assert_eq!(
        remap_sequence(),
        vec![
            (0x20, 0x11),
            (0xA0, 0x11),
            (0x21, 0x20),
            (0xA1, 0x28),
            (0x21, 4),
            (0xA1, 2),
            (0x21, 1),
            (0xA1, 1),
            (0x21, 0xff),
            (0xA1, 0xff),
        ]
    );
}

#[test]
fn pic_masks() {
    assert_eq!(irq_mask_port(3), Some((0x21, 3)));
    assert_eq!(irq_mask_port(12), Some((0xA1, 4)));
    assert_eq!(irq_mask_port(16), None);
    assert_eq!(unmask_bit(0xff, 3), 0xf7);
    assert_eq!(mask_bit(0x00, 7), 0x80);
    assert_eq!(eoi_ports(3), vec![0x20]);
    assert_eq!(eoi_ports(9), vec![0xA0, 0x20]);
}

#[test]
fn serial_registers_and_text() {
    let p = SerialPort::new(COM1);
    assert_eq!(p.line_status, 0x3FD);
    assert_eq!(p.data, 0x3F8);
    assert_eq!(p.init_sequence()[0], (0x3F9, 0x00));
    assert_eq!(p.init_sequence()[5], (0x3FA, 0xC7));
    assert_eq!(encode_text(b"a\nb\n"), b"a\r\nb\r\n".to_vec());
    assert!(transmit_empty(0x60));
    assert!(!transmit_empty(0x01));
    assert!(data_ready(0x01));
    assert!(!data_ready(0x20));
}

#[test]
fn idt_vectors() {
    let idt = IdtWrapper::new();
    assert_eq!(idt.handler(0), Some(InterruptHandler::DivisionError));
    assert_eq!(idt.handler(14), Some(InterruptHandler::PageFault));
    assert_eq!(idt.handler(15), None);
    assert_eq!(idt.handler(32), Some(InterruptHandler::Timer));
    assert_eq!(idt.handler(46), Some(InterruptHandler::Ide2));
    assert_eq!(idt.handler(47), Some(InterruptHandler::Irq15));
    assert_eq!(idt.handler(48), None);
    assert!(!is_fatal(InterruptHandler::Irq15));
    assert!(is_fatal(InterruptHandler::DoubleFault));
    assert!(!is_fatal(InterruptHandler::Breakpoint));
    assert!(!is_fatal(InterruptHandler::Keyboard));
}

#[test]
fn cpu_state() {
    assert_eq!(cpu_id(), 0);
    assert!(!in_interrupt());
}

#[test]
fn mask_then_unmask_restores_line() {
    let v = 0x5a;
    assert_eq!(unmask_bit(mask_bit(v, 0), 0), v & !1);
    assert_eq!(mask_bit(unmask_bit(v, 3), 3), v | (1 << 3));
}

#[test]
fn gdt_layout() {
    let gdt = GdtWrapper::new();
    assert_eq!(gdt.kernel_code_selector(), 0x08);
    assert_eq!(gdt.kernel_data_selector(), 0x10);
    let raw: Vec<u64> = gdt.table().entries().iter().map(|e| e.raw()).collect();
    assert_eq!(
        raw,
        vec![0, 0x00af9b000000ffff, 0x00cf93000000ffff, 0x00affb000000ffff, 0x00cff3000000ffff]
    );
}
