use kernel_core::gdt::{kernel_gdt, table_limit, GdtEntry, GDT_ENTRIES};
use kernel_core::idt::{
    handle_syscall, sys_getpid, IdtEntry, InterruptStackFrame, Registers, WriteRequest, IDT_SIZE,
    INTERRUPT_GATE,
};
use kernel_core::pic::{irq1_unmasked, remap_sequence};
use kernel_core::port::PortWrite;

fn encode(e: &GdtEntry) -> u64 {
    (e.limit_low as u64)
        | (e.base_low as u64) << 16
        | (e.base_mid as u64) << 32
        | (e.access as u64) << 40
        | (e.flags_limit as u64) << 48
        | (e.base_high as u64) << 56
}

fn regs(eax: u32, ebx: u32, ecx: u32, edx: u32) -> Registers {
    Registers {
        edi: 1,
        esi: 2,
        ebp: 3,
        esp_dummy: 4,
        ebx,
        edx,
        ecx,
        eax,
        int_no: 0x80,
        err_code: 0,
        eip: 0x1234,
        cs: 8,
        eflags: 0x202,
    }
}

#[test]
fn flat_code_segment_has_the_usual_encoding() {
    let e = GdtEntry::new(0, 0xFFFFF, 0x9A, 0xC);
    assert_eq!(encode(&e), 0x00CF_9A00_0000_FFFF);
    let d = GdtEntry::new(0, 0xFFFFF, 0x92, 0xC);
    assert_eq!(encode(&d), 0x00CF_9200_0000_FFFF);
}

#[test]
fn descriptor_fields_split_base_and_limit() {
    let e = GdtEntry::new(0x1234_5678, 0xABCDE, 0x92, 0x4);
    assert_eq!(e.base_low, 0x5678);
    assert_eq!(e.base_mid, 0x34);
    assert_eq!(e.base_high, 0x12);
    assert_eq!(e.limit_low, 0xBCDE);
    assert_eq!(e.flags_limit, 0x4A);
    assert_eq!(e.access, 0x92);
    // bits above the 20-bit limit and the 4-bit flags are dropped
    let f = GdtEntry::new(0, 0xFFF_FFFF, 0, 0xFF);
    assert_eq!(f.flags_limit, 0xFF);
    assert_eq!(f.limit_low, 0xFFFF);
    let g = GdtEntry::new(0, 0x10_0000, 0, 0x10);
    assert_eq!(g.flags_limit, 0);
    assert_eq!(g.limit_low, 0);
}

#[test]
fn kernel_table_has_null_kernel_and_user_segments() {
    let t = kernel_gdt();
    assert_eq!(t.len(), GDT_ENTRIES);
    assert_eq!(encode(&t[0]), 0);
    let expected = [
        0x00CF_9A00_0000_FFFFu64,
        0x00CF_9200_0000_FFFF,
        0x00CF_9200_0000_FFFF,
        0x00CF_FA00_0000_FFFF,
        0x00CF_F200_0000_FFFF,
        0x00CF_F200_0000_FFFF,
    ];
    for (i, want) in expected.iter().enumerate() {
        assert_eq!(encode(&t[i + 1]), *want);
    }
}

#[test]
fn table_limits_are_size_minus_one() {
    assert_eq!(table_limit(GDT_ENTRIES), 55);
    assert_eq!(table_limit(IDT_SIZE), 2047);
    assert_eq!(table_limit(1), 7);
    assert_eq!(table_limit(8192), 0xFFFF);
}

#[test]
fn interrupt_gate_splits_the_handler_address() {
    let e = IdtEntry::new(0xDEAD_BEEF, INTERRUPT_GATE);
    assert_eq!(e.offset_low, 0xBEEF);
    assert_eq!(e.offset_high, 0xDEAD);
    assert_eq!(e.selector, 0x08);
    assert_eq!(e.zero, 0);
    assert_eq!(e.type_attr, 0x8E);
    let m = IdtEntry::missing();
    assert_eq!(
        m,
        IdtEntry { offset_low: 0, selector: 0x08, zero: 0, type_attr: 0, offset_high: 0 }
    );
}

#[test]
fn getpid_reports_a_fixed_pid() {
    assert_eq!(sys_getpid(), 42);
    let mut r = regs(1, 0, 0, 0);
    assert_eq!(handle_syscall(&mut r), None);
    assert_eq!(r, Registers { eax: 42, ..regs(1, 0, 0, 0) });
}

#[test]
fn write_is_handed_back_and_returns_its_length() {
    let mut r = regs(0, 1, 0x5000, 20);
    assert_eq!(handle_syscall(&mut r), Some(WriteRequest { fd: 1, ptr: 0x5000, len: 20 }));
    assert_eq!(r, Registers { eax: 20, ..regs(0, 1, 0x5000, 20) });
}

#[test]
fn unknown_syscall_returns_minus_one() {
    let mut r = regs(99, 5, 6, 7);
    assert_eq!(handle_syscall(&mut r), None);
    assert_eq!(r.eax, 0xFFFF_FFFF);
    assert_eq!(r, Registers { eax: 0xFFFF_FFFF, ..regs(99, 5, 6, 7) });
    let mut s = regs(2, 0, 0, 0);
    handle_syscall(&mut s);
    assert_eq!(s.eax, 0xFFFF_FFFF);
}

#[test]
fn stack_frame_is_plain_data() {
    let f = InterruptStackFrame { eip: 1, cs: 8, eflags: 0x202, esp: 0x9000, ss: 0x10 };
    let g = f;
    assert_eq!(f, g);
}

#[test]
fn pic_remap_sequence() {
    let w = remap_sequence();
    let expected: Vec<PortWrite> = [
        (0x20u16, 0x11u8),
        (0xA0, 0x11),
        (0x21, 0x20),
        (0xA1, 0x28),
        (0x21, 0x04),
        (0xA1, 0x02),
        (0x21, 0x01),
        (0xA1, 0x01),
        (0x21, 0xFF),
        (0xA1, 0xFF),
    ]
    .iter()
    .map(|&(port, value)| PortWrite { port, value })
    .collect();
    assert_eq!(w, expected);
}

#[test]
fn unmasking_irq1_clears_only_bit_one() {
    assert_eq!(irq1_unmasked(0xFF), 0xFD);
    assert_eq!(irq1_unmasked(0x02), 0x00);
    assert_eq!(irq1_unmasked(0x00), 0x00);
    assert_eq!(irq1_unmasked(0xFD), 0xFD);
    assert_eq!(irq1_unmasked(0x05), 0x05);
}

#[test]
fn descriptor_decodes_back_to_its_inputs() {
    for &(base, limit, access, flags) in &[
        (0u32, 0u32, 0u8, 0u8),
        (0x1234_5678, 0xABCDE, 0x92, 0x4),
        (0xFFFF_FFFF, 0xFFFFF, 0xFF, 0xF),
        (0x0080_0000, 0x00FFF, 0x9A, 0xC),
    ] {
        let e = GdtEntry::new(base, limit, access, flags);
        let b = e.base_low as u32 | (e.base_mid as u32) << 16 | (e.base_high as u32) << 24;
        let l = e.limit_low as u32 | ((e.flags_limit & 0x0F) as u32) << 16;
        assert_eq!(b, base);
        assert_eq!(l, limit);
        assert_eq!(e.flags_limit >> 4, flags);
        assert_eq!(e.access, access);
    }
}

#[test]
fn gate_decodes_back_to_its_handler() {
    for addr in [0u32, 1, 0xFFFF, 0x1_0000, 0x0010_2030, 0xFFFF_FFFF] {
        let e = IdtEntry::new(addr, INTERRUPT_GATE);
        assert_eq!(e.offset_low as u32 | (e.offset_high as u32) << 16, addr);
    }
}
