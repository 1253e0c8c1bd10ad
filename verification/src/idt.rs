use vstd::prelude::*;

verus! {

/// Code segment selector of the kernel (descriptor 1 of the GDT).
pub const KERNEL_CODE_SELECTOR: u16 = 0x08;

/// Type byte of a present 32-bit ring-0 interrupt gate.
pub const INTERRUPT_GATE: u8 = 0x8E;

/// Number of vectors in the interrupt descriptor table.
pub const IDT_SIZE: usize = 256;

/// System call number of `write`.
pub const SYS_WRITE: u32 = 0;

/// System call number of `getpid`.
pub const SYS_GETPID: u32 = 1;

/// What an unknown system call returns (-1 as an unsigned word).
pub const SYSCALL_ERROR: u32 = 0xFFFF_FFFF;

/// The frame the CPU pushes when it enters an interrupt handler.
#[derive(Debug, Clone, Copy, PartialEq, Eq, Structural)]
pub struct InterruptStackFrame {
    pub eip: u32,
    pub cs: u32,
    pub eflags: u32,
    pub esp: u32,
    pub ss: u32,
}

/// The register frame the interrupt stubs build, low address first: the
/// general registers saved by `pusha`, the vector and error code pushed by the
/// stub, then what the CPU pushed.
#[derive(Debug, Clone, Copy, PartialEq, Eq, Structural)]
pub struct Registers {
    pub edi: u32,
    pub esi: u32,
    pub ebp: u32,
    pub esp_dummy: u32,
    pub ebx: u32,
    pub edx: u32,
    pub ecx: u32,
    pub eax: u32,
    pub int_no: u32,
    pub err_code: u32,
    pub eip: u32,
    pub cs: u32,
    pub eflags: u32,
}

/// An interrupt gate descriptor, field by field in the order the CPU reads them.
#[derive(Debug, Clone, Copy, PartialEq, Eq, Structural)]
pub struct IdtEntry {
    /// handler address bits 0..16
    pub offset_low: u16,
    /// code segment selector
    pub selector: u16,
    /// always 0
    pub zero: u8,
    /// gate type, privilege level and present bit
    pub type_attr: u8,
    /// handler address bits 16..32
    pub offset_high: u16,
}

/// The interrupt gate pointing at `handler`, with attribute byte `type_attr`,
/// running in the kernel code segment.
pub open spec fn idt_entry(handler: u32, type_attr: u8) -> IdtEntry {
    IdtEntry {
        offset_low: (handler % 0x1_0000) as u16,
        selector: KERNEL_CODE_SELECTOR,
        zero: 0,
        type_attr,
        offset_high: (handler / 0x1_0000) as u16,
    }
}

/// The handler address a gate points to.
pub open spec fn gate_address(e: IdtEntry) -> int {
    e.offset_low + e.offset_high * 0x1_0000
}

impl IdtEntry {
    /// Splits the handler address over the two offset fields.
    pub fn new(handler: u32, type_attr: u8) -> (e: IdtEntry)
        ensures
            e == idt_entry(handler, type_attr),
    {
        assert((handler & 0xFFFF) as u16 == handler % 0x1_0000) by (bit_vector);
        assert(((handler >> 16u32) & 0xFFFF) as u16 == handler / 0x1_0000) by (bit_vector);
        IdtEntry {
            offset_low: (handler & 0xFFFF) as u16,
            selector: KERNEL_CODE_SELECTOR,
            zero: 0,
            type_attr,
            offset_high: ((handler >> 16u32) & 0xFFFF) as u16,
        }
    }

    /// An unused vector: the present bit is clear.
    pub fn missing() -> (e: IdtEntry)
        ensures
            e == idt_entry(0, 0),
    {
        IdtEntry::new(0, 0)
    }
}

/// A gate points back at the handler address it was built from.
pub proof fn law_idt_entry_round_trip(handler: u32, type_attr: u8)
    ensures
        gate_address(idt_entry(handler, type_attr)) == handler,
        idt_entry(handler, type_attr).type_attr == type_attr,
{
}

/// A `write` system call the caller still has to carry out: print `len` bytes
/// starting at address `ptr` (the descriptor `fd` is not used).
#[derive(Debug, Clone, Copy, PartialEq, Eq, Structural)]
pub struct WriteRequest {
    pub fd: u32,
    pub ptr: u32,
    pub len: u32,
}

/// The process id `getpid` reports; there are no processes yet.
pub fn sys_getpid() -> (pid: u32)
    ensures
        pid == 42,
{
    42
}

/// The value a system call returns in `eax`: the byte count for `write`
/// (number in `eax`, length in `edx`), 42 for `getpid`, -1 for anything else.
pub open spec fn syscall_result(regs: Registers) -> u32 {
    if regs.eax == SYS_WRITE {
        regs.edx
    } else if regs.eax == SYS_GETPID {
        42
    } else {
        SYSCALL_ERROR
    }
}

/// Dispatches the system call in the saved registers (number in `eax`, arguments in
/// `ebx`, `ecx`, `edx`) and stores its result in `eax`, the register the caller
/// reads back. A `write` is handed back to the caller, who prints the bytes.
pub fn handle_syscall(regs: &mut Registers) -> (req: Option<WriteRequest>)
    ensures
        *final(regs) == (Registers { eax: syscall_result(*old(regs)), ..*old(regs) }),
        req == (if old(regs).eax == SYS_WRITE {
            Some(WriteRequest { fd: old(regs).ebx, ptr: old(regs).ecx, len: old(regs).edx })
        } else {
            None
        }),
{
    let syscall_num = regs.eax;
    let arg1 = regs.ebx;
    let arg2 = regs.ecx;
    let arg3 = regs.edx;
    let (ret, req) = match syscall_num {
        0 => (arg3, Some(WriteRequest { fd: arg1, ptr: arg2, len: arg3 })),
        1 => (sys_getpid(), None),
        _ => (SYSCALL_ERROR, None),
    };
    regs.eax = ret;
    req
}

/// The system call numbers: 0 is `write`, which returns the length it was given in
/// `edx`; 1 is `getpid`, which returns 42; every other number returns -1
/// (`0xFFFF_FFFF`). Only `write` is handed back to be carried out.
pub proof fn law_syscall_numbers(regs: Registers)
    ensures
        regs.eax == 0 ==> syscall_result(regs) == regs.edx,
        regs.eax == 1 ==> syscall_result(regs) == 42,
        regs.eax > 1 ==> syscall_result(regs) == 0xFFFF_FFFF,
{
}

} // verus!
