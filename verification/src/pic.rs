use vstd::prelude::*;
use crate::port::PortWrite;

verus! {

/// Command port of the master 8259 PIC.
pub const PIC1_CMD: u16 = 0x20;

/// Data port of the master 8259 PIC.
pub const PIC1_DATA: u16 = 0x21;

/// Command port of the slave 8259 PIC.
pub const PIC2_CMD: u16 = 0xA0;

/// Data port of the slave 8259 PIC.
pub const PIC2_DATA: u16 = 0xA1;

/// ICW1: start initialisation, an ICW4 follows.
pub const ICW1_INIT: u8 = 0x11;

/// ICW4: 8086/88 mode.
pub const ICW4_8086: u8 = 0x01;

/// The initialisation sequence: ICW1 to both PICs, vector offsets 0x20 (master)
/// and 0x28 (slave), the cascade wiring (slave on IRQ2, cascade identity 2),
/// 8086 mode, and finally every IRQ masked.
pub open spec fn remap_spec() -> Seq<PortWrite> {
    seq![
        PortWrite { port: PIC1_CMD, value: ICW1_INIT },
        PortWrite { port: PIC2_CMD, value: ICW1_INIT },
        PortWrite { port: PIC1_DATA, value: 0x20 },
        PortWrite { port: PIC2_DATA, value: 0x28 },
        PortWrite { port: PIC1_DATA, value: 0x04 },
        PortWrite { port: PIC2_DATA, value: 0x02 },
        PortWrite { port: PIC1_DATA, value: ICW4_8086 },
        PortWrite { port: PIC2_DATA, value: ICW4_8086 },
        PortWrite { port: PIC1_DATA, value: 0xFF },
        PortWrite { port: PIC2_DATA, value: 0xFF },
    ]
}

/// The port writes that remap the two PICs, in the order they must be sent.
pub fn remap_sequence() -> (w: Vec<PortWrite>)
    ensures
        w@ == remap_spec(),
{
    let mut w: Vec<PortWrite> = Vec::new();
    // ICW1: start initialisation on both PICs
    w.push(PortWrite { port: PIC1_CMD, value: ICW1_INIT });
    w.push(PortWrite { port: PIC2_CMD, value: ICW1_INIT });
    // ICW2: vector offsets, master IRQs -> 0x20, slave -> 0x28
    w.push(PortWrite { port: PIC1_DATA, value: 0x20 });
    w.push(PortWrite { port: PIC2_DATA, value: 0x28 });
    // ICW3: slave on IRQ2, slave cascade identity
    w.push(PortWrite { port: PIC1_DATA, value: 0x04 });
    w.push(PortWrite { port: PIC2_DATA, value: 0x02 });
    // ICW4: 8086 mode
    w.push(PortWrite { port: PIC1_DATA, value: ICW4_8086 });
    w.push(PortWrite { port: PIC2_DATA, value: ICW4_8086 });
    // mask every IRQ for now
    w.push(PortWrite { port: PIC1_DATA, value: 0xFF });
    w.push(PortWrite { port: PIC2_DATA, value: 0xFF });
    proof {
        assert(w@ =~= remap_spec());
    }
    w
}

/// Bit `i` of a byte.
pub open spec fn bit(v: u8, i: u8) -> bool {
    (v >> i) & 1 == 1
}

/// The master PIC's mask with IRQ1 (the keyboard) enabled: bit 1 cleared.
pub fn irq1_unmasked(mask: u8) -> (m: u8)
    ensures
        m == mask & !0x02u8,
{
    mask & !0x02u8
}

/// Unmasking IRQ1 clears bit 1 of the mask and leaves every other bit as it was.
pub proof fn law_unmask_only_irq1(mask: u8)
    ensures
        !bit(mask & !0x02u8, 1),
        forall|i: u8| i < 8 && i != 1 ==> bit(mask & !0x02u8, i) == bit(mask, i),
{
    assert(!bit(mask & !0x02u8, 1)) by (bit_vector);
    assert forall|i: u8| i < 8 && i != 1 implies bit(mask & !0x02u8, i) == bit(mask, i) by {
        assert(i < 8 && i != 1 ==> ((mask & !0x02u8) >> i) & 1 == (mask >> i) & 1) by (bit_vector);
    }
}

} // verus!
