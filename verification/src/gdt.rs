use vstd::prelude::*;

verus! {

/// Physical address the descriptor table is copied to before it is loaded.
pub const GDT_ADDR: u32 = 0x800;

/// Number of descriptors in the kernel's table.
pub const GDT_ENTRIES: usize = 7;

/// Size in bytes of one segment or gate descriptor.
pub const DESCRIPTOR_SIZE: usize = 8;

/// A segment descriptor, field by field in the order the CPU reads them.
#[derive(Debug, Clone, Copy, PartialEq, Eq, Structural)]
pub struct GdtEntry {
    /// limit bits 0..16
    pub limit_low: u16,
    /// base bits 0..16
    pub base_low: u16,
    /// base bits 16..24
    pub base_mid: u8,
    /// access byte
    pub access: u8,
    /// low nibble: limit bits 16..20; high nibble: flags
    pub flags_limit: u8,
    /// base bits 24..32
    pub base_high: u8,
}

/// The descriptor for a segment at `base` with the 20-bit `limit`, the `access`
/// byte and the 4-bit `flags`.
pub open spec fn gdt_entry(base: u32, limit: u32, access: u8, flags: u8) -> GdtEntry {
    GdtEntry {
        limit_low: (limit % 0x1_0000) as u16,
        base_low: (base % 0x1_0000) as u16,
        base_mid: ((base / 0x1_0000) % 0x100) as u8,
        access,
        flags_limit: ((limit / 0x1_0000) % 0x10 + (flags % 0x10) * 0x10) as u8,
        base_high: (base / 0x100_0000) as u8,
    }
}

/// The base address a descriptor describes.
pub open spec fn entry_base(e: GdtEntry) -> int {
    e.base_low + e.base_mid * 0x1_0000 + e.base_high * 0x100_0000
}

/// The 20-bit segment limit a descriptor describes.
pub open spec fn entry_limit(e: GdtEntry) -> int {
    e.limit_low + (e.flags_limit % 0x10) * 0x1_0000
}

/// The 4-bit flags of a descriptor.
pub open spec fn entry_flags(e: GdtEntry) -> int {
    (e.flags_limit / 0x10) as int
}

impl GdtEntry {
    /// Packs base, limit, access byte and flags into a descriptor; limit bits
    /// above 20 and flag bits above 4 are dropped.
    pub fn new(base: u32, limit: u32, access: u8, flags: u8) -> (e: GdtEntry)
        ensures
            e == gdt_entry(base, limit, access, flags),
    {
        assert((limit & 0xFFFF) as u16 == limit % 0x1_0000) by (bit_vector);
        assert((base & 0xFFFF) as u16 == base % 0x1_0000) by (bit_vector);
        assert(((base >> 16u32) & 0xFF) as u8 == (base / 0x1_0000) % 0x100) by (bit_vector);
        assert((((limit >> 16u32) & 0x0F) as u8) | ((flags & 0x0F) << 4u8) == (limit / 0x1_0000) % 0x10 + (
        flags % 0x10) * 0x10) by (bit_vector);
        assert(((base >> 24u32) & 0xFF) as u8 == base / 0x100_0000) by (bit_vector);
        GdtEntry {
            limit_low: (limit & 0xFFFF) as u16,
            base_low: (base & 0xFFFF) as u16,
            base_mid: ((base >> 16u32) & 0xFF) as u8,
            access,
            flags_limit: (((limit >> 16u32) & 0x0F) as u8) | ((flags & 0x0F) << 4u8),
            base_high: ((base >> 24u32) & 0xFF) as u8,
        }
    }
}

/// The kernel's flat-memory table: the null descriptor, then kernel code, data and
/// stack segments (ring 0), then user code, data and stack segments (ring 3), each
/// covering 4 GiB with 4 KiB granularity in 32-bit mode.
pub open spec fn kernel_gdt_spec() -> Seq<GdtEntry> {
    seq![
        gdt_entry(0, 0, 0, 0),
        gdt_entry(0, 0xFFFFF, 0x9A, 0xC),
        gdt_entry(0, 0xFFFFF, 0x92, 0xC),
        gdt_entry(0, 0xFFFFF, 0x92, 0xC),
        gdt_entry(0, 0xFFFFF, 0xFA, 0xC),
        gdt_entry(0, 0xFFFFF, 0xF2, 0xC),
        gdt_entry(0, 0xFFFFF, 0xF2, 0xC),
    ]
}

/// The descriptors the kernel loads.
pub fn kernel_gdt() -> (t: [GdtEntry; GDT_ENTRIES])
    ensures
        t@ == kernel_gdt_spec(),
{
    let t = [
        GdtEntry::new(0, 0, 0, 0),
        GdtEntry::new(0, 0xFFFFF, 0x9A, 0xC),
        GdtEntry::new(0, 0xFFFFF, 0x92, 0xC),
        GdtEntry::new(0, 0xFFFFF, 0x92, 0xC),
        GdtEntry::new(0, 0xFFFFF, 0xFA, 0xC),
        GdtEntry::new(0, 0xFFFFF, 0xF2, 0xC),
        GdtEntry::new(0, 0xFFFFF, 0xF2, 0xC),
    ];
    proof {
        assert(t@ =~= kernel_gdt_spec());
    }
    t
}

/// The limit field of a descriptor-table register: the table's size in bytes minus one.
pub fn table_limit(entries: usize) -> (limit: u16)
    requires
        1 <= entries <= 8192,
    ensures
        limit == entries * DESCRIPTOR_SIZE - 1,
{
    (entries * DESCRIPTOR_SIZE - 1) as u16
}

/// Building a descriptor and reading it back gives the base, the limit (its low
/// 20 bits), the access byte and the flags (their low 4 bits) that went in.
pub proof fn law_gdt_entry_round_trip(base: u32, limit: u32, access: u8, flags: u8)
    ensures
        entry_base(gdt_entry(base, limit, access, flags)) == base,
        entry_limit(gdt_entry(base, limit, access, flags)) == limit % 0x10_0000,
        entry_flags(gdt_entry(base, limit, access, flags)) == flags % 0x10,
        gdt_entry(base, limit, access, flags).access == access,
{
    let e = gdt_entry(base, limit, access, flags);
    assert(e.base_low + e.base_mid * 0x1_0000 + e.base_high * 0x100_0000 == base) by (nonlinear_arith)
        requires
            e.base_low == base % 0x1_0000,
            e.base_mid == (base / 0x1_0000) % 0x100,
            e.base_high == base / 0x100_0000,
            base < 0x1_0000_0000,
    {
    }
    assert(e.limit_low + (e.flags_limit % 0x10) * 0x1_0000 == limit % 0x10_0000) by (nonlinear_arith)
        requires
            e.limit_low == limit % 0x1_0000,
            e.flags_limit == (limit / 0x1_0000) % 0x10 + (flags % 0x10) * 0x10,
    {
    }
}

} // verus!
