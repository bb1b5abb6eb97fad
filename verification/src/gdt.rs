//! The global descriptor table: flat 4 GiB code, data and stack segments
//! for ring 0 and ring 3, in the 8-byte descriptor format.
use vstd::prelude::*;

verus! {

pub const KERNEL_CODE_SEG: u16 = 0x08;

pub const KERNEL_DATA_SEG: u16 = 0x10;

pub const GDT_ENTRY_COUNT: usize = 7;

/// The operand of `lgdt`: the table's size less one, and its address.
#[derive(Clone, Copy, PartialEq, Eq, Structural, Debug)]
pub struct GdtDescriptor {
    pub size: u16,
    pub offset: u32,
}

#[derive(Clone, Copy, PartialEq, Eq, Structural, Debug)]
pub struct AccessByte(pub u8);

/// The access byte of a descriptor: accessed (bit 0), read/write (1),
/// direction/conforming (2), executable (3), descriptor type (4),
/// privilege level (5..7), present (7); each argument cut to its width.
pub open spec fn access_bits(accessed: u8, read_write: u8, direction_conforming: u8, executable: u8, descriptor_type: u8, privilege: u8, present: u8) -> int {
    (accessed % 2) + 2 * (read_write % 2) + 4 * (direction_conforming % 2) + 8 * (executable % 2) + 16 * (descriptor_type % 2)
        + 32 * (privilege % 4) + 128 * (present % 2)
}

impl AccessByte {
    pub fn new(accessed: u8, read_write: u8, direction_conforming: u8, executable: u8, descriptor_type: u8, privilege: u8, present: u8) -> (r: Self)
        ensures
            r.0 == access_bits(accessed, read_write, direction_conforming, executable, descriptor_type, privilege, present),
    {
        let v: u8 = (accessed & 0b1) | (read_write & 0b1) << 1u8 | (direction_conforming & 0b1) << 2u8 | (executable & 0b1)
            << 3u8 | (descriptor_type & 0b1) << 4u8 | (privilege & 0b11) << 5u8 | (present & 0b1) << 7u8;
        assert(v == (accessed % 2) + 2 * (read_write % 2) + 4 * (direction_conforming % 2) + 8 * (executable % 2) + 16 * (
        descriptor_type % 2) + 32 * (privilege % 4) + 128 * (present % 2)) by (bit_vector)
            requires
                v == (accessed & 0b1) | (read_write & 0b1) << 1u8 | (direction_conforming & 0b1) << 2u8 | (executable & 0b1)
                    << 3u8 | (descriptor_type & 0b1) << 4u8 | (privilege & 0b11) << 5u8 | (present & 0b1) << 7u8;
        AccessByte(v)
    }

    pub fn bits(self) -> (r: u8)
        ensures
            r == self.0,
    {
        self.0
    }
}

/// The flags nibble of a descriptor; only `new` makes one, so it always
/// fits in four bits.
#[derive(Clone, Copy, PartialEq, Eq, Structural, Debug)]
pub struct Flags(u8);

impl Flags {
    #[verifier::type_invariant]
    spec fn fits_nibble(self) -> bool {
        self.0 < 16
    }

    /// The four flag bits.
    pub closed spec fn packed(self) -> u8 {
        self.0
    }

    /// Long mode (bit 1), 32-bit size (bit 2), 4 KiB granularity (bit 3).
    pub fn new(long_mode: u8, size: u8, granularity: u8) -> (r: Self)
        ensures
            r.packed() == 2 * (long_mode % 2) + 4 * (size % 2) + 8 * (granularity % 2),
    {
        let v: u8 = (long_mode & 0b1) << 1u8 | (size & 0b1) << 2u8 | (granularity & 0b1) << 3u8;
        assert(v == 2 * (long_mode % 2) + 4 * (size % 2) + 8 * (granularity % 2)) by (bit_vector)
            requires
                v == (long_mode & 0b1) << 1u8 | (size & 0b1) << 2u8 | (granularity & 0b1) << 3u8;
        Flags(v)
    }

    pub fn bits(self) -> (r: u8)
        ensures
            r == self.packed(),
            r < 16,
    {
        proof {
            use_type_invariant(&self);
        }
        self.0
    }
}

#[derive(Clone, Copy, PartialEq, Eq, Structural, Debug)]
pub struct SegmentDescriptor(pub u64);

/// The descriptor layout: limit 0..16, base 16..40, access byte 40..48,
/// limit 16..20 at 48..52, flags at 52..56, base 24..32 at 56..64.
pub open spec fn descriptor_bits(base: u32, limit: u32, access: u8, flags: u8) -> int {
    (limit % 0x10000) + 0x10000 * (base % 0x1000000) + 0x100_0000_0000 * access
        + 0x1_0000_0000_0000 * ((limit / 0x10000) % 16) + 0x10_0000_0000_0000 * (flags % 16)
        + 0x100_0000_0000_0000 * (base / 0x1000000)
}

/// The base address a descriptor holds.
pub open spec fn descriptor_base(d: u64) -> int {
    (d / 0x10000) % 0x1000000 + 0x1000000 * (d / 0x100_0000_0000_0000)
}

/// The 20-bit limit a descriptor holds.
pub open spec fn descriptor_limit(d: u64) -> int {
    d % 0x10000 + 0x10000 * ((d / 0x1_0000_0000_0000) % 16)
}

pub open spec fn descriptor_access(d: u64) -> int {
    ((d / 0x100_0000_0000) % 256) as int
}

pub open spec fn descriptor_flags(d: u64) -> int {
    ((d / 0x10_0000_0000_0000) % 16) as int
}

impl SegmentDescriptor {
    pub fn nil() -> (r: Self)
        ensures
            r.0 == 0,
    {
        SegmentDescriptor(0)
    }

    pub fn new(base: u32, limit: u32, access: AccessByte, flags: Flags) -> (r: Self)
        ensures
            r.0 == descriptor_bits(base, limit, access.0, flags.packed()),
    {
        let a: u8 = access.bits();
        let f: u8 = flags.bits();
        let v: u64 = ((limit & 0xffff) as u64) | (((base & 0xffff) as u64) << 16u64) | ((((base >> 16u32) & 0xff) as u64) << 32u64)
            | ((a as u64) << 40u64) | ((((limit >> 16u32) & 0xf) as u64) << 48u64) | ((f as u64) << 52u64) | ((((base >> 24u32)
            & 0xff) as u64) << 56u64);
        proof {
            lemma_descriptor_layout(base, limit, a, f, v);
        }
        SegmentDescriptor(v)
    }

    pub fn bits(self) -> (r: u64)
        ensures
            r == self.0,
    {
        self.0
    }
}

proof fn lemma_descriptor_layout(base: u32, limit: u32, a: u8, f: u8, v: u64)
    requires
        f < 16,
        v == ((limit & 0xffff) as u64) | (((base & 0xffff) as u64) << 16u64) | ((((base >> 16u32) & 0xff) as u64) << 32u64)
            | ((a as u64) << 40u64) | ((((limit >> 16u32) & 0xf) as u64) << 48u64) | ((f as u64) << 52u64) | ((((base >> 24u32)
            & 0xff) as u64) << 56u64),
    ensures
        v == descriptor_bits(base, limit, a, f),
{
    let l0: u64 = (limit & 0xffff) as u64;
    let b0: u64 = (base & 0xffff) as u64;
    let b1: u64 = ((base >> 16u32) & 0xff) as u64;
    let l1: u64 = ((limit >> 16u32) & 0xf) as u64;
    let b2: u64 = ((base >> 24u32) & 0xff) as u64;
    let aa: u64 = a as u64;
    let ff: u64 = f as u64;
    assert(l0 == limit % 0x10000 && b0 == base % 0x10000 && b1 == (base / 0x10000) % 0x100
        && l1 == (limit / 0x10000) % 16 && b2 == base / 0x1000000) by (bit_vector)
        requires
            l0 == (limit & 0xffff) as u64,
            b0 == (base & 0xffff) as u64,
            b1 == ((base >> 16u32) & 0xff) as u64,
            l1 == ((limit >> 16u32) & 0xf) as u64,
            b2 == ((base >> 24u32) & 0xff) as u64;
    assert(v == l0 + 0x10000 * b0 + 0x1_0000_0000 * b1 + 0x100_0000_0000 * aa + 0x1_0000_0000_0000 * l1
        + 0x10_0000_0000_0000 * ff + 0x100_0000_0000_0000 * b2) by (bit_vector)
        requires
            l0 < 0x10000,
            b0 < 0x10000,
            b1 < 0x100,
            aa < 0x100,
            l1 < 16,
            ff < 16,
            b2 < 0x100,
            v == l0 | (b0 << 16u64) | (b1 << 32u64) | (aa << 40u64) | (l1 << 48u64) | (ff << 52u64) | (b2 << 56u64);
    assert(base % 0x1000000 == base % 0x10000 + 0x10000 * ((base / 0x10000) % 0x100)) by (nonlinear_arith);
}

/// A descriptor gives back the base, the 20-bit limit, the access byte and
/// the flags it was made of.
pub proof fn lemma_descriptor_fields(base: u32, limit: u32, access: u8, flags: u8)
    requires
        flags < 16,
        descriptor_bits(base, limit, access, flags) <= u64::MAX,
    ensures
        descriptor_base(descriptor_bits(base, limit, access, flags) as u64) == base,
        descriptor_limit(descriptor_bits(base, limit, access, flags) as u64) == limit % 0x100000,
        descriptor_access(descriptor_bits(base, limit, access, flags) as u64) == access,
        descriptor_flags(descriptor_bits(base, limit, access, flags) as u64) == flags,
{
    let lo = limit % 0x10000;
    let lh = (limit / 0x10000) % 16;
    let bl = base % 0x1000000;
    let bh = base / 0x1000000;
    let d = descriptor_bits(base, limit, access, flags);
    assert(d == lo + 0x10000 * (bl + 0x1000000 * (access + 256 * (lh + 16 * (flags + 16 * bh)))));
    assert(d % 0x10000 == lo && d / 0x10000 == bl + 0x1000000 * (access + 256 * (lh + 16 * (flags + 16 * bh)))) by (nonlinear_arith)
        requires
            d == lo + 0x10000 * (bl + 0x1000000 * (access + 256 * (lh + 16 * (flags + 16 * bh)))),
            0 <= lo < 0x10000;
    let d1 = bl + 0x1000000 * (access + 256 * (lh + 16 * (flags + 16 * bh)));
    assert(d1 % 0x1000000 == bl && d1 / 0x1000000 == access + 256 * (lh + 16 * (flags + 16 * bh))) by (nonlinear_arith)
        requires
            d1 == bl + 0x1000000 * (access + 256 * (lh + 16 * (flags + 16 * bh))),
            0 <= bl < 0x1000000;
    let d2 = access + 256 * (lh + 16 * (flags + 16 * bh));
    assert(d2 % 256 == access && d2 / 256 == lh + 16 * (flags + 16 * bh)) by (nonlinear_arith)
        requires
            d2 == access + 256 * (lh + 16 * (flags + 16 * bh)),
            0 <= access < 256;
    let d3 = lh + 16 * (flags + 16 * bh);
    assert(d3 % 16 == lh && d3 / 16 == flags + 16 * bh) by (nonlinear_arith)
        requires
            d3 == lh + 16 * (flags + 16 * bh),
            0 <= lh < 16;
    let d4 = flags + 16 * bh;
    assert(d4 % 16 == flags && d4 / 16 == bh) by (nonlinear_arith)
        requires
            d4 == flags + 16 * bh,
            0 <= flags < 16;
    assert(d / 0x100_0000_0000 == d2) by (nonlinear_arith)
        requires
            d == lo + 0x10000 * d1,
            d1 == bl + 0x1000000 * d2,
            0 <= lo < 0x10000,
            0 <= bl < 0x1000000;
    assert(d / 0x1_0000_0000_0000 == d3) by (nonlinear_arith)
        requires
            d == lo + 0x10000 * d1,
            d1 == bl + 0x1000000 * d2,
            d2 == access + 256 * d3,
            0 <= lo < 0x10000,
            0 <= bl < 0x1000000,
            0 <= access < 256;
    assert(d / 0x10_0000_0000_0000 == d4) by (nonlinear_arith)
        requires
            d == lo + 0x10000 * d1,
            d1 == bl + 0x1000000 * d2,
            d2 == access + 256 * d3,
            d3 == lh + 16 * d4,
            0 <= lo < 0x10000,
            0 <= bl < 0x1000000,
            0 <= access < 256,
            0 <= lh < 16;
    assert(d / 0x100_0000_0000_0000 == bh) by (nonlinear_arith)
        requires
            d == lo + 0x10000 * d1,
            d1 == bl + 0x1000000 * d2,
            d2 == access + 256 * d3,
            d3 == lh + 16 * d4,
            d4 == flags + 16 * bh,
            0 <= lo < 0x10000,
            0 <= bl < 0x1000000,
            0 <= access < 256,
            0 <= lh < 16,
            0 <= flags < 16;
    assert(base == bl + 0x1000000 * bh);
    assert(limit % 0x100000 == lo + 0x10000 * lh) by (nonlinear_arith)
        requires lo == limit % 0x10000, lh == (limit / 0x10000) % 16;
}

/// The table: null, kernel code, kernel data, kernel stack (expand-down),
/// user code, user data, user stack (expand-down); all flat, 4 GiB,
/// 32-bit, page-granular.
pub fn gdt_entries() -> (r: Vec<SegmentDescriptor>)
    ensures
        r@.len() == GDT_ENTRY_COUNT,
        r@[0].0 == 0,
        r@[1].0 == descriptor_bits(0, 0xFFFFF, 0x9A, 0xC),
        r@[2].0 == descriptor_bits(0, 0xFFFFF, 0x92, 0xC),
        r@[3].0 == descriptor_bits(0, 0xFFFFF, 0x96, 0xC),
        r@[4].0 == descriptor_bits(0, 0xFFFFF, 0xFA, 0xC),
        r@[5].0 == descriptor_bits(0, 0xFFFFF, 0xF2, 0xC),
        r@[6].0 == descriptor_bits(0, 0xFFFFF, 0xF6, 0xC),
{
    let flags = Flags::new(0, 1, 1);
    let mut v: Vec<SegmentDescriptor> = Vec::new();
    v.push(SegmentDescriptor::nil());
    v.push(SegmentDescriptor::new(0, 0xFFFFF, AccessByte::new(0, 1, 0, 1, 1, 0, 1), flags));
    v.push(SegmentDescriptor::new(0, 0xFFFFF, AccessByte::new(0, 1, 0, 0, 1, 0, 1), flags));
    v.push(SegmentDescriptor::new(0, 0xFFFFF, AccessByte::new(0, 1, 1, 0, 1, 0, 1), flags));
    v.push(SegmentDescriptor::new(0, 0xFFFFF, AccessByte::new(0, 1, 0, 1, 1, 3, 1), flags));
    v.push(SegmentDescriptor::new(0, 0xFFFFF, AccessByte::new(0, 1, 0, 0, 1, 3, 1), flags));
    v.push(SegmentDescriptor::new(0, 0xFFFFF, AccessByte::new(0, 1, 1, 0, 1, 3, 1), flags));
    v
}

/// The `lgdt` operand for the table at `offset`.
pub fn gdt_descriptor(offset: u32) -> (r: GdtDescriptor)
    ensures
        r.size == 8 * GDT_ENTRY_COUNT - 1,
        r.offset == offset,
{
    GdtDescriptor { size: (8 * GDT_ENTRY_COUNT - 1) as u16, offset }
}

} // verus!
