//! What the boot loader looks for: the Multiboot2 header with its
//! checksum, and the size of the initial kernel stack.
use vstd::prelude::*;

verus! {

pub const MAGIC: u32 = 0xE85250D6;

pub const ARCH_I386: u32 = 0;

pub const FLAGS_NONE: u16 = 0;

pub const FLAG_OPTIONAL: u16 = 1;

pub const TYPE_END_TAG: u16 = 0;

pub const TYPE_INFO_REQ: u16 = 1;

/// Bytes of the header: four 32-bit fields and two 8-byte tags.
pub const HEADER_LENGTH: u32 = 32;

pub const TAG_LENGTH: u32 = 8;

pub const STACK_SIZE: usize = 16384;

/// The kernel's initial stack.
pub struct Stack(pub [u8; STACK_SIZE]);

#[derive(Clone, Copy, PartialEq, Eq, Structural, Debug)]
pub struct TagHeader {
    pub type_: u16,
    pub flags: u16,
    pub size: u32,
}

#[derive(Clone, Copy, PartialEq, Eq, Structural, Debug)]
pub struct Multiboot2Header {
    pub magic: u32,
    pub architecture: u32,
    pub header_length: u32,
    pub checksum: u32,
    pub info_req: TagHeader,
    pub end: TagHeader,
}

/// The value that makes magic, architecture, length and checksum sum to
/// zero modulo 2^32.
pub fn header_checksum(magic: u32, architecture: u32, length: u32) -> (r: u32)
    ensures
        (magic + architecture + length + r) % 0x1_0000_0000 == 0,
{
    let sum = magic.wrapping_add(architecture.wrapping_add(length));
    let r = 0u32.wrapping_sub(sum);
    assert((magic + architecture + length + r) % 0x1_0000_0000 == 0) by (nonlinear_arith)
        requires
            sum == (if architecture + length > u32::MAX { architecture + length - 0x1_0000_0000 } else { architecture + length }) + magic
                - (if magic + (if architecture + length > u32::MAX { architecture + length - 0x1_0000_0000 } else { architecture + length }) > u32::MAX { 0x1_0000_0000int } else { 0int }),
            r == (if 0 - sum < 0 { 0 - sum + 0x1_0000_0000 } else { 0 - sum });
    r
}

/// The header the kernel image carries for the boot loader.
pub fn multiboot_header() -> (r: Multiboot2Header)
    ensures
        r.magic == MAGIC,
        r.architecture == ARCH_I386,
        r.header_length == HEADER_LENGTH,
        (r.magic + r.architecture + r.header_length + r.checksum) % 0x1_0000_0000 == 0,
        r.info_req == (TagHeader { type_: TYPE_INFO_REQ, flags: FLAGS_NONE, size: TAG_LENGTH }),
        r.end == (TagHeader { type_: TYPE_END_TAG, flags: FLAGS_NONE, size: TAG_LENGTH }),
{
    Multiboot2Header {
        magic: MAGIC,
        architecture: ARCH_I386,
        header_length: HEADER_LENGTH,
        checksum: header_checksum(MAGIC, ARCH_I386, HEADER_LENGTH),
        info_req: TagHeader { type_: TYPE_INFO_REQ, flags: FLAGS_NONE, size: TAG_LENGTH },
        end: TagHeader { type_: TYPE_END_TAG, flags: FLAGS_NONE, size: TAG_LENGTH },
    }
}

} // verus!
