//! The Multiboot2 boot information: a header (total size, reserved) and a
//! list of tags, each 8-byte aligned, read here from the bytes the boot
//! loader left. The memory-map tag lists the physical memory regions.
use vstd::prelude::*;

verus! {

pub const BOOTLOADER_MAGIC: usize = 0x36D76289;

pub const TAG_TYPE_END: u32 = 0;

pub const TAG_TYPE_CMDLINE: u32 = 1;

pub const TAG_TYPE_BOOT_LOADER_NAME: u32 = 2;

pub const TAG_TYPE_MODULE: u32 = 3;

pub const TAG_TYPE_BASIC_MEMINFO: u32 = 4;

pub const TAG_TYPE_BOOTDEV: u32 = 5;

pub const TAG_TYPE_MMAP: u32 = 6;

pub const TAG_TYPE_VBE: u32 = 7;

pub const TAG_TYPE_FRAMEBUFFER: u32 = 8;

pub const TAG_TYPE_ELF_SECTIONS: u32 = 9;

pub const TAG_TYPE_APM: u32 = 10;

pub const TAG_TYPE_EFI32_SYSTABLE: u32 = 11;

pub const TAG_TYPE_EFI64_SYSTABLE: u32 = 12;

pub const TAG_TYPE_SMBIOS: u32 = 13;

pub const TAG_TYPE_ACPI_RSDP_V1: u32 = 14;

pub const TAG_TYPE_ACPI_RSDP_V2: u32 = 15;

pub const TAG_TYPE_NETWORK: u32 = 16;

pub const TAG_TYPE_EFI_MMAP: u32 = 17;

pub const TAG_TYPE_EFI_BOOT_NOT_TERMINATED: u32 = 18;

pub const TAG_TYPE_EFI32_IMAGE_HANDLE: u32 = 19;

pub const TAG_TYPE_EFI64_IMAGE_HANDLE: u32 = 20;

/// Size of the information header, and of a tag header.
pub const HEADER_SIZE: usize = 8;

/// Size of a memory-map entry as read.
pub const ENTRY_SIZE: usize = 24;

/// Byte `i` of the information; bytes past its end read as zero.
pub open spec fn byte_at(b: Seq<u8>, i: int) -> int {
    if 0 <= i < b.len() { b[i] as int } else { 0 }
}

/// The little-endian 32-bit value at `i`.
pub open spec fn u32_at(b: Seq<u8>, i: int) -> int {
    byte_at(b, i) + 0x100 * byte_at(b, i + 1) + 0x10000 * byte_at(b, i + 2) + 0x1000000 * byte_at(b, i + 3)
}

/// The little-endian 64-bit value at `i`.
pub open spec fn u64_at(b: Seq<u8>, i: int) -> int {
    u32_at(b, i) + 0x1_0000_0000 * u32_at(b, i + 4)
}

/// `n` rounded up to a multiple of 8.
pub open spec fn align8(n: int) -> int {
    (n + 7) - (n + 7) % 8
}

/// The boot information, as the bytes the boot loader left.
pub struct Info {
    bytes: Vec<u8>,
}

#[derive(Clone, Copy, PartialEq, Eq, Structural, Debug)]
pub struct MmapTag {
    /// Offset of the tag in the information.
    pub offset: usize,
    pub size: u32,
    pub entry_size: u32,
    pub entry_version: u32,
}

#[derive(Clone, Copy, PartialEq, Eq, Structural, Debug)]
pub enum Tag {
    End,
    Mmap(MmapTag),
    Unknown,
}

#[derive(Clone, Copy, PartialEq, Eq, Structural, Debug)]
pub struct MmapEntry {
    pub base_addr: u64,
    pub length: u64,
    pub type_: u32,
    pub reserved: u32,
}

/// The tags in order: `addr` is the offset of the next one, `end` the end
/// of the information.
pub struct TagIter {
    pub addr: usize,
    pub end: usize,
}

/// The entries of a memory-map tag in order.
pub struct MmapEntryIter {
    pub addr: usize,
    pub end: usize,
    pub entry_size: usize,
}

/// The tag whose header is at offset `a`.
pub open spec fn tag_at(b: Seq<u8>, a: int) -> Tag {
    let t = u32_at(b, a);
    if t == TAG_TYPE_END {
        Tag::End
    } else if t == TAG_TYPE_MMAP {
        Tag::Mmap(MmapTag {
            offset: a as usize,
            size: u32_at(b, a + 4) as u32,
            entry_size: u32_at(b, a + 8) as u32,
            entry_version: u32_at(b, a + 12) as u32,
        })
    } else {
        Tag::Unknown
    }
}

pub open spec fn entry_at(b: Seq<u8>, a: int) -> MmapEntry {
    MmapEntry {
        base_addr: u64_at(b, a) as u64,
        length: u64_at(b, a + 8) as u64,
        type_: u32_at(b, a + 16) as u32,
        reserved: u32_at(b, a + 20) as u32,
    }
}

/// The largest information this parser takes: the most bytes a `Vec`
/// can hold on a 32-bit machine.
pub const MAX_INFO: usize = 0x7FFF_FFFF;

/// The header every tag starts with: its type and its size in bytes.
#[derive(Clone, Copy, PartialEq, Eq, Structural, Debug)]
pub struct RawTag {
    pub type_: u32,
    pub size: u32,
}

impl Info {
    pub closed spec fn bytes(&self) -> Seq<u8> {
        self.bytes@
    }

    pub open spec fn wf(&self) -> bool {
        &&& HEADER_SIZE <= self.bytes().len() <= MAX_INFO
        &&& u32_at(self.bytes(), 0) <= self.bytes().len()
    }

    /// The information over `bytes`; `None` when they are shorter than the
    /// header, longer than the parser takes, or shorter than the size the
    /// header gives.
    pub fn from_bytes(bytes: Vec<u8>) -> (r: Option<Info>)
        ensures
            r is Some <==> HEADER_SIZE <= bytes@.len() <= MAX_INFO && u32_at(bytes@, 0) <= bytes@.len(),
            r matches Some(i) ==> i.wf() && i.bytes() == bytes@,
    {
        if bytes.len() < HEADER_SIZE || bytes.len() > MAX_INFO {
            return None;
        }
        let info = Info { bytes };
        let total = info.total_size() as usize;
        if total > info.bytes.len() {
            None
        } else {
            Some(info)
        }
    }

    fn byte(&self, i: usize) -> (r: u8)
        ensures
            r as int == byte_at(self.bytes(), i as int),
    {
        if i < self.bytes.len() { self.bytes[i] } else { 0 }
    }

    pub fn read_u32(&self, i: usize) -> (r: u32)
        requires
            i <= usize::MAX - 4,
        ensures
            r as int == u32_at(self.bytes(), i as int),
    {
        let b0 = self.byte(i) as u32;
        let b1 = self.byte(i + 1) as u32;
        let b2 = self.byte(i + 2) as u32;
        let b3 = self.byte(i + 3) as u32;
        b0 + 0x100 * b1 + 0x10000 * b2 + 0x1000000 * b3
    }

    pub fn read_u64(&self, i: usize) -> (r: u64)
        requires
            i <= usize::MAX - 8,
        ensures
            r as int == u64_at(self.bytes(), i as int),
    {
        let lo = self.read_u32(i) as u64;
        let hi = self.read_u32(i + 4) as u64;
        lo + 0x1_0000_0000 * hi
    }

    /// The size the header gives the information.
    pub fn total_size(&self) -> (r: u32)
        ensures
            r as int == u32_at(self.bytes(), 0),
    {
        self.read_u32(0)
    }

    /// The tag header at offset `a`.
    pub fn raw_tag(&self, a: usize) -> (r: RawTag)
        requires
            a <= usize::MAX - 8,
        ensures
            r.type_ as int == u32_at(self.bytes(), a as int),
            r.size as int == u32_at(self.bytes(), a + 4),
    {
        RawTag { type_: self.read_u32(a), size: self.read_u32(a + 4) }
    }

    /// The tags, which start after the header and end where the header's
    /// size says.
    pub fn tags(&self) -> (r: TagIter)
        requires
            self.wf(),
        ensures
            r.addr == HEADER_SIZE,
            r.end == u32_at(self.bytes(), 0),
            r.end <= MAX_INFO,
    {
        let end = self.total_size() as usize;
        TagIter { addr: HEADER_SIZE, end }
    }
}

impl TagIter {
    /// The next tag, and the offset after it (padded to 8 bytes); `None`,
    /// leaving the offset, when no whole tag header is left before the end
    /// or the tag's size is below a header or past the end.
    pub open spec fn step(self, b: Seq<u8>) -> (Option<Tag>, int) {
        if self.addr + HEADER_SIZE > self.end {
            (None, self.addr as int)
        } else {
            let size = u32_at(b, self.addr + 4);
            if size < HEADER_SIZE || size > self.end - self.addr {
                (None, self.addr as int)
            } else {
                (Some(tag_at(b, self.addr as int)), self.addr + align8(size))
            }
        }
    }

    pub fn next(&mut self, info: &Info) -> (r: Option<Tag>)
        requires
            old(self).end <= MAX_INFO,
            old(self).addr <= old(self).end + 8,
        ensures
            (r, final(self).addr as int) == old(self).step(info.bytes()),
            final(self).end == old(self).end,
            final(self).addr <= final(self).end + 8,
            r matches Some(Tag::Mmap(t)) ==> t.offset + t.size <= final(self).end,
    {
        if self.addr > self.end || self.end - self.addr < HEADER_SIZE {
            return None;
        }
        let tag = info.raw_tag(self.addr);
        let size = tag.size as usize;
        if size < HEADER_SIZE || size > self.end - self.addr {
            return None;
        }
        let current = self.addr;
        let s7: usize = size + 7;
        let padded: usize = s7 & !7usize;
        assert(padded == s7 - s7 % 8) by (bit_vector)
            requires
                padded == s7 & !7usize;
        self.addr = self.addr + padded;
        Some(Tag::from_raw(info, current))
    }
}

impl Tag {
    fn from_raw(info: &Info, a: usize) -> (r: Tag)
        requires
            a <= usize::MAX - 16,
        ensures
            r == tag_at(info.bytes(), a as int),
    {
        let t = info.raw_tag(a).type_;
        if t == TAG_TYPE_END {
            Tag::End
        } else if t == TAG_TYPE_MMAP {
            Tag::Mmap(MmapTag {
                offset: a,
                size: info.read_u32(a + 4),
                entry_size: info.read_u32(a + 8),
                entry_version: info.read_u32(a + 12),
            })
        } else {
            Tag::Unknown
        }
    }
}

impl MmapTag {
    /// The entries, which start 16 bytes into the tag and end with it.
    pub fn entries(&self) -> (r: MmapEntryIter)
        requires
            self.offset + self.size <= MAX_INFO,
        ensures
            r.addr == self.offset + 16,
            r.end == self.offset + self.size,
            r.entry_size == self.entry_size,
    {
        MmapEntryIter { addr: self.offset + 16, end: self.offset + self.size as usize, entry_size: self.entry_size as usize }
    }
}

impl MmapEntryIter {
    /// The next entry and the offset after it; `None`, leaving the offset,
    /// when the next entry would run past the end of the tag.
    pub open spec fn step(self, b: Seq<u8>) -> (Option<MmapEntry>, int) {
        if self.addr + self.entry_size > self.end {
            (None, self.addr as int)
        } else {
            (Some(entry_at(b, self.addr as int)), self.addr + self.entry_size)
        }
    }

    pub fn next(&mut self, info: &Info) -> (r: Option<MmapEntry>)
        requires
            old(self).end <= MAX_INFO,
        ensures
            (r, final(self).addr as int) == old(self).step(info.bytes()),
            final(self).end == old(self).end,
            final(self).entry_size == old(self).entry_size,
    {
        if self.addr > self.end || self.entry_size > self.end - self.addr {
            return None;
        }
        let a = self.addr;
        let entry = MmapEntry {
            base_addr: info.read_u64(a),
            length: info.read_u64(a + 8),
            type_: info.read_u32(a + 16),
            reserved: info.read_u32(a + 20),
        };
        self.addr = self.addr + self.entry_size;
        Some(entry)
    }
}

#[derive(Clone, Copy, PartialEq, Eq, Structural, Debug)]
pub enum MmapEntryType {
    Available,
    Reserved,
    AcpiInfo,
    HibernationReserved,
    DefectiveRam,
}

impl MmapEntryType {
    pub open spec fn code(self) -> u32 {
        match self {
            MmapEntryType::Available => 1,
            MmapEntryType::Reserved => 2,
            MmapEntryType::AcpiInfo => 3,
            MmapEntryType::HibernationReserved => 4,
            MmapEntryType::DefectiveRam => 5,
        }
    }

    /// The region type of an entry's type field; `None` for the values the
    /// specification does not define.
    pub fn from_code(t: u32) -> (r: Option<MmapEntryType>)
        ensures
            r matches Some(k) ==> k.code() == t,
            r is None <==> !(1 <= t <= 5),
    {
        match t {
            1 => Some(MmapEntryType::Available),
            2 => Some(MmapEntryType::Reserved),
            3 => Some(MmapEntryType::AcpiInfo),
            4 => Some(MmapEntryType::HibernationReserved),
            5 => Some(MmapEntryType::DefectiveRam),
            _ => None,
        }
    }
}

impl MmapEntry {
    /// The last address of the region, `base_addr + length - 1`; `None`
    /// where the sum overflows or is 0, which has no last address.
    pub fn last_address(&self) -> (r: Option<u64>)
        ensures
            (1 <= self.base_addr + self.length <= u64::MAX) ==> r == Some((self.base_addr + self.length - 1) as u64),
            !(1 <= self.base_addr + self.length <= u64::MAX) ==> r is None,
    {
        if self.length > u64::MAX - self.base_addr {
            return None;
        }
        let s = self.base_addr + self.length;
        if s == 0 {
            None
        } else {
            Some(s - 1)
        }
    }
}

/// The tag walk moves forward: a step that yields a tag advances by its
/// size rounded up to 8, so by at least a header and to the next 8-byte
/// boundary; a step that yields nothing stays put, so every later step
/// yields nothing too.
pub proof fn lemma_tag_walk(it: TagIter, b: Seq<u8>)
    ensures
        it.step(b).0 is Some ==> it.step(b).1 >= it.addr + HEADER_SIZE && (it.step(b).1 - it.addr) % 8 == 0,
        it.step(b).0 is None ==> it.step(b).1 == it.addr,
        it.step(b).0 is None ==> (TagIter { addr: it.step(b).1 as usize, end: it.end }).step(b).0 is None,
{
    if it.step(b).0 is Some {
        let size = u32_at(b, it.addr + 4);
        assert(size >= 8);
        assert((size + 7) % 8 <= 7);
        assert(align8(size as int) >= 8);
        assert(align8(size as int) % 8 == 0) by {
            vstd::arithmetic::div_mod::lemma_sub_mod_noop(size + 7, (size + 7) % 8, 8);
            vstd::arithmetic::div_mod::lemma_mod_twice(size + 7, 8);
        }
    }
}

/// A memory-map walk that yields nothing stays put, so it yields nothing
/// again; one that yields an entry advances by the entry size.
pub proof fn lemma_mmap_walk(it: MmapEntryIter, b: Seq<u8>)
    ensures
        it.step(b).0 is Some ==> it.step(b).1 == it.addr + it.entry_size,
        it.step(b).0 is None ==> it.step(b).1 == it.addr,
        it.step(b).0 is None ==> (MmapEntryIter { addr: it.step(b).1 as usize, end: it.end, entry_size: it.entry_size }).step(b).0 is None,
{
}

} // verus!
