use kaname::memory::{
    init_paging, table_summary, Mapping, PageDirectory, PageDirectoryEntry, PageTable, PageTableEntry, MAX_PT,
};
use kaname::multiboot2::{Info, MmapEntry, MmapEntryType, RawTag, Tag};

fn push_u32(b: &mut Vec<u8>, v: u32) {
    b.extend_from_slice(&v.to_le_bytes());
}

fn push_u64(b: &mut Vec<u8>, v: u64) {
    b.extend_from_slice(&v.to_le_bytes());
}

/// Header, a tag of an unknown type (size 12, padded to 16), a memory map
/// with two entries, and the end tag.
fn sample_info() -> Vec<u8> {
    let mut b = Vec::new();
    push_u32(&mut b, 0);
    push_u32(&mut b, 0);
    // unknown tag, type 1, size 12
    push_u32(&mut b, 1);
    push_u32(&mut b, 12);
    push_u32(&mut b, 0x6261_6261);
    push_u32(&mut b, 0);
    // memory map: 16 header bytes + 2 * 24
    push_u32(&mut b, 6);
    push_u32(&mut b, 16 + 48);
    push_u32(&mut b, 24);
    push_u32(&mut b, 0);
    push_u64(&mut b, 0);
    push_u64(&mut b, 0x9FC00);
    push_u32(&mut b, 1);
    push_u32(&mut b, 0);
    push_u64(&mut b, 0x10_0000);
    push_u64(&mut b, 0x7EE_0000);
    push_u32(&mut b, 2);
    push_u32(&mut b, 0);
    // end
    push_u32(&mut b, 0);
    push_u32(&mut b, 8);
    let total = b.len() as u32;
    b[0..4].copy_from_slice(&total.to_le_bytes());
    b
}

#[test]
fn info_rejects_short_or_truncated() {
    assert!(Info::from_bytes(vec![0u8; 4]).is_none());
    let mut b = vec![0u8; 8];
    b[0] = 16;
    assert!(Info::from_bytes(b).is_none());
    let mut ok = vec![0u8; 8];
    ok[0] = 8;
    assert!(Info::from_bytes(ok).is_some());
}

#[test]
fn tag_walk_and_memory_map() {
    let info = Info::from_bytes(sample_info()).unwrap();
    assert_eq!(info.total_size(), 96);
    assert_eq!(info.read_u32(8), 1);
    assert_eq!(info.read_u64(40), 0);
    // bytes past the end read as zero
    assert_eq!(info.read_u32(200), 0);
    assert_eq!(info.raw_tag(8), RawTag { type_: 1, size: 12 });
    assert_eq!(info.raw_tag(24), RawTag { type_: 6, size: 64 });
    let mut tags = info.tags();
    assert_eq!(tags.addr, 8);
    assert_eq!(tags.next(&info), Some(Tag::Unknown));
    assert_eq!(tags.addr, 24);
    let mmap = match tags.next(&info) {
        Some(Tag::Mmap(m)) => m,
        other => panic!("expected a memory map, got {:?}", other),
    };
    assert_eq!(mmap.offset, 24);
    assert_eq!(mmap.size, 64);
    assert_eq!(mmap.entry_size, 24);
    assert_eq!(tags.next(&info), Some(Tag::End));
    assert_eq!(tags.next(&info), None);
    assert_eq!(tags.next(&info), None);

    let mut entries = mmap.entries();
    let e0 = entries.next(&info).unwrap();
    assert_eq!(e0, MmapEntry { base_addr: 0, length: 0x9FC00, type_: 1, reserved: 0 });
    assert_eq!(e0.last_address(), Some(0x9FBFF));
    assert_eq!(MmapEntryType::from_code(e0.type_), Some(MmapEntryType::Available));
    let e1 = entries.next(&info).unwrap();
    assert_eq!(e1.base_addr, 0x10_0000);
    assert_eq!(e1.last_address(), Some(0x7FD_FFFF));
    assert_eq!(MmapEntryType::from_code(e1.type_), Some(MmapEntryType::Reserved));
    assert!(entries.next(&info).is_none());
    assert!(entries.next(&info).is_none());
}

#[test]
fn tag_with_bad_size_stops_walk() {
    let mut b = Vec::new();
    push_u32(&mut b, 24);
    push_u32(&mut b, 0);
    push_u32(&mut b, 3);
    push_u32(&mut b, 4); // smaller than a tag header
    push_u32(&mut b, 0);
    push_u32(&mut b, 8);
    let info = Info::from_bytes(b).unwrap();
    let mut tags = info.tags();
    assert_eq!(tags.next(&info), None);
    assert_eq!(tags.addr, 8);
}

#[test]
fn region_types_and_last_address() {
    assert_eq!(MmapEntryType::from_code(3), Some(MmapEntryType::AcpiInfo));
    assert_eq!(MmapEntryType::from_code(5), Some(MmapEntryType::DefectiveRam));
    assert_eq!(MmapEntryType::from_code(0), None);
    assert_eq!(MmapEntryType::from_code(6), None);
    let empty = MmapEntry { base_addr: 0, length: 0, type_: 1, reserved: 0 };
    assert_eq!(empty.last_address(), None);
    let top = MmapEntry { base_addr: u64::MAX, length: 1, type_: 1, reserved: 0 };
    assert_eq!(top.last_address(), None);
    let end = MmapEntry { base_addr: u64::MAX - 1, length: 1, type_: 1, reserved: 0 };
    assert_eq!(end.last_address(), Some(u64::MAX - 1));
}

#[test]
fn entry_bits() {
    let mut e = PageTableEntry::new();
    assert_eq!(e.value(), 0);
    e.set_user();
    e.set_address(0x1234_5FFF);
    assert_eq!(e.value(), 0x1234_5004);
    e.set_present();
    e.set_writable();
    assert_eq!(e.value(), 0x1234_5007);
    e.set_address(0xABC0_0000);
    assert_eq!(e.value(), 0xABC0_0007);
    let mut d = PageDirectoryEntry::new();
    d.set_address(0x0010_3000);
    d.set_present();
    d.set_writable();
    assert_eq!(d.value(), 0x0010_3003);
}

#[test]
fn initial_paging_maps_low_memory_and_kernel() {
    let mut dir = PageDirectory::new();
    let mut tables: Vec<PageTable> = (0..MAX_PT).map(|_| PageTable::new()).collect();
    let addrs: Vec<u32> = vec![0x20_0000, 0x20_1000, 0x20_2000, 0x20_3000, 0x20_4000];
    init_paging(&mut dir, &mut tables, &addrs);
    for t in 0..4 {
        assert_eq!(dir.entries[t].value(), addrs[t] | 3);
    }
    assert_eq!(dir.entries[896].value(), 0x20_4003);
    assert_eq!(dir.entries[4].value(), 0);
    assert_eq!(dir.entries[895].value(), 0);
    // identity map of the first 16 MiB
    assert_eq!(tables[0].entries[0].value(), 0x0000_0003);
    assert_eq!(tables[1].entries[5].value(), 0x0040_5003);
    assert_eq!(tables[3].entries[1023].value(), 0x00FF_F003);
    // the kernel image behind 0xE0000000
    assert_eq!(tables[4].entries[0].value(), 0x0010_0003);
    assert_eq!(tables[4].entries[1023].value(), 0x004F_F003);

    let s0 = table_summary(&tables[0], 0);
    assert_eq!(s0.count, 1024);
    assert_eq!(s0.first, Some(Mapping { virtual_address: 0, pd_index: 0, pt_index: 0, physical_address: 0 }));
    assert_eq!(
        s0.last,
        Some(Mapping { virtual_address: 0x3F_F000, pd_index: 0, pt_index: 1023, physical_address: 0x3F_F000 })
    );
    let s4 = table_summary(&tables[4], 4);
    assert_eq!(
        s4.first,
        Some(Mapping { virtual_address: 0xE000_0000, pd_index: 896, pt_index: 0, physical_address: 0x10_0000 })
    );
    assert_eq!(
        s4.last,
        Some(Mapping { virtual_address: 0xE03F_F000, pd_index: 896, pt_index: 1023, physical_address: 0x4F_F000 })
    );
}

#[test]
fn summary_of_sparse_table() {
    let mut t = PageTable::new();
    let empty = table_summary(&t, 2);
    assert_eq!(empty.count, 0);
    assert_eq!(empty.first, None);
    assert_eq!(empty.last, None);
    t.entries[7].set_address(0x0070_0000);
    t.entries[7].set_present();
    t.entries[9].set_address(0x0090_0000);
    let one = table_summary(&t, 2);
    assert_eq!(one.count, 1);
    let m = Mapping { virtual_address: 0x80_7000, pd_index: 2, pt_index: 7, physical_address: 0x70_0000 };
    assert_eq!(one.first, Some(m));
    assert_eq!(one.last, Some(m));
}
