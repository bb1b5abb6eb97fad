use kaname::boot::{header_checksum, multiboot_header, ARCH_I386, HEADER_LENGTH, MAGIC, TAG_LENGTH, TYPE_END_TAG, TYPE_INFO_REQ};
use kaname::gdt::{gdt_descriptor, gdt_entries, AccessByte, Flags, SegmentDescriptor, GDT_ENTRY_COUNT, KERNEL_CODE_SEG};
use kaname::idt::{
    classify_page_fault, has_error_code, idt_descriptor, idt_entry_for, Access, FaultKind, GateType, IdtEntry,
    InterruptVector, PageFaultError, Privilege,
};
use kaname::ports::io_wait;
use kaname::drivers::vga::PortOp;

#[test]
fn access_byte_packs_fields() {
    assert_eq!(AccessByte::new(0, 1, 0, 1, 1, 0, 1).bits(), 0x9A);
    assert_eq!(AccessByte::new(0, 1, 0, 0, 1, 0, 1).bits(), 0x92);
    assert_eq!(AccessByte::new(0, 1, 1, 0, 1, 3, 1).bits(), 0xF6);
    // each field is cut to its width
    assert_eq!(AccessByte::new(0xFF, 0, 0, 0, 0, 0, 0).bits(), 0x01);
    assert_eq!(AccessByte::new(0, 0, 0, 0, 0, 7, 0).bits(), 0x60);
}

#[test]
fn flags_pack_fields() {
    assert_eq!(Flags::new(0, 1, 1).bits(), 0x0C);
    assert_eq!(Flags::new(1, 0, 0).bits(), 0x02);
    assert_eq!(Flags::new(3, 3, 3).bits(), 0x0E);
}

#[test]
fn segment_descriptor_layout() {
    let d = SegmentDescriptor::new(0, 0xFFFFF, AccessByte::new(0, 1, 0, 1, 1, 0, 1), Flags::new(0, 1, 1));
    assert_eq!(d.bits(), 0x00CF_9A00_0000_FFFF);
    let e = SegmentDescriptor::new(0x1234_5678, 0xABCDE, AccessByte(0x92), Flags::new(0, 1, 0));
    assert_eq!(e.bits(), 0x124A_9234_5678_BCDE);
    assert_eq!(SegmentDescriptor::nil().bits(), 0);
}

#[test]
fn gdt_table_entries() {
    let t = gdt_entries();
    assert_eq!(t.len(), GDT_ENTRY_COUNT);
    let expected: [u64; 7] = [
        0,
        0x00CF_9A00_0000_FFFF,
        0x00CF_9200_0000_FFFF,
        0x00CF_9600_0000_FFFF,
        0x00CF_FA00_0000_FFFF,
        0x00CF_F200_0000_FFFF,
        0x00CF_F600_0000_FFFF,
    ];
    for i in 0..7 {
        assert_eq!(t[i].bits(), expected[i]);
    }
    let d = gdt_descriptor(0x0010_2000);
    assert_eq!(d.size, 55);
    assert_eq!(d.offset, 0x0010_2000);
}

#[test]
fn idt_gate_encoding() {
    let e = IdtEntry::new(0x1234_5678, 0x08, 0, GateType::Interrupt32);
    assert_eq!(e.offset_low, 0x5678);
    assert_eq!(e.offset_high, 0x1234);
    assert_eq!(e.selector, 0x08);
    assert_eq!(e.reserved0, 0);
    assert_eq!(e.type_attr, 0x8E);
    let u = IdtEntry::new(0xDEAD_BEEF, 0x1B, 3, GateType::Trap32);
    assert_eq!(u.type_attr, 0xEF);
    assert_eq!(u32::from(u.offset_low) + 0x10000 * u32::from(u.offset_high), 0xDEAD_BEEF);
    let n = IdtEntry::null();
    assert_eq!(n.type_attr, 0);
    let h = idt_entry_for(0x0010_0040);
    assert_eq!(h.selector, KERNEL_CODE_SEG);
    assert_eq!(h.type_attr, 0x8E);
    assert_eq!(h.offset_low, 0x0040);
    assert_eq!(h.offset_high, 0x0010);
    let d = idt_descriptor(0x0020_0000);
    assert_eq!(d.size, 2047);
    assert_eq!(d.offset, 0x0020_0000);
}

#[test]
fn error_code_vectors() {
    let with: Vec<u8> = (0..=255u8).filter(|v| has_error_code(*v)).collect();
    assert_eq!(with, vec![8, 10, 11, 12, 13, 14, 17, 21]);
    assert_eq!(InterruptVector::PageFault.number(), 14);
    assert_eq!(InterruptVector::SecurityException.number(), 30);
}

#[test]
fn page_fault_classification() {
    assert_eq!(classify_page_fault(PageFaultError(0)), (Privilege::Kernel, FaultKind::PageNotPresent, Access::Read));
    assert_eq!(classify_page_fault(PageFaultError(0b00111)), (Privilege::User, FaultKind::ProtectionViolation, Access::Write));
    assert_eq!(classify_page_fault(PageFaultError(0b11001)), (Privilege::Kernel, FaultKind::ReservedBitViolation, Access::InstructionFetch));
    let e = PageFaultError(0b10110);
    assert!(!e.violation());
    assert!(e.write());
    assert!(e.user());
    assert!(!e.reserved_bit());
    assert!(e.instr_fetch());
}

#[test]
fn multiboot_header_checksum_sums_to_zero() {
    let h = multiboot_header();
    assert_eq!(h.magic, MAGIC);
    assert_eq!(h.architecture, ARCH_I386);
    assert_eq!(h.header_length, HEADER_LENGTH);
    assert_eq!(h.checksum, 0x17AD_AF0A);
    assert_eq!(h.magic.wrapping_add(h.architecture).wrapping_add(h.header_length).wrapping_add(h.checksum), 0);
    assert_eq!(h.info_req.type_, TYPE_INFO_REQ);
    assert_eq!(h.info_req.size, TAG_LENGTH);
    assert_eq!(h.end.type_, TYPE_END_TAG);
    assert_eq!(header_checksum(0xFFFF_FFFF, 0xFFFF_FFFF, 2), 0);
    assert_eq!(header_checksum(1, 2, 3), 0xFFFF_FFFA);
}

#[test]
fn io_wait_writes_port_0x80() {
    assert_eq!(io_wait(), PortOp::Out { port: 0x80, value: 0 });
}
