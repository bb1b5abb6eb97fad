//! The interrupt descriptor table: the CPU exception vectors, which of them
//! push an error code, 32-bit interrupt-gate entries, page-fault error
//! codes, and the register frame the common interrupt entry code saves.
use vstd::prelude::*;
use crate::gdt::KERNEL_CODE_SEG;

verus! {

pub const IDT_SIZE: usize = 256;

/// The CPU exception vectors.
#[derive(Clone, Copy, PartialEq, Eq, Structural, Debug)]
pub enum InterruptVector {
    DivideError,
    Debug,
    Nmi,
    Breakpoint,
    Overflow,
    BoundRangeExceeded,
    InvalidOpcode,
    DeviceNotAvailable,
    DoubleFault,
    CoprocessorSegmentOverrun,
    InvalidTss,
    SegmentNotPresent,
    StackSegmentFault,
    GeneralProtection,
    PageFault,
    X87FloatingPoint,
    AlignmentCheck,
    MachineCheck,
    SimdFloatingPoint,
    VirtualizationException,
    ControlProtectionException,
    HypervisorInjection,
    VmmCommunication,
    SecurityException,
}

impl InterruptVector {
    pub open spec fn code(self) -> u8 {
        match self {
            InterruptVector::DivideError => 0,
            InterruptVector::Debug => 1,
            InterruptVector::Nmi => 2,
            InterruptVector::Breakpoint => 3,
            InterruptVector::Overflow => 4,
            InterruptVector::BoundRangeExceeded => 5,
            InterruptVector::InvalidOpcode => 6,
            InterruptVector::DeviceNotAvailable => 7,
            InterruptVector::DoubleFault => 8,
            InterruptVector::CoprocessorSegmentOverrun => 9,
            InterruptVector::InvalidTss => 10,
            InterruptVector::SegmentNotPresent => 11,
            InterruptVector::StackSegmentFault => 12,
            InterruptVector::GeneralProtection => 13,
            InterruptVector::PageFault => 14,
            InterruptVector::X87FloatingPoint => 16,
            InterruptVector::AlignmentCheck => 17,
            InterruptVector::MachineCheck => 18,
            InterruptVector::SimdFloatingPoint => 19,
            InterruptVector::VirtualizationException => 20,
            InterruptVector::ControlProtectionException => 21,
            InterruptVector::HypervisorInjection => 28,
            InterruptVector::VmmCommunication => 29,
            InterruptVector::SecurityException => 30,
        }
    }

    /// The vector number.
    pub fn number(self) -> (r: u8)
        ensures
            r == self.code(),
    {
        match self {
            InterruptVector::DivideError => 0,
            InterruptVector::Debug => 1,
            InterruptVector::Nmi => 2,
            InterruptVector::Breakpoint => 3,
            InterruptVector::Overflow => 4,
            InterruptVector::BoundRangeExceeded => 5,
            InterruptVector::InvalidOpcode => 6,
            InterruptVector::DeviceNotAvailable => 7,
            InterruptVector::DoubleFault => 8,
            InterruptVector::CoprocessorSegmentOverrun => 9,
            InterruptVector::InvalidTss => 10,
            InterruptVector::SegmentNotPresent => 11,
            InterruptVector::StackSegmentFault => 12,
            InterruptVector::GeneralProtection => 13,
            InterruptVector::PageFault => 14,
            InterruptVector::X87FloatingPoint => 16,
            InterruptVector::AlignmentCheck => 17,
            InterruptVector::MachineCheck => 18,
            InterruptVector::SimdFloatingPoint => 19,
            InterruptVector::VirtualizationException => 20,
            InterruptVector::ControlProtectionException => 21,
            InterruptVector::HypervisorInjection => 28,
            InterruptVector::VmmCommunication => 29,
            InterruptVector::SecurityException => 30,
        }
    }
}

/// The error code of a page fault.
#[derive(Clone, Copy, PartialEq, Eq, Structural, Debug)]
pub struct PageFaultError(pub u32);

pub open spec fn bit_set(v: u32, b: nat) -> bool {
    (v / pow2(b)) % 2 == 1
}

pub open spec fn pow2(b: nat) -> u32 {
    if b == 0 { 1 } else if b == 1 { 2 } else if b == 2 { 4 } else if b == 3 { 8 } else { 16 }
}

proof fn lemma_bit(v: u32, mask: u32, k: u32)
    requires
        (mask == 1 && k == 1) || (mask == 2 && k == 2) || (mask == 4 && k == 4) || (mask == 8 && k == 8) || (mask == 16 && k == 16),
    ensures
        (v & mask != 0) == ((v / k) % 2 == 1),
{
    assert((v & mask != 0) == ((v / k) % 2 == 1)) by (bit_vector)
        requires (mask == 1 && k == 1) || (mask == 2 && k == 2) || (mask == 4 && k == 4) || (mask == 8 && k == 8) || (mask == 16 && k == 16);
}

impl PageFaultError {
    /// The fault was a protection violation (bit 0), not a missing page.
    pub fn violation(&self) -> (r: bool)
        ensures
            r == bit_set(self.0, 0),
    {
        proof {
            lemma_bit(self.0, 1, 1);
        }
        self.0 & 1 != 0
    }

    /// The access was a write (bit 1).
    pub fn write(&self) -> (r: bool)
        ensures
            r == bit_set(self.0, 1),
    {
        proof {
            lemma_bit(self.0, 2, 2);
        }
        self.0 & 2 != 0
    }

    /// The access came from user mode (bit 2).
    pub fn user(&self) -> (r: bool)
        ensures
            r == bit_set(self.0, 2),
    {
        proof {
            lemma_bit(self.0, 4, 4);
        }
        self.0 & 4 != 0
    }

    /// A reserved bit was set in a paging entry (bit 3).
    pub fn reserved_bit(&self) -> (r: bool)
        ensures
            r == bit_set(self.0, 3),
    {
        proof {
            lemma_bit(self.0, 8, 8);
        }
        self.0 & 8 != 0
    }

    /// The access was an instruction fetch (bit 4).
    pub fn instr_fetch(&self) -> (r: bool)
        ensures
            r == bit_set(self.0, 4),
    {
        proof {
            lemma_bit(self.0, 16, 16);
        }
        self.0 & 16 != 0
    }
}

#[derive(Clone, Copy, PartialEq, Eq, Structural, Debug)]
pub enum GateType {
    TaskGate,
    Interrupt16,
    Trap16,
    Interrupt32,
    Trap32,
}

impl GateType {
    pub open spec fn code(self) -> u8 {
        match self {
            GateType::TaskGate => 0x5,
            GateType::Interrupt16 => 0x6,
            GateType::Trap16 => 0x7,
            GateType::Interrupt32 => 0xE,
            GateType::Trap32 => 0xF,
        }
    }

    pub fn value(self) -> (r: u8)
        ensures
            r == self.code(),
    {
        match self {
            GateType::TaskGate => 0x5,
            GateType::Interrupt16 => 0x6,
            GateType::Trap16 => 0x7,
            GateType::Interrupt32 => 0xE,
            GateType::Trap32 => 0xF,
        }
    }
}

#[derive(Clone, Copy, PartialEq, Eq, Structural, Debug)]
pub struct IdtEntry {
    pub offset_low: u16,
    pub selector: u16,
    pub reserved0: u8,
    pub type_attr: u8,
    pub offset_high: u16,
}

impl IdtEntry {
    pub fn null() -> (r: IdtEntry)
        ensures
            r == (IdtEntry { offset_low: 0, selector: 0, reserved0: 0, type_attr: 0, offset_high: 0 }),
    {
        IdtEntry { offset_low: 0, selector: 0, reserved0: 0, type_attr: 0, offset_high: 0 }
    }

    /// A present gate to `offset` in segment `selector` for privilege
    /// `ring` (cut to two bits).
    pub fn new(offset: u32, selector: u16, ring: u8, gate_type: GateType) -> (r: Self)
        ensures
            r.offset_low == offset % 0x10000,
            r.offset_high == offset / 0x10000,
            r.selector == selector,
            r.reserved0 == 0,
            r.type_attr == gate_type.code() + 32 * (ring % 4) + 128,
    {
        let g = gate_type.value();
        let type_attr: u8 = g | ((ring & 0b11) << 5u8) | (1u8 << 7u8);
        assert(type_attr == g + 32 * (ring % 4) + 128) by (bit_vector)
            requires
                type_attr == g | ((ring & 0b11) << 5u8) | (1u8 << 7u8),
                g < 16;
        let lo: u16 = offset as u16;
        let hi: u16 = (offset >> 16u32) as u16;
        assert(lo == offset % 0x10000 && hi == offset / 0x10000) by (bit_vector)
            requires
                lo == offset as u16,
                hi == (offset >> 16u32) as u16;
        IdtEntry { offset_low: lo, selector, reserved0: 0, type_attr, offset_high: hi }
    }
}

/// The two offset halves of an entry made for `offset` (as `IdtEntry::new`
/// makes it) give back the handler address.
pub proof fn lemma_entry_offset(offset: u32, e: IdtEntry)
    requires
        e.offset_low == offset % 0x10000,
        e.offset_high == offset / 0x10000,
    ensures
        e.offset_low + 0x10000 * e.offset_high == offset,
{
}

/// The vectors for which the CPU pushes an error code.
pub open spec fn pushes_error_code(vector: u8) -> bool {
    vector == 8 || vector == 10 || vector == 11 || vector == 12 || vector == 13 || vector == 14 || vector == 17
        || vector == 21
}

pub fn has_error_code(vector: u8) -> (r: bool)
    ensures
        r == pushes_error_code(vector),
{
    let double_fault = InterruptVector::DoubleFault.number();
    let invalid_tss = InterruptVector::InvalidTss.number();
    let segment_not_present = InterruptVector::SegmentNotPresent.number();
    let stack_segment_fault = InterruptVector::StackSegmentFault.number();
    let general_protection = InterruptVector::GeneralProtection.number();
    let page_fault = InterruptVector::PageFault.number();
    let alignment_check = InterruptVector::AlignmentCheck.number();
    let control_protection = InterruptVector::ControlProtectionException.number();
    vector == double_fault || vector == invalid_tss || vector == segment_not_present || vector == stack_segment_fault
        || vector == general_protection || vector == page_fault || vector == alignment_check || vector
        == control_protection
}

/// A present ring-0 32-bit interrupt gate in the kernel code segment,
/// leading to `handler`.
pub fn idt_entry_for(handler: u32) -> (r: IdtEntry)
    ensures
        r.offset_low == handler % 0x10000,
        r.offset_high == handler / 0x10000,
        r.selector == KERNEL_CODE_SEG,
        r.reserved0 == 0,
        r.type_attr == 0x8E,
{
    IdtEntry::new(handler, KERNEL_CODE_SEG, 0, GateType::Interrupt32)
}

/// The `lidt` operand: the table's size less one, and its address.
#[derive(Clone, Copy, PartialEq, Eq, Structural, Debug)]
pub struct IdtDescriptor {
    pub size: u16,
    pub offset: u32,
}

pub fn idt_descriptor(offset: u32) -> (r: IdtDescriptor)
    ensures
        r.size == 8 * IDT_SIZE - 1,
        r.offset == offset,
{
    IdtDescriptor { size: (8 * IDT_SIZE - 1) as u16, offset }
}

/// The registers the common interrupt entry code leaves on the stack, lowest
/// address first: those `pusha` saves, the vector and error code, and the
/// CPU's return frame.
#[derive(Clone, Copy, PartialEq, Eq, Structural, Debug)]
pub struct InterruptFrame {
    pub edi: u32,
    pub esi: u32,
    pub ebp: u32,
    pub esp: u32,
    pub ebx: u32,
    pub edx: u32,
    pub ecx: u32,
    pub eax: u32,
    pub vector: u32,
    pub error_code: u32,
    pub eip: u32,
    pub cs: u32,
    pub eflags: u32,
}

impl InterruptFrame {
    pub fn edi(&self) -> (r: u32)
        ensures
            r == self.edi,
    {
        self.edi
    }

    pub fn esi(&self) -> (r: u32)
        ensures
            r == self.esi,
    {
        self.esi
    }

    pub fn ebp(&self) -> (r: u32)
        ensures
            r == self.ebp,
    {
        self.ebp
    }

    pub fn esp(&self) -> (r: u32)
        ensures
            r == self.esp,
    {
        self.esp
    }

    pub fn ebx(&self) -> (r: u32)
        ensures
            r == self.ebx,
    {
        self.ebx
    }

    pub fn edx(&self) -> (r: u32)
        ensures
            r == self.edx,
    {
        self.edx
    }

    pub fn ecx(&self) -> (r: u32)
        ensures
            r == self.ecx,
    {
        self.ecx
    }

    pub fn eax(&self) -> (r: u32)
        ensures
            r == self.eax,
    {
        self.eax
    }

    pub fn vector(&self) -> (r: u32)
        ensures
            r == self.vector,
    {
        self.vector
    }

    pub fn error_code(&self) -> (r: u32)
        ensures
            r == self.error_code,
    {
        self.error_code
    }

    pub fn eip(&self) -> (r: u32)
        ensures
            r == self.eip,
    {
        self.eip
    }

    pub fn cs(&self) -> (r: u32)
        ensures
            r == self.cs,
    {
        self.cs
    }

    pub fn eflags(&self) -> (r: u32)
        ensures
            r == self.eflags,
    {
        self.eflags
    }
}

/// What a page-fault report says, from the error code: who faulted, what
/// kind of fault, and what kind of access.
#[derive(Clone, Copy, PartialEq, Eq, Structural, Debug)]
pub enum Privilege {
    User,
    Kernel,
}

#[derive(Clone, Copy, PartialEq, Eq, Structural, Debug)]
pub enum FaultKind {
    ReservedBitViolation,
    ProtectionViolation,
    PageNotPresent,
}

#[derive(Clone, Copy, PartialEq, Eq, Structural, Debug)]
pub enum Access {
    InstructionFetch,
    Write,
    Read,
}

/// The classification the page-fault handler prints: a reserved-bit
/// violation before a protection violation, an instruction fetch before a
/// write.
pub fn classify_page_fault(error: PageFaultError) -> (r: (Privilege, FaultKind, Access))
    ensures
        r.0 == if bit_set(error.0, 2) { Privilege::User } else { Privilege::Kernel },
        r.1 == if bit_set(error.0, 3) {
            FaultKind::ReservedBitViolation
        } else if bit_set(error.0, 0) {
            FaultKind::ProtectionViolation
        } else {
            FaultKind::PageNotPresent
        },
        r.2 == if bit_set(error.0, 4) {
            Access::InstructionFetch
        } else if bit_set(error.0, 1) {
            Access::Write
        } else {
            Access::Read
        },
{
    let privilege = if error.user() { Privilege::User } else { Privilege::Kernel };
    let kind = if error.reserved_bit() {
        FaultKind::ReservedBitViolation
    } else if error.violation() {
        FaultKind::ProtectionViolation
    } else {
        FaultKind::PageNotPresent
    };
    let access = if error.instr_fetch() {
        Access::InstructionFetch
    } else if error.write() {
        Access::Write
    } else {
        Access::Read
    };
    (privilege, kind, access)
}

/// Where a vector sits in the list of exceptions, in the order the list
/// gives them.
pub open spec fn exception_rank(v: InterruptVector) -> int {
    match v {
        InterruptVector::DivideError => 0,
        InterruptVector::Debug => 1,
        InterruptVector::Nmi => 2,
        InterruptVector::Breakpoint => 3,
        InterruptVector::Overflow => 4,
        InterruptVector::BoundRangeExceeded => 5,
        InterruptVector::InvalidOpcode => 6,
        InterruptVector::DeviceNotAvailable => 7,
        InterruptVector::DoubleFault => 8,
        InterruptVector::CoprocessorSegmentOverrun => 9,
        InterruptVector::InvalidTss => 10,
        InterruptVector::SegmentNotPresent => 11,
        InterruptVector::StackSegmentFault => 12,
        InterruptVector::GeneralProtection => 13,
        InterruptVector::PageFault => 14,
        InterruptVector::X87FloatingPoint => 15,
        InterruptVector::AlignmentCheck => 16,
        InterruptVector::MachineCheck => 17,
        InterruptVector::SimdFloatingPoint => 18,
        InterruptVector::VirtualizationException => 19,
        InterruptVector::ControlProtectionException => 20,
        InterruptVector::HypervisorInjection => 21,
        InterruptVector::VmmCommunication => 22,
        InterruptVector::SecurityException => 23,
    }
}

/// The vectors the processor keeps reserved among its first 32: 15, 22
/// to 27, and 31.
pub open spec fn reserved_vector(n: int) -> bool {
    n == 15 || (22 <= n <= 27) || n == 31
}

/// The exception vectors are the processor's exception numbers: they start
/// at 0, grow strictly in the order of the list, stay below 32 and skip
/// exactly the reserved numbers, so no two exceptions share a vector; and
/// the exceptions that push an error code are double fault, invalid TSS,
/// segment not present, stack-segment fault, general protection, page
/// fault, alignment check and control protection.
pub proof fn lemma_vector_numbers()
    ensures
        InterruptVector::DivideError.code() == 0,
        forall|a: InterruptVector, b: InterruptVector| exception_rank(a) < exception_rank(b) ==> #[trigger] a.code() < #[trigger] b.code(),
        forall|v: InterruptVector| (#[trigger] v.code()) < 32 && !reserved_vector(v.code() as int),
        forall|a: InterruptVector, b: InterruptVector| #[trigger] a.code() == #[trigger] b.code() ==> a == b,
        forall|v: InterruptVector| pushes_error_code(#[trigger] v.code()) <==> (v == InterruptVector::DoubleFault || v
            == InterruptVector::InvalidTss || v == InterruptVector::SegmentNotPresent || v == InterruptVector::StackSegmentFault
            || v == InterruptVector::GeneralProtection || v == InterruptVector::PageFault || v == InterruptVector::AlignmentCheck
            || v == InterruptVector::ControlProtectionException),
{
}

} // verus!
