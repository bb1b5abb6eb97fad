//! Two-level x86 paging: page-directory and page-table entries, and the
//! initial tables that identity-map the first 16 MiB and map the kernel's
//! higher half at 0xE0000000.
use vstd::prelude::*;

verus! {

pub const PAGE_SIZE: usize = 0x1000;

pub const ENTRIES: usize = 1024;

pub const MAX_PT: usize = 5;

/// The table holding the kernel's higher-half mapping.
pub const PT_KERNEL_MEMORY: usize = 4;

pub const KERNEL_VIRT: u32 = 0xE000_0000;

pub const KERNEL_PHYS: u32 = 0x0010_0000;

/// The directory slot covering `KERNEL_VIRT`.
pub const KERNEL_PD_INDEX: usize = 896;

pub const ADDRESS_MASK: u32 = 0xFFFF_F000;

pub const FLAGS_MASK: u32 = 0xFFF;

pub const PRESENT: u32 = 1;

pub const WRITABLE: u32 = 2;

pub const USER: u32 = 4;

/// `bits` with its frame address replaced by that of `address`, flags kept.
pub open spec fn with_address(bits: u32, address: u32) -> u32 {
    (bits & FLAGS_MASK) | (address & ADDRESS_MASK)
}

#[derive(Clone, Copy, PartialEq, Eq, Structural, Debug)]
pub struct PageDirectoryEntry(pub u32);

impl PageDirectoryEntry {
    pub fn new() -> (r: Self)
        ensures
            r.0 == 0,
    {
        PageDirectoryEntry(0)
    }

    pub fn value(&self) -> (r: u32)
        ensures
            r == self.0,
    {
        self.0
    }

    pub fn set_address(&mut self, address: u32)
        ensures
            final(self).0 == with_address(old(self).0, address),
    {
        self.0 = (self.0 & FLAGS_MASK) | (address & ADDRESS_MASK);
    }

    pub fn set_present(&mut self)
        ensures
            final(self).0 == old(self).0 | PRESENT,
    {
        self.0 = self.0 | PRESENT;
    }

    pub fn set_writable(&mut self)
        ensures
            final(self).0 == old(self).0 | WRITABLE,
    {
        self.0 = self.0 | WRITABLE;
    }
}

#[derive(Clone, Copy, PartialEq, Eq, Structural, Debug)]
pub struct PageTableEntry(pub u32);

impl PageTableEntry {
    pub fn new() -> (r: Self)
        ensures
            r.0 == 0,
    {
        PageTableEntry(0)
    }

    pub fn value(&self) -> (r: u32)
        ensures
            r == self.0,
    {
        self.0
    }

    pub fn set_address(&mut self, address: u32)
        ensures
            final(self).0 == with_address(old(self).0, address),
    {
        self.0 = (self.0 & FLAGS_MASK) | (address & ADDRESS_MASK);
    }

    pub fn set_present(&mut self)
        ensures
            final(self).0 == old(self).0 | PRESENT,
    {
        self.0 = self.0 | PRESENT;
    }

    pub fn set_writable(&mut self)
        ensures
            final(self).0 == old(self).0 | WRITABLE,
    {
        self.0 = self.0 | WRITABLE;
    }

    pub fn set_user(&mut self)
        ensures
            final(self).0 == old(self).0 | USER,
    {
        self.0 = self.0 | USER;
    }
}

/// Setting the address keeps the flag bits and puts the frame of `address`
/// in the address bits; setting it again overrides it; setting a flag keeps
/// everything else and is idempotent.
pub proof fn lemma_entry_bits(bits: u32, address: u32, other: u32)
    ensures
        with_address(bits, address) & ADDRESS_MASK == address & ADDRESS_MASK,
        with_address(bits, address) & FLAGS_MASK == bits & FLAGS_MASK,
        with_address(with_address(bits, other), address) == with_address(bits, address),
        (bits | PRESENT) & PRESENT == PRESENT,
        (bits | PRESENT) & !PRESENT == bits & !PRESENT,
        (bits | PRESENT) | PRESENT == bits | PRESENT,
        (bits | WRITABLE) & WRITABLE == WRITABLE,
        (bits | WRITABLE) & !WRITABLE == bits & !WRITABLE,
        (bits | USER) & USER == USER,
        with_address(bits | PRESENT, address) == with_address(bits, address) | PRESENT,
{
    assert(((bits & 0xFFFu32) | (address & 0xFFFF_F000u32)) & 0xFFFF_F000u32 == address & 0xFFFF_F000u32) by (bit_vector);
    assert(((bits & 0xFFFu32) | (address & 0xFFFF_F000u32)) & 0xFFFu32 == bits & 0xFFFu32) by (bit_vector);
    assert(((((bits & 0xFFFu32) | (other & 0xFFFF_F000u32)) & 0xFFFu32) | (address & 0xFFFF_F000u32))
        == ((bits & 0xFFFu32) | (address & 0xFFFF_F000u32))) by (bit_vector);
    assert((bits | 1u32) & 1u32 == 1u32) by (bit_vector);
    assert((bits | 1u32) & !1u32 == bits & !1u32) by (bit_vector);
    assert((bits | 1u32) | 1u32 == bits | 1u32) by (bit_vector);
    assert((bits | 2u32) & 2u32 == 2u32) by (bit_vector);
    assert((bits | 2u32) & !2u32 == bits & !2u32) by (bit_vector);
    assert((bits | 4u32) & 4u32 == 4u32) by (bit_vector);
    assert((((bits | 1u32) & 0xFFFu32) | (address & 0xFFFF_F000u32)) == (((bits & 0xFFFu32) | (address & 0xFFFF_F000u32)) | 1u32)) by (bit_vector);
}

pub struct PageDirectory {
    pub entries: Vec<PageDirectoryEntry>,
}

impl PageDirectory {
    pub open spec fn wf(&self) -> bool {
        self.entries@.len() == ENTRIES
    }

    pub fn new() -> (r: Self)
        ensures
            r.wf(),
            forall|i: int| 0 <= i < ENTRIES ==> (#[trigger] r.entries@[i]).0 == 0,
    {
        let mut entries: Vec<PageDirectoryEntry> = Vec::new();
        let mut i: usize = 0;
        while i < ENTRIES
            invariant
                i <= ENTRIES,
                entries@.len() == i,
                forall|j: int| 0 <= j < i ==> (#[trigger] entries@[j]).0 == 0,
            decreases ENTRIES - i,
        {
            entries.push(PageDirectoryEntry::new());
            i = i + 1;
        }
        PageDirectory { entries }
    }
}

pub struct PageTable {
    pub entries: Vec<PageTableEntry>,
}

impl PageTable {
    pub open spec fn wf(&self) -> bool {
        self.entries@.len() == ENTRIES
    }

    pub fn new() -> (r: Self)
        ensures
            r.wf(),
            forall|i: int| 0 <= i < ENTRIES ==> (#[trigger] r.entries@[i]).0 == 0,
    {
        let mut entries: Vec<PageTableEntry> = Vec::new();
        let mut i: usize = 0;
        while i < ENTRIES
            invariant
                i <= ENTRIES,
                entries@.len() == i,
                forall|j: int| 0 <= j < i ==> (#[trigger] entries@[j]).0 == 0,
            decreases ENTRIES - i,
        {
            entries.push(PageTableEntry::new());
            i = i + 1;
        }
        PageTable { entries }
    }
}

/// An entry after `set_address(address)`, `set_present()` and
/// `set_writable()`.
pub open spec fn mapped(bits: u32, address: u32) -> u32 {
    (with_address(bits, address) | PRESENT) | WRITABLE
}

/// The frame the initial tables give page `page` of table `table`: the
/// identity for tables 0..4, the kernel image for the higher-half table.
pub open spec fn initial_frame(table: int, page: int) -> u32 {
    if table < PT_KERNEL_MEMORY {
        ((table * ENTRIES + page) * PAGE_SIZE) as u32
    } else {
        (KERNEL_PHYS + page * PAGE_SIZE) as u32
    }
}

/// The directory slot that table `table` is installed in.
pub open spec fn initial_slot(table: int) -> int {
    if table < PT_KERNEL_MEMORY { table } else { KERNEL_PD_INDEX as int }
}

fn map_table(table: &mut PageTable, table_index: usize)
    requires
        old(table).wf(),
        table_index < MAX_PT,
    ensures
        final(table).wf(),
        forall|p: int| 0 <= p < ENTRIES ==> (#[trigger] final(table).entries@[p]).0 == mapped(
            old(table).entries@[p].0,
            initial_frame(table_index as int, p),
        ),
{
    let mut page_index: usize = 0;
    while page_index < ENTRIES
        invariant
            page_index <= ENTRIES,
            table_index < MAX_PT,
            table.wf(),
            forall|p: int| 0 <= p < page_index ==> (#[trigger] table.entries@[p]).0 == mapped(
                old(table).entries@[p].0,
                initial_frame(table_index as int, p),
            ),
            forall|p: int| page_index <= p < ENTRIES ==> (#[trigger] table.entries@[p]) == old(table).entries@[p],
        decreases ENTRIES - page_index,
    {
        let address: u32 = if table_index < PT_KERNEL_MEMORY {
            (table_index * ENTRIES * PAGE_SIZE + page_index * PAGE_SIZE) as u32
        } else {
            KERNEL_PHYS + (page_index * PAGE_SIZE) as u32
        };
        let mut entry = table.entries[page_index];
        entry.set_address(address);
        entry.set_present();
        entry.set_writable();
        table.entries.set(page_index, entry);
        page_index = page_index + 1;
    }
}

fn install(dir: &mut PageDirectory, slot: usize, table_address: u32)
    requires
        old(dir).wf(),
        slot < ENTRIES,
    ensures
        final(dir).wf(),
        final(dir).entries@ == old(dir).entries@.update(
            slot as int,
            PageDirectoryEntry(mapped(old(dir).entries@[slot as int].0, table_address)),
        ),
{
    let mut entry = dir.entries[slot];
    entry.set_address(table_address);
    entry.set_present();
    entry.set_writable();
    dir.entries.set(slot, entry);
}

/// Fills the initial paging structures: tables 0..4 identity-map the first
/// 16 MiB and are installed in directory slots 0..4; table 4 maps the
/// kernel image at `KERNEL_PHYS` and is installed in the slot of
/// `KERNEL_VIRT`. `table_addresses` are the physical addresses of the five
/// tables. Loading CR3 and turning paging on is left to the caller.
pub fn init_paging(dir: &mut PageDirectory, tables: &mut Vec<PageTable>, table_addresses: &Vec<u32>)
    requires
        old(dir).wf(),
        old(tables)@.len() == MAX_PT,
        table_addresses@.len() == MAX_PT,
        forall|t: int| 0 <= t < MAX_PT ==> (#[trigger] old(tables)@[t]).wf(),
    ensures
        final(dir).wf(),
        final(tables)@.len() == MAX_PT,
        forall|t: int| 0 <= t < MAX_PT ==> (#[trigger] final(tables)@[t]).wf(),
        forall|t: int, p: int| 0 <= t < MAX_PT && 0 <= p < ENTRIES ==> (#[trigger] final(tables)@[t].entries@[p]).0 == mapped(
            old(tables)@[t].entries@[p].0,
            initial_frame(t, p),
        ),
        forall|t: int| 0 <= t < MAX_PT ==> (#[trigger] final(dir).entries@[initial_slot(t)]).0 == mapped(
            old(dir).entries@[initial_slot(t)].0,
            table_addresses@[t],
        ),
        forall|s: int| 0 <= s < ENTRIES && !(0 <= s < PT_KERNEL_MEMORY) && s != KERNEL_PD_INDEX ==> #[trigger] final(dir).entries@[s]
            == old(dir).entries@[s],
{
    let mut table_index: usize = 0;
    while table_index < MAX_PT
        invariant
            table_index <= MAX_PT,
            dir.wf(),
            tables@.len() == MAX_PT,
            table_addresses@.len() == MAX_PT,
            forall|t: int| 0 <= t < MAX_PT ==> (#[trigger] tables@[t]).wf(),
            forall|t: int, p: int| 0 <= t < table_index && 0 <= p < ENTRIES ==> (#[trigger] tables@[t].entries@[p]).0 == mapped(
                old(tables)@[t].entries@[p].0,
                initial_frame(t, p),
            ),
            forall|t: int| table_index <= t < MAX_PT ==> #[trigger] tables@[t] == old(tables)@[t],
            forall|t: int| 0 <= t < table_index ==> (#[trigger] dir.entries@[initial_slot(t)]).0 == mapped(
                old(dir).entries@[initial_slot(t)].0,
                table_addresses@[t],
            ),
            forall|s: int| 0 <= s < ENTRIES && !(0 <= s < table_index && s < PT_KERNEL_MEMORY) && !(table_index == MAX_PT && s == KERNEL_PD_INDEX)
                ==> #[trigger] dir.entries@[s] == old(dir).entries@[s],
        decreases MAX_PT - table_index,
    {
        let slot = if table_index < PT_KERNEL_MEMORY { table_index } else { KERNEL_PD_INDEX };
        install(dir, slot, table_addresses[table_index]);
        map_table(&mut tables[table_index], table_index);
        table_index = table_index + 1;
    }
}


/// Where page `page` of table `table` of the initial tables is mapped from
/// and to, as the page-table report prints it.
#[derive(Clone, Copy, PartialEq, Eq, Structural, Debug)]
pub struct Mapping {
    pub virtual_address: u32,
    pub pd_index: u32,
    pub pt_index: u32,
    pub physical_address: u32,
}

/// A table's line of the report: how many entries are present, and the
/// first and last present ones.
#[derive(Clone, Copy, PartialEq, Eq, Structural, Debug)]
pub struct TableSummary {
    pub count: usize,
    pub first: Option<Mapping>,
    pub last: Option<Mapping>,
}

pub open spec fn is_present(bits: u32) -> bool {
    bits & PRESENT != 0
}

/// The virtual address page `page` of table `table` stands for.
pub open spec fn virtual_of(table: int, page: int) -> u32 {
    if table < PT_KERNEL_MEMORY {
        ((table * ENTRIES + page) * PAGE_SIZE) as u32
    } else {
        (KERNEL_VIRT + page * PAGE_SIZE) as u32
    }
}

pub open spec fn mapping_of(table: int, page: int, bits: u32) -> Mapping {
    let v = virtual_of(table, page);
    Mapping {
        virtual_address: v,
        pd_index: (v >> 22u32) & 0x3FF,
        pt_index: (v >> 12u32) & 0x3FF,
        physical_address: bits & ADDRESS_MASK,
    }
}

/// Number of present entries among the first `k`.
pub open spec fn present_count(es: Seq<PageTableEntry>, k: int) -> nat
    decreases k,
{
    if k <= 0 {
        0
    } else {
        present_count(es, k - 1) + if is_present(es[k - 1].0) { 1nat } else { 0nat }
    }
}

/// Index of the first present entry among the first `k`, or -1.
pub open spec fn first_present(es: Seq<PageTableEntry>, k: int) -> int
    decreases k,
{
    if k <= 0 {
        -1
    } else if first_present(es, k - 1) >= 0 {
        first_present(es, k - 1)
    } else if is_present(es[k - 1].0) {
        k - 1
    } else {
        -1
    }
}

/// Index of the last present entry among the first `k`, or -1.
pub open spec fn last_present(es: Seq<PageTableEntry>, k: int) -> int
    decreases k,
{
    if k <= 0 {
        -1
    } else if is_present(es[k - 1].0) {
        k - 1
    } else {
        last_present(es, k - 1)
    }
}

fn mapping(table_index: usize, page_index: usize, bits: u32) -> (r: Mapping)
    requires
        table_index < MAX_PT,
        page_index < ENTRIES,
    ensures
        r == mapping_of(table_index as int, page_index as int, bits),
{
    let v: u32 = if table_index < PT_KERNEL_MEMORY {
        (table_index * ENTRIES * PAGE_SIZE + page_index * PAGE_SIZE) as u32
    } else {
        KERNEL_VIRT + (page_index * PAGE_SIZE) as u32
    };
    Mapping { virtual_address: v, pd_index: (v >> 22u32) & 0x3FF, pt_index: (v >> 12u32) & 0x3FF, physical_address: bits & ADDRESS_MASK }
}

/// The report line of table `table_index`.
pub fn table_summary(table: &PageTable, table_index: usize) -> (r: TableSummary)
    requires
        table.wf(),
        table_index < MAX_PT,
    ensures
        r.count == present_count(table.entries@, ENTRIES as int),
        first_present(table.entries@, ENTRIES as int) < 0 ==> r.first is None,
        first_present(table.entries@, ENTRIES as int) >= 0 ==> r.first == Some(mapping_of(
            table_index as int,
            first_present(table.entries@, ENTRIES as int),
            table.entries@[first_present(table.entries@, ENTRIES as int)].0,
        )),
        last_present(table.entries@, ENTRIES as int) < 0 ==> r.last is None,
        last_present(table.entries@, ENTRIES as int) >= 0 ==> r.last == Some(mapping_of(
            table_index as int,
            last_present(table.entries@, ENTRIES as int),
            table.entries@[last_present(table.entries@, ENTRIES as int)].0,
        )),
{
    let ghost es = table.entries@;
    let mut count: usize = 0;
    let mut first: Option<Mapping> = None;
    let mut last: Option<Mapping> = None;
    let mut page_index: usize = 0;
    while page_index < ENTRIES
        invariant
            page_index <= ENTRIES,
            table.wf(),
            es == table.entries@,
            table_index < MAX_PT,
            count == present_count(es, page_index as int),
            count <= page_index,
            first_present(es, page_index as int) < 0 ==> first is None,
            first_present(es, page_index as int) >= 0 ==> first == Some(mapping_of(
                table_index as int,
                first_present(es, page_index as int),
                es[first_present(es, page_index as int)].0,
            )),
            0 <= first_present(es, page_index as int) ==> first_present(es, page_index as int) < page_index,
            last_present(es, page_index as int) < 0 ==> last is None,
            last_present(es, page_index as int) >= 0 ==> last == Some(mapping_of(
                table_index as int,
                last_present(es, page_index as int),
                es[last_present(es, page_index as int)].0,
            )),
            last_present(es, page_index as int) < page_index,
        decreases ENTRIES - page_index,
    {
        let entry = table.entries[page_index].value();
        if entry & PRESENT != 0 {
            count = count + 1;
            let m = mapping(table_index, page_index, entry);
            if first.is_none() {
                first = Some(m);
            }
            last = Some(m);
        }
        page_index = page_index + 1;
    }
    TableSummary { count, first, last }
}


/// The directory the initial tables give when filled from zeros: slots
/// 0..4 and the higher-half slot point at the five tables, the rest are
/// empty.
pub open spec fn initial_directory(addrs: Seq<u32>) -> Seq<u32> {
    Seq::new(ENTRIES as nat, |s: int|
        if 0 <= s < PT_KERNEL_MEMORY { mapped(0, addrs[s]) }
        else if s == KERNEL_PD_INDEX { mapped(0, addrs[PT_KERNEL_MEMORY as int]) }
        else { 0 })
}

/// The five tables the initial tables give when filled from zeros.
pub open spec fn initial_tables() -> Seq<Seq<u32>> {
    Seq::new(MAX_PT as nat, |t: int| Seq::new(ENTRIES as nat, |p: int| mapped(0, initial_frame(t, p))))
}

/// The table whose physical address (at `addrs`) a directory entry holds.
pub open spec fn table_of(addrs: Seq<u32>, pde: u32) -> int {
    choose|t: int| 0 <= t < addrs.len() && addrs[t] & ADDRESS_MASK == pde & ADDRESS_MASK
}

/// The physical address the processor reaches for virtual address `v`,
/// walking a directory and tables placed at `addrs`; `None` on a fault.
pub open spec fn translate(dir: Seq<u32>, tables: Seq<Seq<u32>>, addrs: Seq<u32>, v: u32) -> Option<u32> {
    let pde = dir[(v >> 22u32) as int];
    if !is_present(pde) {
        None
    } else if !(exists|t: int| 0 <= t < addrs.len() && addrs[t] & ADDRESS_MASK == pde & ADDRESS_MASK) {
        None
    } else {
        let pte = tables[table_of(addrs, pde)][((v >> 12u32) & 0x3FF) as int];
        if !is_present(pte) {
            None
        } else {
            Some((pte & ADDRESS_MASK) | (v & 0xFFF))
        }
    }
}

proof fn lemma_mapped_zero(a: u32)
    ensures
        is_present(mapped(0, a)),
        mapped(0, a) & ADDRESS_MASK == a & ADDRESS_MASK,
{
    assert(((((0u32 & 0xFFFu32) | (a & 0xFFFF_F000u32)) | 1u32) | 2u32) & 1u32 != 0) by (bit_vector);
    assert(((((0u32 & 0xFFFu32) | (a & 0xFFFF_F000u32)) | 1u32) | 2u32) & 0xFFFF_F000u32 == a & 0xFFFF_F000u32) by (bit_vector);
}

/// The initial tables, filled from zeros with the five tables at distinct
/// page-aligned addresses, map the first 16 MiB to themselves and the 4 MiB
/// from 0xE0000000 to the kernel image at 0x100000.
proof fn lemma_initial_translation(addrs: Seq<u32>, v: u32)
    requires
        addrs.len() == MAX_PT,
        forall|t1: int, t2: int| 0 <= t1 < MAX_PT && 0 <= t2 < MAX_PT && t1 != t2 ==> #[trigger] (addrs[t1] & ADDRESS_MASK)
            != #[trigger] (addrs[t2] & ADDRESS_MASK),
    ensures
        v < 0x100_0000 ==> translate(initial_directory(addrs), initial_tables(), addrs, v) == Some(v),
        KERNEL_VIRT <= v < KERNEL_VIRT + 0x40_0000 ==> translate(initial_directory(addrs), initial_tables(), addrs, v)
            == Some((v - KERNEL_VIRT + KERNEL_PHYS) as u32),
{
    let s = v >> 22u32;
    let p = (v >> 12u32) & 0x3FF;
    assert(p < 1024) by (bit_vector)
        requires p == (v >> 12u32) & 0x3FF;
    if v < 0x100_0000 {
        assert(s < 4) by (bit_vector)
            requires s == v >> 22u32, v < 0x100_0000;
        let frame: u32 = ((s * 1024 + p) * 4096) as u32;
        assert(frame & 0xFFFF_F000u32 == frame && (frame | (v & 0xFFFu32)) == v) by (bit_vector)
            requires
                s == v >> 22u32,
                p == (v >> 12u32) & 0x3FF,
                v < 0x100_0000,
                frame == ((s * 1024 + p) * 4096) as u32;
        let dir = initial_directory(addrs);
        let pde = dir[s as int];
        assert(pde == mapped(0, addrs[s as int]));
        lemma_mapped_zero(addrs[s as int]);
        assert(addrs[s as int] & ADDRESS_MASK == pde & ADDRESS_MASK);
        let t = table_of(addrs, pde);
        assert(t == s);
        assert(initial_frame(s as int, p as int) == frame);
        lemma_mapped_zero(frame);
    }
    if KERNEL_VIRT <= v < KERNEL_VIRT + 0x40_0000 {
        assert(s == 896) by (bit_vector)
            requires s == v >> 22u32, 0xE000_0000u32 <= v < 0xE040_0000u32;
        let frame: u32 = (0x10_0000 + p * 4096) as u32;
        assert(frame & 0xFFFF_F000u32 == frame && (frame | (v & 0xFFFu32)) == v - 0xE000_0000u32 + 0x10_0000u32) by (bit_vector)
            requires
                p == (v >> 12u32) & 0x3FF,
                0xE000_0000u32 <= v < 0xE040_0000u32,
                frame == (0x10_0000 + p * 4096) as u32;
        let dir = initial_directory(addrs);
        let pde = dir[896];
        assert(pde == mapped(0, addrs[4]));
        lemma_mapped_zero(addrs[4]);
        let t = table_of(addrs, pde);
        assert(t == 4);
        assert(initial_frame(4, p as int) == frame);
        lemma_mapped_zero(frame);
    }
}

/// The raw bits of a directory.
pub open spec fn directory_bits(dir: Seq<PageDirectoryEntry>) -> Seq<u32> {
    dir.map_values(|e: PageDirectoryEntry| e.0)
}

/// The raw bits of a list of tables.
pub open spec fn table_bits(tables: Seq<PageTable>) -> Seq<Seq<u32>> {
    tables.map_values(|t: PageTable| t.entries@.map_values(|e: PageTableEntry| e.0))
}

proof fn lemma_init_from_zero(
    dir0: Seq<PageDirectoryEntry>,
    tables0: Seq<PageTable>,
    addrs: Seq<u32>,
    dir1: Seq<PageDirectoryEntry>,
    tables1: Seq<PageTable>,
)
    requires
        dir0.len() == ENTRIES,
        dir1.len() == ENTRIES,
        tables0.len() == MAX_PT,
        tables1.len() == MAX_PT,
        addrs.len() == MAX_PT,
        forall|s: int| 0 <= s < ENTRIES ==> (#[trigger] dir0[s]).0 == 0,
        forall|t: int, p: int| 0 <= t < MAX_PT && 0 <= p < ENTRIES ==> (#[trigger] tables0[t].entries@[p]).0 == 0,
        forall|t: int| 0 <= t < MAX_PT ==> (#[trigger] tables1[t]).wf(),
        forall|t: int, p: int| 0 <= t < MAX_PT && 0 <= p < ENTRIES ==> (#[trigger] tables1[t].entries@[p]).0 == mapped(
            tables0[t].entries@[p].0,
            initial_frame(t, p),
        ),
        forall|t: int| 0 <= t < MAX_PT ==> (#[trigger] dir1[initial_slot(t)]).0 == mapped(dir0[initial_slot(t)].0, addrs[t]),
        forall|s: int| 0 <= s < ENTRIES && !(0 <= s < PT_KERNEL_MEMORY) && s != KERNEL_PD_INDEX ==> #[trigger] dir1[s] == dir0[s],
    ensures
        directory_bits(dir1) == initial_directory(addrs),
        table_bits(tables1) == initial_tables(),
{
    assert forall|s: int| 0 <= s < ENTRIES implies #[trigger] directory_bits(dir1)[s] == initial_directory(addrs)[s] by {
        if 0 <= s < PT_KERNEL_MEMORY {
            assert(initial_slot(s) == s);
            assert(dir1[initial_slot(s)].0 == mapped(dir0[initial_slot(s)].0, addrs[s]));
        } else if s == KERNEL_PD_INDEX {
            assert(initial_slot(4) == s);
            assert(dir1[initial_slot(4)].0 == mapped(dir0[initial_slot(4)].0, addrs[4]));
        } else {
            assert(dir1[s] == dir0[s]);
        }
    }
    assert(directory_bits(dir1) =~= initial_directory(addrs));
    assert forall|t: int| 0 <= t < MAX_PT implies #[trigger] table_bits(tables1)[t] == initial_tables()[t] by {
        assert forall|p: int| 0 <= p < ENTRIES implies #[trigger] table_bits(tables1)[t][p] == initial_tables()[t][p] by {
            assert(tables1[t].entries@[p].0 == mapped(tables0[t].entries@[p].0, initial_frame(t, p)));
            assert(tables0[t].entries@[p].0 == 0);
        }
        assert(table_bits(tables1)[t] =~= initial_tables()[t]);
    }
    assert(table_bits(tables1) =~= initial_tables());
}

/// `init_paging` run on a zeroed directory and zeroed tables placed at
/// distinct page frames `addrs` makes the processor translate every address
/// of the first 16 MiB to itself, and every address of the 4 MiB from
/// `KERNEL_VIRT` to the same offset from `KERNEL_PHYS`.
pub proof fn lemma_init_paging_translation(
    dir0: Seq<PageDirectoryEntry>,
    tables0: Seq<PageTable>,
    addrs: Seq<u32>,
    dir1: Seq<PageDirectoryEntry>,
    tables1: Seq<PageTable>,
    v: u32,
)
    requires
        dir0.len() == ENTRIES,
        dir1.len() == ENTRIES,
        tables0.len() == MAX_PT,
        tables1.len() == MAX_PT,
        addrs.len() == MAX_PT,
        forall|t1: int, t2: int| 0 <= t1 < MAX_PT && 0 <= t2 < MAX_PT && t1 != t2 ==> #[trigger] (addrs[t1] & ADDRESS_MASK)
            != #[trigger] (addrs[t2] & ADDRESS_MASK),
        forall|s: int| 0 <= s < ENTRIES ==> (#[trigger] dir0[s]).0 == 0,
        forall|t: int, p: int| 0 <= t < MAX_PT && 0 <= p < ENTRIES ==> (#[trigger] tables0[t].entries@[p]).0 == 0,
        forall|t: int| 0 <= t < MAX_PT ==> (#[trigger] tables1[t]).wf(),
        forall|t: int, p: int| 0 <= t < MAX_PT && 0 <= p < ENTRIES ==> (#[trigger] tables1[t].entries@[p]).0 == mapped(
            tables0[t].entries@[p].0,
            initial_frame(t, p),
        ),
        forall|t: int| 0 <= t < MAX_PT ==> (#[trigger] dir1[initial_slot(t)]).0 == mapped(dir0[initial_slot(t)].0, addrs[t]),
        forall|s: int| 0 <= s < ENTRIES && !(0 <= s < PT_KERNEL_MEMORY) && s != KERNEL_PD_INDEX ==> #[trigger] dir1[s] == dir0[s],
    ensures
        v < 0x100_0000 ==> translate(directory_bits(dir1), table_bits(tables1), addrs, v) == Some(v),
        KERNEL_VIRT <= v < KERNEL_VIRT + 0x40_0000 ==> translate(directory_bits(dir1), table_bits(tables1), addrs, v)
            == Some((v - KERNEL_VIRT + KERNEL_PHYS) as u32),
{
    lemma_init_from_zero(dir0, tables0, addrs, dir1, tables1);
    lemma_initial_translation(addrs, v);
}

} // verus!
