use vstd::prelude::*;

use crate::bitmap::{first_free_run, no_free_run};
use crate::mem_pool::MemPool;

verus! {

/// Entries in a page directory or a page table.
pub const PAGE_TABLE_ENTRY_COUNT: usize = 1024;

/// The bits of an entry that hold a frame's address.
pub const FRAME_MASK: u32 = 0xfffff000;

/// Present, writable, user-accessible: the flags of a new entry.
pub const DEFAULT_FLAGS: u32 = 0x7;

/// A page directory or page table entry: a frame's address in the high 20
/// bits, flags in the low 12 (bit 0: present).
#[derive(Debug, Clone, Copy, PartialEq, Eq, Structural)]
pub struct PageTableEntry {
    pub data: u32,
}

impl PageTableEntry {
    pub open spec fn spec_present(&self) -> bool {
        self.data & 1 == 1
    }

    /// An entry pointing at the frame of `addr`, present, writable, user.
    pub open spec fn spec_new_default(addr: usize) -> Self {
        PageTableEntry { data: ((addr as u32) & FRAME_MASK) | DEFAULT_FLAGS }
    }

    /// A new entry is present.
    pub proof fn lemma_new_default_present(addr: usize)
        ensures
            Self::spec_new_default(addr).spec_present(),
    {
        let d = ((addr as u32) & FRAME_MASK) | DEFAULT_FLAGS;
        assert(d & 1 == 1) by (bit_vector)
            requires
                d == ((addr as u32) & 0xfffff000u32) | 7u32,
        ;
    }

    pub fn new_default(addr: usize) -> (e: Self)
        ensures
            e == Self::spec_new_default(addr),
            e.spec_present(),
    {
        let d = ((addr as u32) & FRAME_MASK) | DEFAULT_FLAGS;
        assert(d & 1 == 1) by (bit_vector)
            requires
                d == ((addr as u32) & 0xfffff000u32) | 7u32,
        ;
        PageTableEntry { data: d }
    }

    /// An entry that is not present.
    pub fn empty() -> (e: Self)
        ensures
            e.data == 0,
            !e.spec_present(),
    {
        assert(0u32 & 1 != 1) by (bit_vector);
        PageTableEntry { data: 0 }
    }

    pub fn present(&self) -> (r: bool)
        ensures
            r == self.spec_present(),
    {
        self.data & 1 == 1
    }

    pub fn get_data(&self) -> (d: u32)
        ensures
            d == self.data,
    {
        self.data
    }
}

/// The index of the directory entry that `vaddr` goes through: its high 10 bits.
pub open spec fn spec_locate_pde(vaddr: usize) -> usize {
    (vaddr & 0xffc00000) >> 22
}

/// The index of the table entry that `vaddr` goes through: its middle 10 bits.
pub open spec fn spec_locate_pte(vaddr: usize) -> usize {
    (vaddr & 0x003ff000) >> 12
}

/// Both indexes of `vaddr` are below `PAGE_TABLE_ENTRY_COUNT`.
pub proof fn lemma_locate_bounds(vaddr: usize)
    ensures
        spec_locate_pde(vaddr) < PAGE_TABLE_ENTRY_COUNT,
        spec_locate_pte(vaddr) < PAGE_TABLE_ENTRY_COUNT,
{
    assert(((vaddr & 0xffc00000) >> 22) < 1024 && ((vaddr & 0x003ff000) >> 12) < 1024) by (bit_vector);
}

pub fn locate_pde(vaddr: usize) -> (i: usize)
    ensures
        i == spec_locate_pde(vaddr),
        i < PAGE_TABLE_ENTRY_COUNT,
{
    let i = (vaddr & 0xffc00000) >> 22;
    assert(((vaddr & 0xffc00000) >> 22) < 1024) by (bit_vector);
    i
}

pub fn locate_pte(vaddr: usize) -> (i: usize)
    ensures
        i == spec_locate_pte(vaddr),
        i < PAGE_TABLE_ENTRY_COUNT,
{
    let i = (vaddr & 0x003ff000) >> 12;
    assert(((vaddr & 0x003ff000) >> 12) < 1024) by (bit_vector);
    i
}

/// The address through which, with the directory mapping itself in its last
/// entry, the directory entry of `vaddr` can be read.
pub fn addr_to_pde(vaddr: usize) -> (a: u32)
    ensures
        a == 0xfffff000 + 4 * spec_locate_pde(vaddr),
{
    let i = locate_pde(vaddr);
    0xfffff000u32 + (i as u32) * 4
}

/// The address through which, with the directory mapping itself in its last
/// entry, the table entry of `vaddr` can be read.
pub fn addr_to_pte(vaddr: usize) -> (a: u32)
    ensures
        a == 0xffc00000 + ((vaddr as u32 & 0xffc00000) >> 10) + 4 * spec_locate_pte(vaddr),
{
    let i = locate_pte(vaddr);
    let hi = (vaddr as u32 & 0xffc00000) >> 10;
    assert(hi <= 0x3ff000) by (bit_vector)
        requires
            hi == (vaddr as u32 & 0xffc00000u32) >> 10u32,
    ;
    0xffc00000u32 + hi + (i as u32) * 4
}

/// The physical address that `vaddr` reaches through table entry `pte`: the
/// entry's frame plus the low 12 bits of `vaddr`.
pub open spec fn spec_phy_addr(pte: PageTableEntry, vaddr: usize) -> int {
    (pte.data & FRAME_MASK) + (vaddr & 0xfff)
}

/// A page directory with its page tables: `tables[i]` is the table that
/// directory entry `i` points at, empty while that entry is not present.
pub struct PageDirectory {
    pub pdes: Vec<PageTableEntry>,
    pub tables: Vec<Vec<PageTableEntry>>,
}

impl PageDirectory {
    pub open spec fn wf(&self) -> bool {
        &&& self.pdes@.len() == PAGE_TABLE_ENTRY_COUNT
        &&& self.tables@.len() == PAGE_TABLE_ENTRY_COUNT
        &&& forall|i: int|
            0 <= i < PAGE_TABLE_ENTRY_COUNT ==> (#[trigger] self.tables@[i])@.len() == (if self.pdes@[i].spec_present() {
                PAGE_TABLE_ENTRY_COUNT as int
            } else {
                0int
            })
    }

    /// The table entry that `vaddr` goes through, when its directory entry is present.
    pub open spec fn pte_of(&self, vaddr: usize) -> Option<PageTableEntry> {
        if self.pdes@[spec_locate_pde(vaddr) as int].spec_present() {
            Some(self.tables@[spec_locate_pde(vaddr) as int]@[spec_locate_pte(vaddr) as int])
        } else {
            None
        }
    }

    /// A directory without any present entry.
    pub fn new() -> (d: Self)
        ensures
            d.wf(),
            forall|i: int| 0 <= i < PAGE_TABLE_ENTRY_COUNT ==> !(#[trigger] d.pdes@[i]).spec_present(),
    {
        let mut pdes: Vec<PageTableEntry> = Vec::new();
        let mut tables: Vec<Vec<PageTableEntry>> = Vec::new();
        let mut i: usize = 0;
        while i < PAGE_TABLE_ENTRY_COUNT
            invariant
                i <= PAGE_TABLE_ENTRY_COUNT,
                pdes@.len() == i,
                tables@.len() == i,
                forall|k: int| 0 <= k < i ==> !(#[trigger] pdes@[k]).spec_present(),
                forall|k: int| 0 <= k < i ==> (#[trigger] tables@[k])@.len() == 0,
            decreases PAGE_TABLE_ENTRY_COUNT - i,
        {
            pdes.push(PageTableEntry::empty());
            tables.push(Vec::new());
            i = i + 1;
        }
        PageDirectory { pdes, tables }
    }

    /// The physical address `vaddr` reaches (see `spec_phy_addr`).
    pub fn get_phy_from_virtual_addr(&self, vaddr: usize) -> (p: usize)
        requires
            self.wf(),
            self.pte_of(vaddr) is Some,
        ensures
            p == spec_phy_addr(self.pte_of(vaddr)->0, vaddr),
    {
        let pde_idx = locate_pde(vaddr);
        let pte_idx = locate_pte(vaddr);
        let pte = self.tables[pde_idx][pte_idx];
        let data = pte.data;
        let frame = data & FRAME_MASK;
        let off = vaddr & 0xfff;
        assert(off < 4096) by (bit_vector)
            requires
                off == vaddr & 0xfff,
        ;
        assert(frame <= 0xfffff000) by (bit_vector)
            requires
                frame == data & 0xfffff000u32,
        ;
        frame as usize + off
    }

    /// Maps the page of `vaddr` to the frame of `phy_addr`. When the
    /// directory entry is not present, a page for the table comes from
    /// `kernel_pool` first.
    pub fn add_page_connection(&mut self, vaddr: usize, phy_addr: usize, kernel_pool: &mut MemPool)
        requires
            old(self).wf(),
            old(kernel_pool).wf(),
            old(self).pte_of(vaddr) matches Some(e) ==> !e.spec_present(),
            old(self).pte_of(vaddr) is None ==> !no_free_run(old(kernel_pool).used(), 1),
        ensures
            final(self).wf(),
            final(kernel_pool).wf(),
            final(kernel_pool).start() == old(kernel_pool).start(),
            final(kernel_pool).unit() == old(kernel_pool).unit(),
            final(kernel_pool).units() == old(kernel_pool).units(),
            final(self).pdes@[spec_locate_pde(vaddr) as int].spec_present(),
            final(self).pte_of(vaddr) == Some(PageTableEntry::spec_new_default(phy_addr)),
            forall|i: int|
                0 <= i < PAGE_TABLE_ENTRY_COUNT && i != spec_locate_pde(vaddr) ==> #[trigger] final(self).pdes@[i] == old(
                    self,
                ).pdes@[i] && final(self).tables@[i] == old(self).tables@[i],
            forall|j: int|
                0 <= j < PAGE_TABLE_ENTRY_COUNT && j != spec_locate_pte(vaddr) && old(self).pdes@[spec_locate_pde(
                    vaddr,
                ) as int].spec_present() ==> #[trigger] final(self).tables@[spec_locate_pde(vaddr) as int]@[j] == old(
                    self,
                ).tables@[spec_locate_pde(vaddr) as int]@[j],
            old(self).pdes@[spec_locate_pde(vaddr) as int].spec_present() ==> *final(kernel_pool) == *old(kernel_pool),
            old(self).pdes@[spec_locate_pde(vaddr) as int].spec_present() ==> final(self).pdes@[spec_locate_pde(
                vaddr,
            ) as int] == old(self).pdes@[spec_locate_pde(vaddr) as int],
            !old(self).pdes@[spec_locate_pde(vaddr) as int].spec_present() ==> forall|j: int|
                0 <= j < PAGE_TABLE_ENTRY_COUNT && j != spec_locate_pte(vaddr) ==> !(#[trigger] final(self).tables@[spec_locate_pde(
                    vaddr,
                ) as int]@[j]).spec_present(),
            !old(self).pdes@[spec_locate_pde(vaddr) as int].spec_present() ==> exists|k: int|
                #![trigger first_free_run(old(kernel_pool).used(), k, 1)]
                first_free_run(old(kernel_pool).used(), k, 1) && final(kernel_pool).used() == old(
                    kernel_pool,
                ).used().update(k, true) && final(self).pdes@[spec_locate_pde(vaddr) as int]
                    == PageTableEntry::spec_new_default(old(kernel_pool).addr_of(k) as usize),
    {
        let pde_idx = locate_pde(vaddr);
        let pte_idx = locate_pte(vaddr);
        if self.pdes[pde_idx].present() {
            let mut table = self.tables.remove(pde_idx);
            table.set(pte_idx, PageTableEntry::new_default(phy_addr));
            self.tables.insert(pde_idx, table);
            assert forall|i: int| 0 <= i < PAGE_TABLE_ENTRY_COUNT implies (#[trigger] self.tables@[i])@.len() == (if self.pdes@[i].spec_present() {
                PAGE_TABLE_ENTRY_COUNT as int
            } else {
                0int
            }) by {
                if i != pde_idx {
                    assert(self.tables@[i] == old(self).tables@[i]);
                }
            }
            return;
        }
        let table_addr = match kernel_pool.apply_one() {
            Ok(a) => a,
            Err(_) => {
                proof {
                    assert(false);
                }
                0
            },
        };
        self.pdes.set(pde_idx, PageTableEntry::new_default(table_addr));
        let mut table: Vec<PageTableEntry> = Vec::new();
        let mut j: usize = 0;
        while j < PAGE_TABLE_ENTRY_COUNT
            invariant
                j <= PAGE_TABLE_ENTRY_COUNT,
                table@.len() == j,
                forall|q: int| 0 <= q < j ==> !(#[trigger] table@[q]).spec_present(),
            decreases PAGE_TABLE_ENTRY_COUNT - j,
        {
            table.push(PageTableEntry::empty());
            j = j + 1;
        }
        table.set(pte_idx, PageTableEntry::new_default(phy_addr));
        self.tables.set(pde_idx, table);
    }

    /// Marks the directory entry of `vaddr` not present: no address of its
    /// 4 MiB range is mapped any more, and its table is dropped.
    pub fn unset_pde(&mut self, vaddr: usize)
        requires
            old(self).wf(),
        ensures
            final(self).wf(),
            final(self).pdes@ == old(self).pdes@.update(
                spec_locate_pde(vaddr) as int,
                PageTableEntry { data: old(self).pdes@[spec_locate_pde(vaddr) as int].data & 0xffff_fffe },
            ),
            !final(self).pdes@[spec_locate_pde(vaddr) as int].spec_present(),
            forall|i: int|
                0 <= i < PAGE_TABLE_ENTRY_COUNT && i != spec_locate_pde(vaddr) ==> #[trigger] final(self).tables@[i]
                    == old(self).tables@[i],
            forall|v: usize| spec_locate_pde(v) == spec_locate_pde(vaddr) ==> #[trigger] final(self).pte_of(v) is None,
    {
        let i = locate_pde(vaddr);
        let data = self.pdes[i].data;
        let d = data & 0xffff_fffe;
        assert(d & 1 != 1) by (bit_vector)
            requires
                d == data & 0xffff_fffeu32,
        ;
        self.pdes.set(i, PageTableEntry { data: d });
        self.tables.set(i, Vec::new());
    }

    /// Marks the table entry of `vaddr` not present.
    pub fn unset_pte(&mut self, vaddr: usize)
        requires
            old(self).wf(),
            old(self).pte_of(vaddr) is Some,
        ensures
            final(self).wf(),
            final(self).pte_of(vaddr) matches Some(e) && !e.spec_present(),
            final(self).pdes == old(self).pdes,
            forall|i: int|
                0 <= i < PAGE_TABLE_ENTRY_COUNT && i != spec_locate_pde(vaddr) ==> #[trigger] final(self).tables@[i] == old(
                    self,
                ).tables@[i],
            forall|j: int|
                0 <= j < PAGE_TABLE_ENTRY_COUNT && j != spec_locate_pte(vaddr) ==> #[trigger] final(self).tables@[spec_locate_pde(
                    vaddr,
                ) as int]@[j] == old(self).tables@[spec_locate_pde(vaddr) as int]@[j],
    {
        let pde_idx = locate_pde(vaddr);
        let pte_idx = locate_pte(vaddr);
        let mut table = self.tables.remove(pde_idx);
        let old_data = table[pte_idx].data;
        let d = old_data & 0xfffffffe;
        assert(d & 1 != 1) by (bit_vector)
            requires
                d == old_data & 0xfffffffeu32,
        ;
        table.set(pte_idx, PageTableEntry { data: d });
        self.tables.insert(pde_idx, table);
        assert forall|i: int| 0 <= i < PAGE_TABLE_ENTRY_COUNT implies (#[trigger] self.tables@[i])@.len() == (if self.pdes@[i].spec_present() {
            PAGE_TABLE_ENTRY_COUNT as int
        } else {
            0int
        }) by {
            if i != pde_idx {
                assert(self.tables@[i] == old(self).tables@[i]);
            }
        }
    }
}

/// Translating what was mapped: once the page of `vaddr` is mapped to the
/// frame of `phy_addr`, an address of that page reaches the frame's address
/// plus the address's offset in its page.
pub proof fn lemma_translate_after_map(phy_addr: usize, vaddr: usize)
    ensures
        spec_phy_addr(PageTableEntry::spec_new_default(phy_addr), vaddr) == ((phy_addr as u32) & FRAME_MASK) + (vaddr
            & 0xfff),
{
    let a = phy_addr as u32;
    assert(((a & 0xfffff000u32) | 7u32) & 0xfffff000u32 == a & 0xfffff000u32) by (bit_vector);
}

} // verus!
