use vstd::prelude::*;

use crate::device::ata::{le_u32, read_le_u32};

verus! {

/// Number of slots for logical partitions in a disk (numbered from 4, after
/// the four primary ones, so only `DISK_LOGICAL_PARTITION_CNT - 4` fit).
pub const DISK_LOGICAL_PARTITION_CNT: usize = 8;

/// The partition type of an extended partition.
#[derive(Debug, Clone, Copy, PartialEq, Eq, Structural)]
pub enum PartitionType {
    /// Type byte 0x5.
    Extended,
}

impl PartitionType {
    pub open spec fn spec_code(&self) -> u8 {
        match self {
            PartitionType::Extended => 0x5,
        }
    }

    pub fn code(&self) -> (c: u8)
        ensures
            c == self.spec_code(),
    {
        match self {
            PartitionType::Extended => 0x5,
        }
    }
}

/// One 16-byte entry of a partition table.
#[derive(Debug, Clone, Copy, PartialEq, Eq, Structural)]
pub struct PartitionTableEntry {
    /// 0x80 when the partition can be booted, 0 otherwise.
    pub boot_indicator: u8,
    pub starting_head: u8,
    pub starting_sector: u8,
    pub starting_cylinder: u8,
    /// The partition type; 0 for an unused entry.
    pub part_type: u8,
    pub ending_head: u8,
    pub ending_sector: u8,
    pub ending_cylinder: u8,
    /// First sector of the partition, relative to the table's base.
    pub start_lba: u32,
    /// Number of sectors.
    pub sec_cnt: u32,
}

impl PartitionTableEntry {
    /// The entry stored at `off` in `b`.
    pub open spec fn spec_parse(b: Seq<u8>, off: int) -> Self {
        PartitionTableEntry {
            boot_indicator: b[off],
            starting_head: b[off + 1],
            starting_sector: b[off + 2],
            starting_cylinder: b[off + 3],
            part_type: b[off + 4],
            ending_head: b[off + 5],
            ending_sector: b[off + 6],
            ending_cylinder: b[off + 7],
            start_lba: le_u32(b, off + 8) as u32,
            sec_cnt: le_u32(b, off + 12) as u32,
        }
    }

    /// Reads the entry stored at `off` in `b`.
    pub fn parse(b: &[u8], off: usize) -> (e: Self)
        requires
            off + 16 <= b@.len(),
        ensures
            e == Self::spec_parse(b@, off as int),
    {
        PartitionTableEntry {
            boot_indicator: b[off],
            starting_head: b[off + 1],
            starting_sector: b[off + 2],
            starting_cylinder: b[off + 3],
            part_type: b[off + 4],
            ending_head: b[off + 5],
            ending_sector: b[off + 6],
            ending_cylinder: b[off + 7],
            start_lba: read_le_u32(b, off + 8),
            sec_cnt: read_le_u32(b, off + 12),
        }
    }

    /// Whether the entry describes an extended partition.
    pub fn is_extended(&self) -> (r: bool)
        ensures
            r == (self.part_type == 0x5),
    {
        self.part_type == PartitionType::Extended.code()
    }

    /// Whether the entry is unused.
    pub fn is_empty(&self) -> (r: bool)
        ensures
            r == (self.part_type == 0),
    {
        self.part_type == 0x0
    }
}

/// A boot sector (MBR or EBR): 446 bytes of code, four table entries and the
/// signature 0x55 0xaa.
#[derive(Debug)]
pub struct BootSector {
    pub part_table: Vec<PartitionTableEntry>,
    pub sign: u16,
}

impl BootSector {
    /// Reads the boot sector `buf` (at least 512 bytes).
    pub fn parse(buf: &[u8]) -> (s: Self)
        requires
            buf@.len() >= 512,
        ensures
            s.part_table@.len() == 4,
            forall|i: int| 0 <= i < 4 ==> #[trigger] s.part_table@[i] == PartitionTableEntry::spec_parse(buf@, 446 + 16 * i),
            s.sign == buf@[510] + 256 * buf@[511],
    {
        let mut part_table: Vec<PartitionTableEntry> = Vec::new();
        let mut i: usize = 0;
        while i < 4
            invariant
                i <= 4,
                buf@.len() >= 512,
                part_table@.len() == i,
                forall|k: int| 0 <= k < i ==> #[trigger] part_table@[k] == PartitionTableEntry::spec_parse(buf@, 446 + 16 * k),
            decreases 4 - i,
        {
            part_table.push(PartitionTableEntry::parse(buf, 446 + 16 * i));
            i = i + 1;
        }
        let sign = (buf[510] as u16) + 256 * (buf[511] as u16);
        BootSector { part_table, sign }
    }
}

/// A partition found on a disk; its name is the disk's name followed by `part_no`.
#[derive(Debug, Clone, Copy, PartialEq, Eq, Structural)]
pub struct PartitionInfo {
    pub part_no: usize,
    /// First sector, absolute on the disk.
    pub lba_start: u32,
    pub sec_cnt: u32,
}

impl PartitionInfo {
    /// The absolute address of the sector `rel_lba_start` sectors into the partition.
    pub fn abs_lba_start(&self, rel_lba_start: u32) -> (lba: u32)
        requires
            self.lba_start + rel_lba_start <= u32::MAX,
        ensures
            lba == self.lba_start + rel_lba_start,
    {
        self.lba_start + rel_lba_start
    }
}

/// A pending extended boot record: where it is and the number of the first
/// logical partition it may hold.
#[derive(Debug, Clone, Copy, PartialEq, Eq, Structural)]
pub struct PendingEbr {
    pub lba: u32,
    pub part_no: usize,
}

/// What the primary table yields: the primary partitions (numbered by their
/// entry) and the extended partitions to scan.
pub open spec fn scan_primary(table: Seq<PartitionTableEntry>, n: int) -> (Seq<PartitionInfo>, Seq<u32>)
    decreases n,
{
    if n <= 0 {
        (Seq::empty(), Seq::empty())
    } else {
        let (parts, exts) = scan_primary(table, n - 1);
        let e = table[n - 1];
        if e.part_type == 0 {
            (parts, exts)
        } else if e.part_type != 0x5 {
            (parts.push(PartitionInfo { part_no: (n - 1) as usize, lba_start: e.start_lba, sec_cnt: e.sec_cnt }), exts)
        } else {
            (parts, exts.push(e.start_lba))
        }
    }
}

/// Scans the primary partition table of a disk: every used entry that is not
/// extended is a primary partition numbered by its position; every extended
/// entry starts a chain of extended boot records to scan.
pub fn main_part_init(table: &Vec<PartitionTableEntry>) -> (r: (Vec<PartitionInfo>, Vec<u32>))
    ensures
        (r.0@, r.1@) == scan_primary(table@, table@.len() as int),
{
    let mut parts: Vec<PartitionInfo> = Vec::new();
    let mut exts: Vec<u32> = Vec::new();
    let mut idx: usize = 0;
    while idx < table.len()
        invariant
            idx <= table@.len(),
            (parts@, exts@) == scan_primary(table@, idx as int),
        decreases table@.len() - idx,
    {
        let part_entry = table[idx];
        if part_entry.is_empty() {
        } else if !part_entry.is_extended() {
            parts.push(PartitionInfo { part_no: idx, lba_start: part_entry.start_lba, sec_cnt: part_entry.sec_cnt });
        } else {
            exts.push(part_entry.start_lba);
        }
        idx = idx + 1;
    }
    (parts, exts)
}

/// What one extended boot record at `lba` yields: its logical partitions
/// (absolute start `lba + start_lba`, numbered on from `part_no`), the
/// records it chains to (`start_lba + base`), and the next number.
pub open spec fn scan_ebr(table: Seq<PartitionTableEntry>, lba: u32, base: u32, part_no: usize, n: int) -> (Seq<PartitionInfo>, Seq<PendingEbr>, int)
    decreases n,
{
    if n <= 0 {
        (Seq::empty(), Seq::empty(), part_no as int)
    } else {
        let (parts, pend, next) = scan_ebr(table, lba, base, part_no, n - 1);
        let e = table[n - 1];
        if e.part_type == 0 {
            (parts, pend, next)
        } else if e.part_type != 0x5 {
            (parts.push(PartitionInfo { part_no: next as usize, lba_start: (lba + e.start_lba) as u32, sec_cnt: e.sec_cnt }), pend, next + 1)
        } else {
            (parts, pend.push(PendingEbr { lba: (e.start_lba + base) as u32, part_no: next as usize }), next)
        }
    }
}

/// Whether every sum the scan of one record forms fits, and every logical
/// partition number fits the disk's slots.
pub open spec fn ebr_fits(table: Seq<PartitionTableEntry>, lba: u32, base: u32, part_no: usize) -> bool {
    &&& forall|i: int| 0 <= i < table.len() ==> (#[trigger] table[i]).part_type != 0 ==> {
        &&& (table[i].part_type != 0x5 ==> lba + table[i].start_lba <= u32::MAX)
        &&& (table[i].part_type == 0x5 ==> table[i].start_lba + base <= u32::MAX)
    }
    &&& scan_ebr(table, lba, base, part_no, table.len() as int).2 <= DISK_LOGICAL_PARTITION_CNT
}

/// The depth-first scan of the extended partitions of one disk.
pub struct ExtendedScan {
    /// Records still to read, the last one first.
    pub stack: Vec<PendingEbr>,
    /// Start of the outermost extended partition; chained records are relative to it.
    pub main_ext_base: u32,
}

proof fn lemma_scan_ebr_next_grows(table: Seq<PartitionTableEntry>, lba: u32, base: u32, part_no: usize, n: int, m: int)
    requires
        0 <= n <= m <= table.len(),
    ensures
        scan_ebr(table, lba, base, part_no, n).2 <= scan_ebr(table, lba, base, part_no, m).2,
        scan_ebr(table, lba, base, part_no, n).2 >= part_no,
    decreases m,
{
    if n < m {
        lemma_scan_ebr_next_grows(table, lba, base, part_no, n, m - 1);
    } else {
        lemma_scan_ebr_at_least(table, lba, base, part_no, n);
    }
}

proof fn lemma_scan_ebr_at_least(table: Seq<PartitionTableEntry>, lba: u32, base: u32, part_no: usize, n: int)
    requires
        0 <= n <= table.len(),
    ensures
        scan_ebr(table, lba, base, part_no, n).2 >= part_no,
    decreases n,
{
    if n > 0 {
        lemma_scan_ebr_at_least(table, lba, base, part_no, n - 1);
    }
}

impl ExtendedScan {
    /// A scan of the extended partition at `main_ext_lba`; its logical
    /// partitions are numbered from 4.
    pub fn new(main_ext_lba: u32) -> (s: Self)
        ensures
            s.main_ext_base == main_ext_lba,
            s.stack@ == seq![PendingEbr { lba: main_ext_lba, part_no: 4 }],
    {
        let mut stack: Vec<PendingEbr> = Vec::new();
        stack.push(PendingEbr { lba: main_ext_lba, part_no: 4 });
        ExtendedScan { stack, main_ext_base: main_ext_lba }
    }

    /// The next record to read, if any is left.
    pub fn next_record(&mut self) -> (r: Option<PendingEbr>)
        ensures
            final(self).main_ext_base == old(self).main_ext_base,
            old(self).stack@.len() == 0 ==> r == None::<PendingEbr> && final(self).stack@ == old(self).stack@,
            old(self).stack@.len() > 0 ==> r == Some(old(self).stack@.last()) && final(self).stack@ == old(self).stack@.drop_last(),
    {
        self.stack.pop()
    }

    /// Whether the record `ebr`, whose table is `table`, can be handled: its
    /// sums fit and its logical partitions fit the disk's slots.
    pub fn record_fits(&self, ebr: PendingEbr, table: &Vec<PartitionTableEntry>) -> (r: bool)
        ensures
            r == ebr_fits(table@, ebr.lba, self.main_ext_base, ebr.part_no),
    {
        let ghost t = table@;
        let base = self.main_ext_base;
        if ebr.part_no > DISK_LOGICAL_PARTITION_CNT {
            proof {
                lemma_scan_ebr_at_least(t, ebr.lba, base, ebr.part_no, t.len() as int);
            }
            return false;
        }
        let mut next: usize = ebr.part_no;
        let mut idx: usize = 0;
        while idx < table.len()
            invariant
                t == table@,
                base == self.main_ext_base,
                idx <= t.len(),
                next <= DISK_LOGICAL_PARTITION_CNT,
                next == scan_ebr(t, ebr.lba, base, ebr.part_no, idx as int).2,
                forall|i: int| 0 <= i < idx ==> (#[trigger] t[i]).part_type != 0 ==> {
                    &&& (t[i].part_type != 0x5 ==> ebr.lba + t[i].start_lba <= u32::MAX)
                    &&& (t[i].part_type == 0x5 ==> t[i].start_lba + base <= u32::MAX)
                },
            decreases t.len() - idx,
        {
            let e = table[idx];
            if e.part_type != 0 {
                if e.part_type != 0x5 {
                    if (ebr.lba as u64) + (e.start_lba as u64) > 0xffff_ffff {
                        return false;
                    }
                    if next == DISK_LOGICAL_PARTITION_CNT {
                        proof {
                            lemma_scan_ebr_next_grows(t, ebr.lba, base, ebr.part_no, idx + 1, t.len() as int);
                        }
                        return false;
                    }
                    next = next + 1;
                } else {
                    if (e.start_lba as u64) + (base as u64) > 0xffff_ffff {
                        return false;
                    }
                }
            }
            idx = idx + 1;
        }
        true
    }

    /// Handles the record `ebr`, whose table is `table`: returns its logical
    /// partitions and pushes the records it chains to.
    pub fn extended_part_init(&mut self, ebr: PendingEbr, table: &Vec<PartitionTableEntry>) -> (parts: Vec<PartitionInfo>)
        requires
            ebr_fits(table@, ebr.lba, old(self).main_ext_base, ebr.part_no),
        ensures
            final(self).main_ext_base == old(self).main_ext_base,
            parts@ == scan_ebr(table@, ebr.lba, old(self).main_ext_base, ebr.part_no, table@.len() as int).0,
            final(self).stack@ == old(self).stack@ + scan_ebr(table@, ebr.lba, old(self).main_ext_base, ebr.part_no, table@.len() as int).1,
    {
        let mut parts: Vec<PartitionInfo> = Vec::new();
        let mut part_no = ebr.part_no;
        let mut idx: usize = 0;
        let ghost stack0 = self.stack@;
        while idx < table.len()
            invariant
                idx <= table@.len(),
                ebr_fits(table@, ebr.lba, self.main_ext_base, ebr.part_no),
                self.main_ext_base == old(self).main_ext_base,
                stack0 == old(self).stack@,
                parts@ == scan_ebr(table@, ebr.lba, self.main_ext_base, ebr.part_no, idx as int).0,
                self.stack@ == stack0 + scan_ebr(table@, ebr.lba, self.main_ext_base, ebr.part_no, idx as int).1,
                part_no == scan_ebr(table@, ebr.lba, self.main_ext_base, ebr.part_no, idx as int).2,
            decreases table@.len() - idx,
        {
            proof {
                lemma_scan_ebr_next_grows(table@, ebr.lba, self.main_ext_base, ebr.part_no, idx + 1, table@.len() as int);
            }
            let part_entry = table[idx];
            if part_entry.is_empty() {
            } else if !part_entry.is_extended() {
                parts.push(PartitionInfo { part_no, lba_start: ebr.lba + part_entry.start_lba, sec_cnt: part_entry.sec_cnt });
                part_no = part_no + 1;
            } else {
                self.stack.push(PendingEbr { lba: part_entry.start_lba + self.main_ext_base, part_no });
                assert(self.stack@ =~= stack0 + scan_ebr(table@, ebr.lba, self.main_ext_base, ebr.part_no, idx + 1).1);
            }
            idx = idx + 1;
        }
        parts
    }
}

} // verus!
