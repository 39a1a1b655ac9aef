use vstd::prelude::*;

use crate::filesystem::constant::{
    DISK_SECTOR_SIZE, FILESYSTEM_MAGIC, INODE_SIZE, MAX_FILE_PER_FS, SUPER_BLOCK_SECS, div_ceil, spec_div_ceil,
};

verus! {

/// The super block: where the parts of the file system lie in its partition.
/// Layout: boot block, super block, inode bitmap, inode table, block bitmap,
/// data blocks.
#[derive(Debug, Clone, Copy, PartialEq, Eq, Structural)]
pub struct SuperBlock {
    pub magic: u32,
    /// First sector of the partition.
    pub lba_start: u32,
    /// Sectors of the partition.
    pub sec_cnt: u32,
    pub inode_cnt: u32,
    pub root_inode_no: usize,
    pub inode_bitmap_lba: u32,
    pub inode_bitmap_secs: u32,
    pub inode_table_lba: u32,
    pub inode_table_secs: u32,
    pub block_bitmap_lba: u32,
    pub block_bitmap_secs: u32,
    pub data_lba_start: u32,
}

/// Sectors of the inode bitmap: one bit per inode.
pub open spec fn inode_bitmap_sectors() -> int {
    spec_div_ceil(MAX_FILE_PER_FS as int, (DISK_SECTOR_SIZE * 8) as int)
}

/// Sectors of the inode table.
pub open spec fn inode_table_sectors() -> int {
    spec_div_ceil(MAX_FILE_PER_FS * INODE_SIZE, DISK_SECTOR_SIZE as int)
}

/// Sectors left after the boot block (one sector), the super block (one
/// sector), the inode bitmap and the inode table.
pub open spec fn left_sectors(part_secs: u32) -> int {
    part_secs - 1 - SUPER_BLOCK_SECS - inode_bitmap_sectors() - inode_table_sectors()
}

/// Sectors of the block bitmap: enough bits for the sectors left once the
/// bitmap's own sectors are taken away.
pub open spec fn block_bitmap_sectors(part_secs: u32) -> int {
    spec_div_ceil(
        left_sectors(part_secs) - spec_div_ceil(left_sectors(part_secs), (DISK_SECTOR_SIZE * 8) as int),
        (DISK_SECTOR_SIZE * 8) as int,
    )
}

impl SuperBlock {
    /// The super block of a file system over the `part_secs` sectors from `part_lba`.
    pub fn new(part_lba: u32, part_secs: u32) -> (sb: Self)
        requires
            part_lba + 3 + inode_table_sectors() + block_bitmap_sectors(part_secs) <= u32::MAX,
            left_sectors(part_secs) >= 0,
        ensures
            sb.magic == FILESYSTEM_MAGIC,
            sb.lba_start == part_lba,
            sb.sec_cnt == part_secs,
            sb.inode_cnt == MAX_FILE_PER_FS,
            sb.root_inode_no == 0,
            sb.inode_bitmap_lba == part_lba + 2,
            sb.inode_bitmap_secs == inode_bitmap_sectors(),
            sb.inode_table_lba == part_lba + 2 + inode_bitmap_sectors(),
            sb.inode_table_secs == inode_table_sectors(),
            sb.block_bitmap_lba == part_lba + 2 + inode_bitmap_sectors() + inode_table_sectors(),
            sb.block_bitmap_secs == block_bitmap_sectors(part_secs),
            sb.data_lba_start == sb.block_bitmap_lba + block_bitmap_sectors(part_secs),
    {
        let inode_bitmap_lba = part_lba + 1 + 1;
        let inode_bitmap_sec = div_ceil(MAX_FILE_PER_FS, (DISK_SECTOR_SIZE as u32) * 8);
        assert(inode_bitmap_sec == 1);
        let inode_table_lba = inode_bitmap_lba + inode_bitmap_sec;
        let inode_table_sec = div_ceil(MAX_FILE_PER_FS * (INODE_SIZE as u32), DISK_SECTOR_SIZE as u32);
        assert(inode_table_sec == 480);
        let block_bitmap_lba = inode_table_lba + inode_table_sec;
        let left_secs = part_secs - 1 - SUPER_BLOCK_SECS - inode_bitmap_sec - inode_table_sec;
        let block_bitmap_secs = div_ceil(left_secs, (DISK_SECTOR_SIZE as u32) * 8);
        assert(block_bitmap_secs <= left_secs) by (nonlinear_arith)
            requires
                block_bitmap_secs == (left_secs + 4096 - 1) / 4096,
        ;
        let block_bitmap_secs = div_ceil(left_secs - block_bitmap_secs, (DISK_SECTOR_SIZE as u32) * 8);
        SuperBlock {
            magic: FILESYSTEM_MAGIC,
            lba_start: part_lba,
            sec_cnt: part_secs,
            inode_cnt: MAX_FILE_PER_FS,
            root_inode_no: 0,
            inode_bitmap_lba,
            inode_bitmap_secs: inode_bitmap_sec,
            inode_table_lba,
            inode_table_secs: inode_table_sec,
            block_bitmap_lba,
            block_bitmap_secs,
            data_lba_start: block_bitmap_lba + block_bitmap_secs,
        }
    }
}

} // verus!
