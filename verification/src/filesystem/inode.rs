use vstd::prelude::*;

use crate::filesystem::constant::{DISK_SECTOR_SIZE, INODE_SIZE, MAX_FILE_PER_FS, div_ceil, spec_div_ceil};

verus! {

/// Where an inode lies in the inode table on disk.
#[derive(Debug, Clone, Copy, PartialEq, Eq, Structural)]
pub struct InodeLocation {
    /// The sector holding its first byte.
    pub lba: u32,
    /// The offset of its first byte in that sector.
    pub bytes_off: usize,
    /// The sectors it spans: 1, or 2 when it crosses a sector boundary.
    pub sec_cnt: usize,
}

impl InodeLocation {
    pub fn new(lba: u32, bytes_off: usize, sec_cnt: usize) -> (l: Self)
        ensures
            l == (InodeLocation { lba, bytes_off, sec_cnt }),
    {
        InodeLocation { lba, bytes_off, sec_cnt }
    }
}

/// Where inode `i_no` lies in an inode table starting at sector `inode_table_lba`.
pub open spec fn spec_locate_inode(inode_table_lba: u32, i_no: u32) -> InodeLocation {
    let start = i_no * INODE_SIZE;
    let sec_start = start / (DISK_SECTOR_SIZE as int);
    let sec_end = spec_div_ceil((i_no + 1) * INODE_SIZE, DISK_SECTOR_SIZE as int);
    InodeLocation {
        lba: (inode_table_lba + sec_start) as u32,
        bytes_off: (start % (DISK_SECTOR_SIZE as int)) as usize,
        sec_cnt: ((if sec_end > sec_start + 1 { sec_end } else { sec_start + 1 }) - sec_start) as usize,
    }
}

/// Finds inode `i_no` in the inode table that starts at `inode_table_lba`.
pub fn locate_inode(inode_table_lba: u32, i_no: u32) -> (l: InodeLocation)
    requires
        i_no <= MAX_FILE_PER_FS,
        inode_table_lba + 481 <= u32::MAX,
    ensures
        l == spec_locate_inode(inode_table_lba, i_no),
        l.sec_cnt == 1 || l.sec_cnt == 2,
        l.bytes_off < DISK_SECTOR_SIZE,
{
    let i_idx_start = (i_no as usize) * INODE_SIZE;
    let sec_start = i_idx_start / DISK_SECTOR_SIZE;
    let i_idx_end = ((i_no as usize) + 1) * INODE_SIZE;
    let sec_end = div_ceil(i_idx_end as u32, DISK_SECTOR_SIZE as u32) as usize;
    let hi = if sec_end > sec_start + 1 { sec_end } else { sec_start + 1 };
    assert(hi - sec_start <= 2) by (nonlinear_arith)
        requires
            i_idx_start == i_no * 60,
            sec_start == i_idx_start / 512,
            sec_end == ((i_no + 1) * 60 + 512 - 1) / 512,
            hi == (if sec_end > sec_start + 1 { sec_end as int } else { sec_start + 1 }),
    ;
    InodeLocation {
        lba: inode_table_lba + sec_start as u32,
        bytes_off: i_idx_start % DISK_SECTOR_SIZE,
        sec_cnt: hi - sec_start,
    }
}

} // verus!
