use vstd::prelude::*;

use crate::device::drive::PartitionInfo;
use crate::filesystem::fs::FileSystem;
use crate::filesystem::superblock::{block_bitmap_sectors, inode_table_sectors, left_sectors};

verus! {

/// A partition of `secs` sectors from `lba` can hold a file system: room
/// for its fixed parts and for at least one sector of block bitmap, with
/// every address in `u32`.
pub open spec fn formattable(lba: u32, secs: u32) -> bool {
    &&& left_sectors(secs) >= 0
    &&& block_bitmap_sectors(secs) >= 1
    &&& lba + 3 + inode_table_sectors() + block_bitmap_sectors(secs) * 4097 <= u32::MAX
}

/// Whether a partition of `secs` sectors from `lba` can hold a file system.
pub fn can_format(lba: u32, secs: u32) -> (r: bool)
    ensures
        r == formattable(lba, secs),
{
    assert(inode_table_sectors() == 480);
    if (secs as u64) < 483 {
        return false;
    }
    let left: u64 = secs as u64 - 483;
    let used_by_map: u64 = (left + 4095) / 4096;
    assert(used_by_map <= left);
    let map_secs: u64 = (left - used_by_map + 4095) / 4096;
    assert(map_secs == block_bitmap_sectors(secs));
    if map_secs < 1 {
        return false;
    }
    (lba as u64) + 3 + 480 + map_secs * 4097 <= 0xffff_ffff
}

/// Installs a file system on every partition, in order.
pub fn install_filesystem_for_all_part(parts: &Vec<PartitionInfo>) -> (r: Vec<FileSystem>)
    requires
        forall|i: int| 0 <= i < parts@.len() ==> formattable(#[trigger] parts@[i].lba_start, parts@[i].sec_cnt),
    ensures
        r@.len() == parts@.len(),
        forall|i: int|
            0 <= i < r@.len() ==> (#[trigger] r@[i]).wf() && r@[i].super_block.lba_start == parts@[i].lba_start
                && r@[i].super_block.sec_cnt == parts@[i].sec_cnt && r@[i].free_blocks() + 1
                == block_bitmap_sectors(parts@[i].sec_cnt) * 4096,
{
    let mut out: Vec<FileSystem> = Vec::new();
    let mut i: usize = 0;
    while i < parts.len()
        invariant
            i <= parts@.len(),
            out@.len() == i,
            forall|k: int| 0 <= k < parts@.len() ==> formattable(#[trigger] parts@[k].lba_start, parts@[k].sec_cnt),
            forall|k: int|
                0 <= k < i ==> (#[trigger] out@[k]).wf() && out@[k].super_block.lba_start == parts@[k].lba_start
                    && out@[k].super_block.sec_cnt == parts@[k].sec_cnt && out@[k].free_blocks() + 1
                    == block_bitmap_sectors(parts@[k].sec_cnt) * 4096,
        decreases parts@.len() - i,
    {
        let p = parts[i];
        assert(formattable(parts@[i as int].lba_start, parts@[i as int].sec_cnt));
        let fs = FileSystem::format(p.lba_start, p.sec_cnt);
        out.push(fs);
        i = i + 1;
    }
    out
}

} // verus!
