use vstd::prelude::*;

verus! {

/// Bytes in a disk sector.
pub const DISK_SECTOR_SIZE: usize = 512;
/// The magic number of the file system.
pub const FILESYSTEM_MAGIC: u32 = 0x20010217;
/// Direct data blocks of an inode.
pub const INODE_DIRECT_DATA_SECS: usize = 12;
/// Indirect blocks of an inode.
pub const INODE_INDIRECT_DATA_SECS: usize = 1;
/// Block addresses an indirect block holds (a sector of 4-byte addresses).
pub const INDIRECT_BLOCK_ENTRIES: usize = 128;
/// Data blocks an inode can address: the direct ones and those of its indirect block.
pub const INODE_BLOCK_SLOTS: usize = 140;
/// Inodes of one file system.
pub const MAX_FILE_PER_FS: u32 = 4096;
/// Bytes of a name in a directory entry, the terminating zero included.
pub const MAX_FILE_NAME: usize = 20;
/// Files the whole system can have open at once.
pub const MAX_OPENED_FILE_IN_SYSTEM: usize = 32;
/// Bytes of a path.
pub const MAX_FILE_PATH_LEN: usize = 100;
/// Bytes of an inode as stored on disk: number, size, twelve direct and one
/// indirect block address, four bytes each.
pub const INODE_SIZE: usize = 60;
/// Bytes of the super block as stored on disk (it is sector aligned).
pub const SUPER_BLOCK_SIZE: u32 = 512;
/// Sectors the super block takes on disk.
pub const SUPER_BLOCK_SECS: u32 = 1;
/// Bytes of a directory entry as stored on disk: inode number, name, and
/// type, each of the two numbers four bytes wide.
pub const DIR_ENTRY_SIZE: u32 = 28;
/// Directory entries one block holds.
pub const MAX_ENTRY_IN_BLOCK: usize = 18;

/// `a / b` rounded up.
pub open spec fn spec_div_ceil(a: int, b: int) -> int {
    (a + b - 1) / b
}

/// `a / b` rounded up.
pub fn div_ceil(a: u32, b: u32) -> (r: u32)
    requires
        b > 0,
    ensures
        r == spec_div_ceil(a as int, b as int),
{
    let q = a / b;
    if a % b == 0 {
        assert(q == (a + b - 1) / (b as int)) by (nonlinear_arith)
            requires
                b > 0,
                q == a / b,
                a % b == 0,
        ;
        q
    } else {
        assert(q + 1 == (a + b - 1) / (b as int)) by (nonlinear_arith)
            requires
                b > 0,
                q == a / b,
                a % b != 0,
        ;
        assert(q < u32::MAX) by (nonlinear_arith)
            requires
                b > 0,
                q == a / b,
                a % b != 0,
                a <= u32::MAX,
        ;
        q + 1
    }
}

} // verus!
