use vstd::prelude::*;

use crate::bitmap::{BitMap, count_free, lemma_count_free_all, first_free_run, lemma_count_free_nonzero, lemma_count_free_set, no_free_run};
use crate::filesystem::constant::{DIR_ENTRY_SIZE, DISK_SECTOR_SIZE, INODE_BLOCK_SLOTS, INODE_DIRECT_DATA_SECS, MAX_ENTRY_IN_BLOCK, MAX_FILE_PER_FS};
use crate::filesystem::dir_entry::{DirEntry, FileType, valid_name};
use crate::filesystem::superblock::{SuperBlock, block_bitmap_sectors, inode_table_sectors, left_sectors};
use crate::filesystem::file_util::{SLASH, path_pieces, split_pieces};
use vstd::string::StringSliceAdditionalSpecFns;

verus! {

/// Directory entry slots of an inode: one block holds `MAX_ENTRY_IN_BLOCK` of them.
pub const DIR_SLOTS: usize = 2520;

/// Slots held by the direct blocks.
pub const DIRECT_SLOTS: usize = 216;

/// An inode in memory: its size, the addresses of its data blocks and what
/// those blocks hold. Slot `k` of `blocks` is the LBA of data block `k`
/// (0: none); a regular file's bytes live in `sectors`, a directory's
/// entries in `slots` (slot `s` lives in block `s / MAX_ENTRY_IN_BLOCK`).
pub struct OpenedInode {
    pub i_no: u32,
    pub i_size: u32,
    pub blocks: Vec<u32>,
    pub indirect_block: u32,
    pub sectors: Vec<Vec<u8>>,
    pub slots: Vec<DirEntry>,
}

impl OpenedInode {
    pub open spec fn wf(&self) -> bool {
        &&& self.blocks@.len() == INODE_BLOCK_SLOTS
        &&& self.sectors@.len() == INODE_BLOCK_SLOTS
        &&& self.slots@.len() == DIR_SLOTS
        &&& self.i_size <= INODE_BLOCK_SLOTS * DISK_SECTOR_SIZE
        &&& forall|s: int| 0 <= s < DIR_SLOTS && !#[trigger] self.slot_live(s) ==> self.slots@[s].is_blank()
        &&& forall|s: int| 0 <= s < DIR_SLOTS && (#[trigger] self.slots@[s]).spec_is_empty() ==> self.slots@[s].is_blank()
        &&& self.names_unique()
        &&& forall|k: int, j: int|
            0 <= k < INODE_BLOCK_SLOTS && 0 <= j < DISK_SECTOR_SIZE && 512 * k + j >= self.i_size ==> #[trigger] self.byte(k, j) == 0
        &&& forall|k: int|
            0 <= k < INODE_BLOCK_SLOTS ==> (#[trigger] self.sectors@[k])@.len() == (if self.blocks@[k] == 0 {
                0int
            } else {
                DISK_SECTOR_SIZE as int
            })
    }

    /// No two live slots hold entries of the same non-empty name.
    pub open spec fn names_unique(&self) -> bool {
        forall|s: int, t: int|
            #![trigger self.slots@[s], self.slots@[t]]
            0 <= s < t < DIR_SLOTS && self.slot_live(s) && self.slot_live(t) && self.slots@[s].name_view().len() > 0
                ==> self.slots@[s].name_view() != self.slots@[t].name_view()
    }

    /// Byte `j` of data block `k`; a block not yet allocated reads as zeros.
    pub open spec fn byte(&self, k: int, j: int) -> u8 {
        if self.blocks@[k] != 0 {
            self.sectors@[k]@[j]
        } else {
            0
        }
    }

    /// The bytes of the file, `i_size` of them.
    pub open spec fn content(&self) -> Seq<u8> {
        Seq::new(self.i_size as nat, |p: int| self.byte(p / 512, p % 512))
    }

    /// Slot `s` is in an allocated data block.
    pub open spec fn slot_live(&self, s: int) -> bool {
        self.blocks@[s / 18] != 0
    }

    /// Slot `s` holds, among the live slots, the first entry named `name`.
    pub open spec fn first_named(&self, name: Seq<u8>, s: int) -> bool {
        &&& 0 <= s < DIR_SLOTS
        &&& self.slot_live(s)
        &&& self.slots@[s].name_view() == name
        &&& forall|t: int| 0 <= t < s ==> !(#[trigger] self.slot_live(t) && self.slots@[t].name_view() == name)
    }

    /// Some live slot holds an entry named `name`.
    pub open spec fn has_named(&self, name: Seq<u8>) -> bool {
        exists|s: int| 0 <= s < DIR_SLOTS && #[trigger] self.slot_live(s) && self.slots@[s].name_view() == name
    }

    /// The entry named `name` in this directory: the first one in slot order.
    pub open spec fn lookup(&self, name: Seq<u8>) -> Option<DirEntry> {
        if name.len() == 0 || !self.has_named(name) {
            None
        } else {
            Some(self.slots@[choose|s: int| self.first_named(name, s)])
        }
    }

    /// Finds the first live slot whose entry is named `name`.
    pub fn find_named(&self, name: &[u8]) -> (r: Option<usize>)
        requires
            self.wf(),
        ensures
            match r {
                Some(s) => self.first_named(name@, s as int),
                None => !self.has_named(name@),
            },
    {
        let mut s: usize = 0;
        while s < DIR_SLOTS
            invariant
                s <= DIR_SLOTS,
                self.wf(),
                forall|t: int| 0 <= t < s ==> !(#[trigger] self.slot_live(t) && self.slots@[t].name_view() == name@),
            decreases DIR_SLOTS - s,
        {
            if self.blocks[s / 18] != 0 && name_matches(&self.slots[s], name) {
                return Some(s);
            }
            s = s + 1;
        }
        None
    }

    /// The entry named `name`, if this directory has one.
    pub fn lookup_entry(&self, name: &[u8]) -> (r: Option<DirEntry>)
        requires
            self.wf(),
        ensures
            r == self.lookup(name@),
    {
        if name.len() == 0 {
            return None;
        }
        match self.find_named(name) {
            Some(s) => {
                let ghost c = choose|s: int| self.first_named(name@, s);
                assert(self.first_named(name@, c));
                assert(c == s as int);
                Some(self.slots[s])
            },
            None => None,
        }
    }

    /// An inode as just created: numbered `i_no`, empty, without data blocks.
    pub open spec fn is_fresh(&self, i_no: u32) -> bool {
        &&& self.wf()
        &&& self.i_no == i_no
        &&& self.i_size == 0
        &&& self.indirect_block == 0
        &&& forall|k: int| 0 <= k < INODE_BLOCK_SLOTS ==> #[trigger] self.blocks@[k] == 0
        &&& forall|s: int| 0 <= s < DIR_SLOTS ==> (#[trigger] self.slots@[s]).is_blank()
    }

    /// Slot `s` holds, among the live slots, the first entry that is not
    /// empty and names inode `i_no`.
    pub open spec fn first_with_ino(&self, i_no: u32, s: int) -> bool {
        &&& 0 <= s < DIR_SLOTS
        &&& self.slot_live(s)
        &&& self.slots@[s].i_no == i_no
        &&& !self.slots@[s].spec_is_empty()
        &&& forall|t: int|
            0 <= t < s ==> !(#[trigger] self.slot_live(t) && self.slots@[t].i_no == i_no && !self.slots@[t].spec_is_empty())
    }

    /// Finds the first live slot whose entry is not empty and names `i_no`.
    pub fn find_by_ino(&self, i_no: u32) -> (r: Option<usize>)
        requires
            self.wf(),
        ensures
            match r {
                Some(s) => self.first_with_ino(i_no, s as int),
                None => forall|t: int|
                    0 <= t < DIR_SLOTS ==> !(#[trigger] self.slot_live(t) && self.slots@[t].i_no == i_no
                        && !self.slots@[t].spec_is_empty()),
            },
    {
        let mut s: usize = 0;
        while s < DIR_SLOTS
            invariant
                s <= DIR_SLOTS,
                self.wf(),
                forall|t: int|
                    0 <= t < s ==> !(#[trigger] self.slot_live(t) && self.slots@[t].i_no == i_no
                        && !self.slots@[t].spec_is_empty()),
            decreases DIR_SLOTS - s,
        {
            if self.blocks[s / 18] != 0 && self.slots[s].i_no == i_no && !self.slots[s].is_empty() {
                return Some(s);
            }
            s = s + 1;
        }
        None
    }

    /// Cuts the inode down to `new_size` bytes; the bytes past it are cleared.
    pub fn shrink(&mut self, new_size: u32)
        requires
            old(self).wf(),
            new_size <= old(self).i_size,
        ensures
            final(self).wf(),
            final(self).i_size == new_size,
            final(self).content() == old(self).content().subrange(0, new_size as int),
            final(self).i_no == old(self).i_no,
            final(self).blocks == old(self).blocks,
            final(self).indirect_block == old(self).indirect_block,
            final(self).slots == old(self).slots,
    {
        let ghost o = *self;
        let mut p: u32 = new_size;
        while p < self.i_size
            invariant
                o.wf(),
                new_size <= p <= o.i_size,
                self.i_size == o.i_size,
                self.i_no == o.i_no,
                self.blocks == o.blocks,
                self.indirect_block == o.indirect_block,
                self.slots == o.slots,
                self.sectors@.len() == INODE_BLOCK_SLOTS,
                forall|k: int| 0 <= k < INODE_BLOCK_SLOTS ==> (#[trigger] self.sectors@[k])@.len() == o.sectors@[k]@.len(),
                forall|k: int, j: int|
                    0 <= k < INODE_BLOCK_SLOTS && 0 <= j < DISK_SECTOR_SIZE ==> #[trigger] self.byte(k, j) == (if new_size
                        <= 512 * k + j < p {
                        0
                    } else {
                        o.byte(k, j)
                    }),
            decreases o.i_size - p,
        {
            let k: usize = (p as usize) / DISK_SECTOR_SIZE;
            let j: usize = (p as usize) % DISK_SECTOR_SIZE;
            proof {
                vstd::arithmetic::div_mod::lemma_fundamental_div_mod(p as int, 512);
                vstd::arithmetic::div_mod::lemma_mod_pos_bound(p as int, 512);
            }
            if self.blocks[k] != 0 {
                let ghost before = *self;
                let mut sec = self.sectors.remove(k);
                sec.set(j, 0);
                self.sectors.insert(k, sec);
                proof {
                    assert forall|q: int, jj: int| 0 <= q < INODE_BLOCK_SLOTS && 0 <= jj < DISK_SECTOR_SIZE implies #[trigger] self.byte(q, jj) == (if new_size <= 512 * q + jj < p + 1 {
                        0
                    } else {
                        o.byte(q, jj)
                    }) by {
                        assert(before.byte(q, jj) == (if new_size <= 512 * q + jj < p { 0 } else { o.byte(q, jj) }));
                        if q != k {
                            assert(self.sectors@[q] == before.sectors@[q]);
                        }
                    }
                }
            } else {
                proof {
                    assert forall|q: int, jj: int| 0 <= q < INODE_BLOCK_SLOTS && 0 <= jj < DISK_SECTOR_SIZE implies #[trigger] self.byte(q, jj) == (if new_size <= 512 * q + jj < p + 1 {
                        0
                    } else {
                        o.byte(q, jj)
                    }) by {
                        if q == k && jj == j {
                            assert(self.byte(q, jj) == 0);
                        }
                    }
                }
            }
            p = p + 1;
        }
        let ghost s1 = *self;
        self.i_size = new_size;
        proof {
            assert forall|q: int, j: int|
                0 <= q < INODE_BLOCK_SLOTS && 0 <= j < DISK_SECTOR_SIZE && 512 * q + j >= self.i_size implies #[trigger] self.byte(q, j) == 0 by {
                assert(self.byte(q, j) == s1.byte(q, j));
                if 512 * q + j >= o.i_size {
                    assert(o.byte(q, j) == 0);
                }
            }
            assert forall|t: int| 0 <= t < DIR_SLOTS && !#[trigger] self.slot_live(t) implies self.slots@[t].is_blank() by {
                assert(!o.slot_live(t));
            }
            assert(self.content() =~= o.content().subrange(0, new_size as int)) by {
                assert forall|x: int| 0 <= x < new_size implies #[trigger] self.content()[x] == o.content()[x] by {
                    vstd::arithmetic::div_mod::lemma_fundamental_div_mod(x, 512);
                    vstd::arithmetic::div_mod::lemma_mod_pos_bound(x, 512);
                    assert(self.byte(x / 512, x % 512) == s1.byte(x / 512, x % 512));
                }
            }
        }
    }

    /// A fresh inode numbered `i_no`: empty, without data blocks.
    pub fn new(i_no: u32) -> (n: Self)
        ensures
            n.is_fresh(i_no),
    {
        let mut blocks: Vec<u32> = Vec::new();
        let mut sectors: Vec<Vec<u8>> = Vec::new();
        let mut k: usize = 0;
        while k < INODE_BLOCK_SLOTS
            invariant
                k <= INODE_BLOCK_SLOTS,
                blocks@.len() == k,
                sectors@.len() == k,
                forall|q: int| 0 <= q < k ==> #[trigger] blocks@[q] == 0,
                forall|q: int| 0 <= q < k ==> (#[trigger] sectors@[q])@.len() == 0,
            decreases INODE_BLOCK_SLOTS - k,
        {
            blocks.push(0);
            sectors.push(Vec::new());
            k = k + 1;
        }
        let mut slots: Vec<DirEntry> = Vec::new();
        let mut s: usize = 0;
        while s < DIR_SLOTS
            invariant
                s <= DIR_SLOTS,
                slots@.len() == s,
                forall|q: int| 0 <= q < s ==> (#[trigger] slots@[q]).is_blank(),
            decreases DIR_SLOTS - s,
        {
            slots.push(DirEntry::empty());
            s = s + 1;
        }
        OpenedInode { i_no, i_size: 0, blocks, indirect_block: 0, sectors, slots }
    }
}

/// A mounted file system: its super block, the inode and block bitmaps and
/// the inodes, indexed by inode number.
pub struct FileSystem {
    pub super_block: SuperBlock,
    pub inode_bitmap: BitMap,
    pub block_bitmap: BitMap,
    pub inodes: Vec<Option<OpenedInode>>,
}

impl FileSystem {
    pub open spec fn wf(&self) -> bool {
        &&& self.inodes@.len() == MAX_FILE_PER_FS
        &&& self.inode_bitmap@.len() == MAX_FILE_PER_FS
        &&& self.inode_bitmap.byte_len() * 8 <= usize::MAX
        &&& self.block_pool_ok()
        &&& forall|i: int|
            0 <= i < MAX_FILE_PER_FS ==> ((#[trigger] self.inodes@[i]) is Some <==> self.inode_bitmap@[i])
        &&& forall|i: int|
            0 <= i < MAX_FILE_PER_FS && (#[trigger] self.inodes@[i]) is Some ==> self.inodes@[i]->0.i_no == i
                && self.inodes@[i]->0.wf() && self.blocks_in_pool(self.inodes@[i]->0)
        &&& self.inodes@[0] is Some
        &&& self.super_block.root_inode_no == 0
    }

    /// Every block address of `n` lies in the block pool.
    pub open spec fn blocks_in_pool(&self, n: OpenedInode) -> bool {
        &&& forall|k: int|
            0 <= k < INODE_BLOCK_SLOTS && #[trigger] n.blocks@[k] != 0 ==> self.in_pool(n.blocks@[k])
        &&& n.indirect_block != 0 ==> self.in_pool(n.indirect_block)
    }

    /// `lba` is the address of a block of the pool.
    pub open spec fn in_pool(&self, lba: u32) -> bool {
        self.super_block.data_lba_start <= lba < self.super_block.data_lba_start + self.block_bitmap@.len()
    }

    /// The block pool is usable: LBAs of its blocks are nonzero and fit in `u32`.
    pub open spec fn block_pool_ok(&self) -> bool {
        &&& self.block_bitmap.byte_len() * 8 <= usize::MAX
        &&& 0 < self.super_block.data_lba_start
        &&& self.super_block.data_lba_start + self.block_bitmap@.len() <= u32::MAX
    }

    /// The slot the next entry of directory `dir` takes.
    pub open spec fn next_slot(&self, dir: int) -> int {
        available_slot(self.node(dir))->0
    }

    /// Inode `i` exists.
    pub open spec fn has(&self, i: int) -> bool {
        0 <= i < MAX_FILE_PER_FS && self.inodes@[i] is Some
    }

    /// Inode `i`.
    pub open spec fn node(&self, i: int) -> OpenedInode {
        self.inodes@[i]->0
    }

    /// Number of free data blocks.
    pub open spec fn free_blocks(&self) -> nat {
        count_free(self.block_bitmap@)
    }

    /// Follows the names `ps` from directory `dir`: the entry of the last name
    /// and its inode number; None where a name is missing from its directory
    /// or names an inode that does not exist.
    pub open spec fn walk(&self, dir: int, ps: Seq<Seq<u8>>) -> Option<(DirEntry, u32)>
        decreases ps.len(),
    {
        if ps.len() == 0 || !self.has(dir) {
            None
        } else {
            match self.node(dir).lookup(ps[0]) {
                None => None,
                Some(e) => if !self.has(e.i_no as int) {
                    None
                } else if ps.len() == 1 {
                    Some((e, e.i_no))
                } else {
                    self.walk(e.i_no as int, ps.drop_first())
                },
            }
        }
    }

    /// What a search for the path with bytes `b` finds, from the root: None
    /// for the empty path; for a path without names (`/`), the root's own
    /// entry; else the walk along its names.
    pub open spec fn resolves(&self, b: Seq<u8>, r: Option<(DirEntry, u32)>) -> bool {
        if b.len() == 0 {
            r is None
        } else if path_pieces(b).len() == 0 {
            r matches Some((e, i)) && i == 0 && e.i_no == 0 && e.file_type == FileType::Directory
                && e.name_view() == seq![SLASH]
        } else {
            r == self.walk(0, path_pieces(b))
        }
    }

    /// The type and inode number of what the path with bytes `b` names.
    pub open spec fn path_target(&self, b: Seq<u8>) -> Option<(FileType, u32)> {
        if b.len() == 0 {
            None
        } else if path_pieces(b).len() == 0 {
            Some((FileType::Directory, 0u32))
        } else {
            match self.walk(0, path_pieces(b)) {
                None => None,
                Some((e, i)) => Some((e.file_type, i)),
            }
        }
    }

    /// Room to create an entry in directory `dir` and then claim `extra` more
    /// data blocks: a free inode, a free slot, the data blocks that slot
    /// needs, and room in the directory's size.
    pub open spec fn room_for_entry(&self, dir: int, extra: nat) -> bool {
        &&& !no_free_run(self.inode_bitmap@, 1)
        &&& available_slot(self.node(dir)) is Some
        &&& self.free_blocks() >= blocks_needed(self.node(dir), self.next_slot(dir)) + extra
        &&& self.node(dir).i_size + DIR_ENTRY_SIZE <= INODE_BLOCK_SLOTS * DISK_SECTOR_SIZE
    }

    /// Finds the entry at `path` (absolute, names separated by `/`) and the
    /// number of its inode.
    pub fn search_dir_entry(&self, path: &str) -> (r: Option<(DirEntry, u32)>)
        requires
            self.wf(),
        ensures
            self.resolves(path.spec_bytes(), r),
            match r {
                None => self.path_target(path.spec_bytes()) is None,
                Some((e, i)) => self.path_target(path.spec_bytes()) == Some((e.file_type, i)) && self.has(i as int)
                    && e.i_no == i,
            },
    {
        self.search_path(path.as_bytes())
    }

    /// Finds the entry at the path with bytes `b` and the number of its inode.
    pub fn search_path(&self, b: &[u8]) -> (r: Option<(DirEntry, u32)>)
        requires
            self.wf(),
        ensures
            self.resolves(b@, r),
            match r {
                None => self.path_target(b@) is None,
                Some((e, i)) => self.path_target(b@) == Some((e.file_type, i)) && self.has(i as int) && e.i_no == i,
            },
    {
        if b.len() == 0 {
            return None;
        }
        let ps = split_pieces(b, SLASH);
        let ghost pv = ps@.map_values(|v: Vec<u8>| v@);
        if ps.len() == 0 {
            let root_name: [u8; 1] = [SLASH];
            proof {
                assert(root_name@ =~= seq![SLASH]);
            }
            let root = DirEntry::new(0, &root_name, FileType::Directory);
            return Some((root, 0));
        }
        let mut cur: u32 = 0;
        let mut k: usize = 0;
        assert(pv.skip(0) =~= pv);
        while k < ps.len()
            invariant
                self.wf(),
                pv == ps@.map_values(|v: Vec<u8>| v@),
                pv == path_pieces(b@),
                b@.len() > 0,
                0 <= k < ps@.len(),
                self.has(cur as int),
                self.walk(0, pv) == self.walk(cur as int, pv.skip(k as int)),
            decreases ps@.len() - k,
        {
            let ghost rest = pv.skip(k as int);
            assert(rest[0] == ps@[k as int]@);
            let node = match &self.inodes[cur as usize] {
                Some(n) => n,
                None => {
                    proof {
                        assert(false);
                    }
                    return None;
                },
            };
            let found = node.lookup_entry(ps[k].as_slice());
            assert(self.node(cur as int) == *node);
            match found {
                None => {
                    assert(self.walk(cur as int, rest) is None);
                    return None;
                },
                Some(e) => {
                    if e.i_no >= MAX_FILE_PER_FS {
                        return None;
                    }
                    if self.inodes[e.i_no as usize].is_none() {
                        assert(self.walk(cur as int, rest) is None);
                        return None;
                    }
                    if k + 1 == ps.len() {
                        return Some((e, e.i_no));
                    }
                    assert(rest.drop_first() =~= pv.skip(k + 1));
                    cur = e.i_no;
                    k = k + 1;
                },
            }
        }
        proof {
            assert(false);
        }
        None
    }

    /// The number of free data blocks.
    pub fn free_block_count(&self) -> (n: usize)
        requires
            self.wf(),
        ensures
            n == self.free_blocks(),
    {
        self.block_bitmap.count_clear()
    }

    /// Whether directory `dir` can take one more entry with `extra` data
    /// blocks to spare (see `room_for_entry`).
    pub fn can_add_entry(&self, dir: u32, extra: usize) -> (r: bool)
        requires
            self.wf(),
            self.has(dir as int),
        ensures
            r == self.room_for_entry(dir as int, extra as nat),
    {
        match self.inode_bitmap.apply_bits(1) {
            Ok(_) => {},
            Err(_) => {
                return false;
            },
        }
        let node = match &self.inodes[dir as usize] {
            Some(n) => n,
            None => {
                return false;
            },
        };
        let s = match find_available_slot(node) {
            Some(s) => s,
            None => {
                return false;
            },
        };
        let mut need: usize = 0;
        if node.blocks[s / MAX_ENTRY_IN_BLOCK] == 0 {
            need = need + 1;
        }
        if s >= DIRECT_SLOTS && node.indirect_block == 0 {
            need = need + 1;
        }
        let free = self.block_bitmap.count_clear();
        if free < need || free - need < extra {
            return false;
        }
        (node.i_size as u64) + (DIR_ENTRY_SIZE as u64) <= (INODE_BLOCK_SLOTS * DISK_SECTOR_SIZE) as u64
    }

    /// Whether `len` bytes can be written at offset `off` of file `i_no`:
    /// they end within the largest file size and the free blocks cover what
    /// the write claims (see `write_blocks_needed`).
    pub fn can_write(&self, i_no: u32, off: u32, len: usize) -> (r: bool)
        requires
            self.wf(),
            self.has(i_no as int),
        ensures
            r == (off + len <= INODE_BLOCK_SLOTS * DISK_SECTOR_SIZE && self.free_blocks() >= write_blocks_needed(
                self.node(i_no as int),
                off as int,
                len as int,
            )),
    {
        let max = INODE_BLOCK_SLOTS * DISK_SECTOR_SIZE;
        if len > max || off as usize > max - len {
            return false;
        }
        let node = match &self.inodes[i_no as usize] {
            Some(n) => n,
            None => {
                return false;
            },
        };
        let mut need: usize = 0;
        if len > 0 {
            let last = (off as usize + len - 1) / DISK_SECTOR_SIZE;
            need = count_unused_exec(&node.blocks, off as usize / DISK_SECTOR_SIZE, last + 1);
            if last >= INODE_DIRECT_DATA_SECS && node.indirect_block == 0 {
                need = need + 1;
            }
        }
        self.block_bitmap.count_clear() >= need
    }

    /// Takes inode `i` out of the table to work on it.
    fn take_inode(&mut self, i: u32) -> (n: OpenedInode)
        requires
            old(self).wf(),
            old(self).has(i as int),
        ensures
            n == old(self).node(i as int),
            final(self).inodes@ == old(self).inodes@.update(i as int, None),
            final(self).super_block == old(self).super_block,
            final(self).inode_bitmap == old(self).inode_bitmap,
            final(self).block_bitmap == old(self).block_bitmap,
    {
        let taken = self.inodes.remove(i as usize);
        self.inodes.insert(i as usize, None);
        assert(self.inodes@ =~= old(self).inodes@.update(i as int, None));
        match taken {
            Some(n) => n,
            None => {
                proof {
                    assert(false);
                }
                OpenedInode::new(i)
            },
        }
    }

    /// Puts inode `n` back in the table at `i`.
    fn put_inode(&mut self, i: u32, n: OpenedInode)
        requires
            i < old(self).inodes@.len(),
        ensures
            final(self).inodes@ == old(self).inodes@.update(i as int, Some(n)),
            final(self).super_block == old(self).super_block,
            final(self).inode_bitmap == old(self).inode_bitmap,
            final(self).block_bitmap == old(self).block_bitmap,
    {
        self.inodes.set(i as usize, Some(n));
    }

    /// Places `entry` in directory `dir`, in the slot `available_slot` picks,
    /// claiming the data block (and the indirect block) that slot needs; the
    /// directory grows by one entry's size.
    pub fn add_dir_entry(&mut self, dir: u32, entry: DirEntry)
        requires
            old(self).wf(),
            !entry.spec_is_empty(),
            !old(self).node(dir as int).has_named(entry.name_view()),
            old(self).has(dir as int),
            available_slot(old(self).node(dir as int)) is Some,
            old(self).free_blocks() >= blocks_needed(
                old(self).node(dir as int),
                available_slot(old(self).node(dir as int))->0,
            ),
            old(self).node(dir as int).i_size + DIR_ENTRY_SIZE <= INODE_BLOCK_SLOTS * DISK_SECTOR_SIZE,
        ensures
            ({
                let s = available_slot(old(self).node(dir as int))->0;
                let o = old(self).node(dir as int);
                let n = final(self).node(dir as int);
                &&& final(self).wf()
                &&& final(self).has(dir as int)
                &&& 0 <= s < DIR_SLOTS
                &&& s == old(self).next_slot(dir as int)
                &&& n.slots@ == o.slots@.update(s, entry)
                &&& n.i_size == o.i_size + DIR_ENTRY_SIZE
                &&& n.i_no == o.i_no
                &&& n.blocks@[s / 18] != 0
                &&& forall|k: int| 0 <= k < INODE_BLOCK_SLOTS && o.blocks@[k] != 0 ==> #[trigger] n.blocks@[k] == o.blocks@[k]
                &&& forall|k: int| 0 <= k < INODE_BLOCK_SLOTS && k != s / 18 ==> #[trigger] n.blocks@[k] == o.blocks@[k]
                &&& forall|k: int| 0 <= k < INODE_BLOCK_SLOTS && o.blocks@[k] != 0 ==> #[trigger] n.sectors@[k] == o.sectors@[k]
                &&& (s >= DIRECT_SLOTS ==> n.indirect_block != 0)
                &&& (o.indirect_block != 0 || s < DIRECT_SLOTS ==> n.indirect_block == o.indirect_block)
                &&& final(self).free_blocks() + blocks_needed(o, s) == old(self).free_blocks()
                &&& final(self).block_bitmap@.len() == old(self).block_bitmap@.len()
                &&& final(self).inode_bitmap == old(self).inode_bitmap
                &&& final(self).super_block == old(self).super_block
                &&& forall|i: int| 0 <= i < MAX_FILE_PER_FS && i != dir ==> #[trigger] final(self).inodes@[i] == old(self).inodes@[i]
            }),
    {
        let ghost o = self.node(dir as int);
        let ghost s0 = available_slot(o)->0;
        let mut node = self.take_inode(dir);
        let s = match find_available_slot(&node) {
            Some(s) => s,
            None => {
                proof {
                    assert(false);
                }
                0
            },
        };
        assert(s as int == s0);
        if s >= DIRECT_SLOTS && node.indirect_block == 0 {
            node.indirect_block = self.apply_block();
        }
        let b = s / 18;
        if node.blocks[b] == 0 {
            let lba = self.apply_block();
            node.blocks.set(b, lba);
            node.sectors.set(b, zero_sector());
        }
        node.slots.set(s, entry);
        node.i_size = node.i_size + DIR_ENTRY_SIZE;
        proof {
            assert forall|t: int| 0 <= t < DIR_SLOTS && !#[trigger] node.slot_live(t) implies node.slots@[t].is_blank() by {
                assert(o.blocks@[t / 18] == 0);
                assert(!o.slot_live(t));
            }
            lemma_available_slot_free(o);
            assert forall|x: int, y: int|
                0 <= x < y < DIR_SLOTS && node.slot_live(x) && node.slot_live(y) && (#[trigger] node.slots@[x]).name_view().len()
                    > 0 implies node.slots@[x].name_view() != (#[trigger] node.slots@[y]).name_view() by {
                if x == s as int {
                    if !o.slot_live(y) {
                        lemma_blank_name(o.slots@[y]);
                    } else {
                        assert(!(o.slot_live(y) && o.slots@[y].name_view() == entry.name_view()));
                    }
                } else if y == s as int {
                    if !o.slot_live(x) {
                        lemma_blank_name(o.slots@[x]);
                    } else {
                        assert(!(o.slot_live(x) && o.slots@[x].name_view() == entry.name_view()));
                    }
                } else {
                    if !o.slot_live(x) {
                        lemma_blank_name(o.slots@[x]);
                    } else if !o.slot_live(y) {
                        lemma_blank_name(o.slots@[y]);
                    } else {
                        assert(o.slots@[x] == node.slots@[x] && o.slots@[y] == node.slots@[y]);
                    }
                }
            }
            assert forall|k: int, j: int|
                0 <= k < INODE_BLOCK_SLOTS && 0 <= j < DISK_SECTOR_SIZE && 512 * k + j >= node.i_size implies #[trigger] node.byte(k, j) == 0 by {
                if k != b {
                    assert(node.byte(k, j) == o.byte(k, j));
                } else if o.blocks@[k] != 0 {
                    assert(node.byte(k, j) == o.byte(k, j));
                }
            }
        }
        self.put_inode(dir, node);
        assert(self.inodes@[dir as int] is Some);
    }

    /// Formats the partition of `part_secs` sectors from `part_lba`: its super
    /// block, empty bitmaps, and the root directory (inode 0) holding `.` and
    /// `..`, both naming itself, in one data block.
    pub fn format(part_lba: u32, part_secs: u32) -> (fs: Self)
        requires
            left_sectors(part_secs) >= 0,
            block_bitmap_sectors(part_secs) >= 1,
            part_lba + 3 + inode_table_sectors() + block_bitmap_sectors(part_secs) * 4097 <= u32::MAX,
        ensures
            fs.wf(),
            fs.super_block.lba_start == part_lba,
            fs.super_block.sec_cnt == part_secs,
            fs.super_block.root_inode_no == 0,
            fs.super_block.block_bitmap_secs == block_bitmap_sectors(part_secs),
            fs.inode_bitmap@ == Seq::new(MAX_FILE_PER_FS as nat, |i: int| i == 0),
            fs.block_bitmap@.len() == block_bitmap_sectors(part_secs) * 4096,
            fs.free_blocks() + 1 == block_bitmap_sectors(part_secs) * 4096,
            forall|i: int| 0 < i < MAX_FILE_PER_FS ==> #[trigger] fs.inodes@[i] is None,
            fs.node(0).i_size == 2 * DIR_ENTRY_SIZE,
            fs.node(0).slots@[0].i_no == 0,
            fs.node(0).slots@[0].name_view() == seq![0x2eu8],
            fs.node(0).slots@[0].file_type == FileType::Directory,
            fs.node(0).slots@[1].i_no == 0,
            fs.node(0).slots@[1].name_view() == seq![0x2eu8, 0x2eu8],
            fs.node(0).slots@[1].file_type == FileType::Directory,
            forall|t: int| 2 <= t < DIR_SLOTS ==> (#[trigger] fs.node(0).slots@[t]).is_blank(),
    {
        let super_block = SuperBlock::new(part_lba, part_secs);
        let mut inode_bitmap = BitMap::empty(512);
        inode_bitmap.set_bit(0, true);
        let bb_bytes = (super_block.block_bitmap_secs as usize) * DISK_SECTOR_SIZE;
        let block_bitmap = BitMap::empty(bb_bytes);
        proof {
            lemma_count_free_all(block_bitmap@);
        }
        let mut inodes: Vec<Option<OpenedInode>> = Vec::new();
        inodes.push(Some(OpenedInode::new(0)));
        let mut i: usize = 1;
        while i < MAX_FILE_PER_FS as usize
            invariant
                1 <= i <= MAX_FILE_PER_FS,
                inodes@.len() == i,
                inodes@[0] matches Some(n) && n.is_fresh(0),
                forall|k: int| 1 <= k < i ==> #[trigger] inodes@[k] is None,
            decreases MAX_FILE_PER_FS - i,
        {
            inodes.push(None);
            i = i + 1;
        }
        let mut fs = FileSystem { super_block, inode_bitmap, block_bitmap, inodes };
        assert(fs.inode_bitmap@ =~= Seq::new(MAX_FILE_PER_FS as nat, |i: int| i == 0));
        let ghost f = fs.node(0);
        let dot: [u8; 1] = [0x2e];
        let dotdot: [u8; 2] = [0x2e, 0x2e];
        assert(dotdot@ =~= seq![0x2eu8, 0x2eu8]);
        assert(dot@ =~= seq![0x2eu8]);
        let me = DirEntry::new(0, &dot, FileType::Directory);
        proof {
            assert(f.blocks@[0] == 0);
            assert(first_unused_block(f.blocks@, 0, 12) == 0);
            assert(available_slot(f) == Some(0int));
            assert(blocks_needed(f, 0) == 1);
        }
        fs.add_dir_entry(0, me);
        let ghost g = fs.node(0);
        let up = DirEntry::new(0, &dotdot, FileType::Directory);
        proof {
            assert(g.blocks@[1] == 0);
            reveal_with_fuel(first_unused_block, 2);
            assert(first_unused_block(g.blocks@, 0, 12) == 1);
            assert(g.slots@[0] == me);
            assert(!g.slots@[0].spec_is_empty());
            assert(f.slots@[1].is_blank());
            assert(g.slots@[1].spec_is_empty());
            reveal_with_fuel(first_empty_entry, 2);
            assert(first_empty_entry(g.slots@, 0, 0) == 1);
            assert(available_slot(g) == Some(1int));
            assert(blocks_needed(g, 1) == 0);
        }
        fs.add_dir_entry(0, up);
        proof {
            let h = fs.node(0);
            assert forall|t: int| 2 <= t < DIR_SLOTS implies (#[trigger] h.slots@[t]).is_blank() by {
                assert(f.slots@[t].is_blank());
            }
        }
        fs
    }

    /// Writes `buff` at byte `off` of file `i_no`, sector by sector: the
    /// first and last sectors in part, those between whole; a sector without
    /// a data block gets one (zeroed) first.
    pub fn write_at(&mut self, i_no: u32, off: u32, buff: &[u8])
        requires
            old(self).wf(),
            old(self).has(i_no as int),
            off + buff@.len() <= INODE_BLOCK_SLOTS * DISK_SECTOR_SIZE,
            old(self).free_blocks() >= write_blocks_needed(old(self).node(i_no as int), off as int, buff@.len() as int),
        ensures
            final(self).wf(),
            final(self).has(i_no as int),
            final(self).node(i_no as int).content() == written(old(self).node(i_no as int).content(), off as int, buff@),
            final(self).node(i_no as int).slots == old(self).node(i_no as int).slots,
            forall|q: int|
                0 <= q < INODE_BLOCK_SLOTS && old(self).node(i_no as int).blocks@[q] != 0 ==> #[trigger] final(self).node(
                    i_no as int,
                ).blocks@[q] != 0,
            final(self).free_blocks() + write_blocks_needed(old(self).node(i_no as int), off as int, buff@.len() as int)
                == old(self).free_blocks(),
            final(self).block_bitmap@.len() == old(self).block_bitmap@.len(),
            final(self).inode_bitmap == old(self).inode_bitmap,
            final(self).super_block == old(self).super_block,
            forall|i: int| 0 <= i < MAX_FILE_PER_FS && i != i_no ==> #[trigger] final(self).inodes@[i] == old(self).inodes@[i],
    {
        let ghost o = self.node(i_no as int);
        let ghost free0 = self.free_blocks();
        let ghost bb_len = self.block_bitmap@.len();
        let len = buff.len();
        let mut node = self.take_inode(i_no);
        if len == 0 {
            if off > node.i_size {
                node.i_size = off;
            }
            proof {
                assert(node.content() =~= written(o.content(), off as int, buff@)) by {
                    assert forall|p: int| 0 <= p < node.i_size implies #[trigger] node.content()[p] == written(
                        o.content(),
                        off as int,
                        buff@,
                    )[p] by {
                        vstd::arithmetic::div_mod::lemma_fundamental_div_mod(p, 512);
                        vstd::arithmetic::div_mod::lemma_mod_pos_bound(p, 512);
                        if p >= o.i_size {
                            assert(o.byte(p / 512, p % 512) == 0);
                        }
                    }
                }
                assert forall|q: int, j: int|
                    0 <= q < INODE_BLOCK_SLOTS && 0 <= j < DISK_SECTOR_SIZE && 512 * q + j >= node.i_size implies #[trigger] node.byte(q, j) == 0 by {
                    assert(node.byte(q, j) == o.byte(q, j));
                }
                assert forall|t: int| 0 <= t < DIR_SLOTS && !#[trigger] node.slot_live(t) implies node.slots@[t].is_blank() by {
                    assert(!o.slot_live(t));
                }
            }
            self.put_inode(i_no, node);
            proof {
                assert forall|i: int| 0 <= i < MAX_FILE_PER_FS implies ((#[trigger] self.inodes@[i]) is Some
                    <==> self.inode_bitmap@[i]) by {
                    if i != i_no {
                        assert(old(self).inodes@[i] == self.inodes@[i]);
                    }
                }
                assert forall|i: int|
                    0 <= i < MAX_FILE_PER_FS && (#[trigger] self.inodes@[i]) is Some implies self.inodes@[i]->0.i_no == i
                        && self.inodes@[i]->0.wf() by {
                    if i != i_no {
                        assert(old(self).inodes@[i] == self.inodes@[i]);
                    }
                }
                assert(self.inodes@[0] is Some);
            }
            return;
        }
        let end: usize = off as usize + len;
        let first: usize = (off as usize) / DISK_SECTOR_SIZE;
        let last: usize = (end - 1) / DISK_SECTOR_SIZE;
        assert(first <= last < INODE_BLOCK_SLOTS);
        let ghost ind: nat = if last >= INODE_DIRECT_DATA_SECS && o.indirect_block == 0 { 1nat } else { 0nat };
        proof {
            lemma_count_unused_split(o.blocks@, first as int, first as int, last + 1);
        }
        if last >= INODE_DIRECT_DATA_SECS && node.indirect_block == 0 {
            node.indirect_block = self.apply_block();
        }
        let mut k: usize = first;
        while k <= last
            invariant
                first <= k <= last + 1,
                last < INODE_BLOCK_SLOTS,
                first == off / 512,
                last == (off + len - 1) / 512,
                end == off + len,
                len == buff@.len(),
                len > 0,
                end <= INODE_BLOCK_SLOTS * DISK_SECTOR_SIZE,
                self.block_pool_ok(),
                self.block_bitmap@.len() == bb_len,
                bb_len == old(self).block_bitmap@.len(),
                self.free_blocks() + ind + count_unused(o.blocks@, first as int, k as int) == free0,
                free0 >= ind + count_unused(o.blocks@, first as int, last + 1),
                self.inodes@ == old(self).inodes@.update(i_no as int, None),
                self.inode_bitmap == old(self).inode_bitmap,
                self.super_block == old(self).super_block,
                node.i_no == o.i_no,
                node.i_size == o.i_size,
                node.slots == o.slots,
                node.blocks@.len() == INODE_BLOCK_SLOTS,
                node.sectors@.len() == INODE_BLOCK_SLOTS,
                forall|q: int|
                    0 <= q < INODE_BLOCK_SLOTS ==> (#[trigger] node.sectors@[q])@.len() == (if node.blocks@[q] == 0 {
                        0int
                    } else {
                        DISK_SECTOR_SIZE as int
                    }),
                forall|q: int| 0 <= q < INODE_BLOCK_SLOTS && (q < first || q >= k) ==> #[trigger] node.blocks@[q] == o.blocks@[q],
                forall|q: int| 0 <= q < INODE_BLOCK_SLOTS && (q < first || q >= k) ==> #[trigger] node.sectors@[q] == o.sectors@[q],
                forall|q: int| first <= q < k ==> #[trigger] node.blocks@[q] != 0,
                forall|q: int| 0 <= q < INODE_BLOCK_SLOTS && o.blocks@[q] != 0 ==> #[trigger] node.blocks@[q] == o.blocks@[q],
                forall|q: int, j: int|
                    first <= q < k && 0 <= j < DISK_SECTOR_SIZE ==> #[trigger] node.byte(q, j) == (if off <= 512 * q + j
                        < end {
                        buff@[512 * q + j - off]
                    } else {
                        o.byte(q, j)
                    }),
                o.wf(),
                o == old(self).node(i_no as int),
                forall|q: int| 0 <= q < INODE_BLOCK_SLOTS && #[trigger] node.blocks@[q] != 0 ==> old(self).in_pool(node.blocks@[q]),
                node.indirect_block != 0 ==> old(self).in_pool(node.indirect_block),
            decreases last + 1 - k,
        {
            proof {
                lemma_count_unused_split(o.blocks@, first as int, k as int, last + 1);
                lemma_count_unused_split(o.blocks@, k as int, k + 1, last + 1);
                lemma_count_unused_split(o.blocks@, first as int, k as int, k + 1);
            }
            let ghost n0 = node;
            let fresh = node.blocks[k] == 0;
            if fresh {
                let lba = self.apply_block();
                assert(old(self).in_pool(lba));
                node.blocks.set(k, lba);
                node.sectors.set(k, zero_sector());
            }
            let sec_start: usize = DISK_SECTOR_SIZE * k;
            let lo: usize = if sec_start < off as usize { off as usize - sec_start } else { 0 };
            let hi: usize = if end < sec_start + DISK_SECTOR_SIZE { end - sec_start } else { DISK_SECTOR_SIZE };
            let mut sec: Vec<u8> = Vec::new();
            let mut j: usize = 0;
            while j < DISK_SECTOR_SIZE
                invariant
                    j <= DISK_SECTOR_SIZE,
                    sec@.len() == j,
                    k < INODE_BLOCK_SLOTS,
                    node.sectors@.len() == INODE_BLOCK_SLOTS,
                    node.sectors@[k as int]@.len() == DISK_SECTOR_SIZE,
                    sec_start == 512 * k,
                    end == off + len,
                    len == buff@.len(),
                    lo == (if sec_start < off { off - sec_start } else { 0 }),
                    hi == (if end < sec_start + 512 { end - sec_start } else { 512 }),
                    end <= INODE_BLOCK_SLOTS * DISK_SECTOR_SIZE,
                    k <= last,
                    last == (off + len - 1) / 512,
                    first <= k,
                    first == off / 512,
                    forall|q: int| 0 <= q < j ==> #[trigger] sec@[q] == (if lo <= q < hi {
                        buff@[512 * k + q - off]
                    } else {
                        node.sectors@[k as int]@[q]
                    }),
                decreases DISK_SECTOR_SIZE - j,
            {
                let v = if lo <= j && j < hi {
                    buff[sec_start + j - off as usize]
                } else {
                    node.sectors[k][j]
                };
                sec.push(v);
                j = j + 1;
            }
            let ghost before = node.sectors@[k as int];
            node.sectors.set(k, sec);
            proof {
                assert forall|q: int, jj: int|
                    first <= q < k + 1 && 0 <= jj < DISK_SECTOR_SIZE implies #[trigger] node.byte(q, jj) == (if off <= 512 * q
                        + jj < end {
                        buff@[512 * q + jj - off]
                    } else {
                        o.byte(q, jj)
                    }) by {
                    if q < k {
                        assert(node.byte(q, jj) == n0.byte(q, jj));
                    } else {
                        assert(node.byte(q, jj) == sec@[jj]);
                        if !(off <= 512 * q + jj < end) {
                            if fresh {
                                assert(o.blocks@[q] == 0);
                                assert(before@[jj] == 0);
                            } else {
                                assert(before == o.sectors@[q]);
                            }
                        }
                    }
                }
            }
            k = k + 1;
        }
        proof {
            lemma_count_unused_split(o.blocks@, first as int, last + 1, last + 1);
        }
        let ghost nl = node;
        if end as u32 > node.i_size {
            node.i_size = end as u32;
        }
        let ghost n = node;
        let ghost w = written(o.content(), off as int, buff@);
        proof {
            assert forall|q: int, j: int| 0 <= q < INODE_BLOCK_SLOTS && 0 <= j < DISK_SECTOR_SIZE implies #[trigger] n.byte(q, j)
                == (if off <= 512 * q + j < end {
                buff@[512 * q + j - off]
            } else {
                o.byte(q, j)
            }) by {
                if q < first || q > last {
                    assert(n.blocks@[q] == o.blocks@[q]);
                    assert(n.sectors@[q] == o.sectors@[q]);
                    assert(off == 512 * first + off % 512) by {
                        vstd::arithmetic::div_mod::lemma_fundamental_div_mod(off as int, 512);
                    }
                    vstd::arithmetic::div_mod::lemma_mod_pos_bound(off as int, 512);
                    vstd::arithmetic::div_mod::lemma_mod_pos_bound(off + len - 1, 512);
                    assert(off + len - 1 == 512 * last + (off + len - 1) % 512) by {
                        vstd::arithmetic::div_mod::lemma_fundamental_div_mod(off + len - 1, 512);
                    }
                    assert(!(off <= 512 * q + j < end));
                } else {
                    assert(first <= q < k);
                    assert(n.byte(q, j) == nl.byte(q, j));
                }
            }
            assert(n.wf()) by {
                assert forall|q: int, j: int|
                    0 <= q < INODE_BLOCK_SLOTS && 0 <= j < DISK_SECTOR_SIZE && 512 * q + j >= n.i_size implies #[trigger] n.byte(q, j) == 0 by {
                    assert(n.byte(q, j) == o.byte(q, j));
                }
                assert forall|t: int| 0 <= t < DIR_SLOTS && !#[trigger] n.slot_live(t) implies n.slots@[t].is_blank() by {
                    assert(!o.slot_live(t));
                }
            }
            assert(n.content() =~= w) by {
                assert forall|p: int| 0 <= p < n.i_size implies #[trigger] n.content()[p] == w[p] by {
                    let q = p / 512;
                    let j = p % 512;
                    vstd::arithmetic::div_mod::lemma_fundamental_div_mod(p, 512);
                    vstd::arithmetic::div_mod::lemma_mod_pos_bound(p, 512);
                    assert(p == 512 * q + j);
                    assert(0 <= j < 512);
                    assert(0 <= q < INODE_BLOCK_SLOTS);
                    assert(n.content()[p] == n.byte(q, j));
                    if !(off <= p < end) {
                        if p < o.i_size {
                            assert(o.content()[p] == o.byte(q, j));
                        } else {
                            assert(o.byte(q, j) == 0);
                        }
                    }
                }
            }
        }
        self.put_inode(i_no, node);
        proof {
            assert forall|i: int| 0 <= i < MAX_FILE_PER_FS implies ((#[trigger] self.inodes@[i]) is Some
                <==> self.inode_bitmap@[i]) by {
                if i != i_no {
                    assert(old(self).inodes@[i] == self.inodes@[i]);
                }
            }
            assert forall|i: int|
                0 <= i < MAX_FILE_PER_FS && (#[trigger] self.inodes@[i]) is Some implies self.inodes@[i]->0.i_no == i
                    && self.inodes@[i]->0.wf() && self.blocks_in_pool(self.inodes@[i]->0) by {
                if i != i_no {
                    assert(old(self).inodes@[i] == self.inodes@[i]);
                    let m = self.inodes@[i]->0;
                    assert(old(self).blocks_in_pool(m));
                    assert forall|q: int| 0 <= q < INODE_BLOCK_SLOTS && #[trigger] m.blocks@[q] != 0 implies self.in_pool(m.blocks@[q]) by {
                        assert(old(self).in_pool(m.blocks@[q]));
                    }
                } else {
                    assert forall|q: int| 0 <= q < INODE_BLOCK_SLOTS && #[trigger] n.blocks@[q] != 0 implies self.in_pool(n.blocks@[q]) by {
                        assert(old(self).in_pool(n.blocks@[q]));
                    }
                }
            }
            assert(self.inodes@[0] is Some);
        }
    }

    /// Reads from byte `off` of file `i_no` into `buff`, sector by sector,
    /// up to the end of the file; gives the number of bytes read.
    pub fn read_at(&self, i_no: u32, off: u32, buff: &mut [u8]) -> (n: usize)
        requires
            self.wf(),
            self.has(i_no as int),
        ensures
            n == read_count(self.node(i_no as int).i_size as int, off as int, old(buff)@.len() as int),
            final(buff)@.len() == old(buff)@.len(),
            forall|t: int| 0 <= t < n ==> #[trigger] final(buff)@[t] == self.node(i_no as int).content()[off + t],
            forall|t: int| n <= t < old(buff)@.len() ==> #[trigger] final(buff)@[t] == old(buff)@[t],
    {
        let node = match &self.inodes[i_no as usize] {
            Some(nd) => nd,
            None => {
                proof {
                    assert(false);
                }
                return 0;
            },
        };
        let ghost c = self.node(i_no as int).content();
        let ghost b0 = buff@;
        assert(*node == self.node(i_no as int));
        let size = node.i_size as usize;
        let offu = off as usize;
        if offu >= size {
            return 0;
        }
        let n: usize = if buff.len() < size - offu { buff.len() } else { size - offu };
        let end: usize = offu + n;
        let mut k: usize = offu / DISK_SECTOR_SIZE;
        let mut i: usize = 0;
        proof {
            vstd::arithmetic::div_mod::lemma_fundamental_div_mod(off as int, 512);
            vstd::arithmetic::div_mod::lemma_mod_pos_bound(off as int, 512);
        }
        while i < n
            invariant
                node.wf(),
                c == node.content(),
                offu == off,
                end == off + n,
                n <= buff@.len(),
                end <= node.i_size,
                i <= n,
                buff@.len() == b0.len(),
                i < n ==> 512 * k <= off + i < 512 * k + 512,
                forall|t: int| 0 <= t < i ==> #[trigger] buff@[t] == c[off + t],
                forall|t: int| n <= t < b0.len() ==> #[trigger] buff@[t] == b0[t],
            decreases n - i,
        {
            assert(off + i < end <= INODE_BLOCK_SLOTS * DISK_SECTOR_SIZE);
            let sec_start = DISK_SECTOR_SIZE * k;
            assert(sec_start <= off + i);
            let hi: usize = if end < sec_start + DISK_SECTOR_SIZE { end - sec_start } else { DISK_SECTOR_SIZE };
            let mut j: usize = offu + i - sec_start;
            while j < hi
                invariant
                    node.wf(),
                    c == node.content(),
                    end == off + n,
                    n <= buff@.len(),
                    end <= node.i_size,
                    sec_start == 512 * k,
                    hi == (if end < sec_start + 512 { end - sec_start } else { 512 }),
                    j <= hi,
                    off + i == sec_start + j,
                    i <= n,
                    buff@.len() == b0.len(),
                    forall|t: int| 0 <= t < i ==> #[trigger] buff@[t] == c[off + t],
                    forall|t: int| n <= t < b0.len() ==> #[trigger] buff@[t] == b0[t],
                decreases hi - j,
            {
                let v: u8 = if node.blocks[k] != 0 {
                    node.sectors[k][j]
                } else {
                    0
                };
                proof {
                    lemma_sector_pos(k as int, j as int);
                    assert(c[off + i] == node.byte(k as int, j as int));
                }
                buff[i] = v;
                i = i + 1;
                j = j + 1;
            }
            k = k + 1;
        }
        n
    }

    /// Releases inode `i`: its number and its data blocks become free.
    pub fn release_inode(&mut self, i: u32)
        requires
            old(self).wf(),
            old(self).has(i as int),
            i != 0,
        ensures
            final(self).wf(),
            !final(self).has(i as int),
            final(self).inode_bitmap@ == old(self).inode_bitmap@.update(i as int, false),
            final(self).block_bitmap@.len() == old(self).block_bitmap@.len(),
            forall|b: int|
                0 <= b < old(self).block_bitmap@.len() ==> #[trigger] final(self).block_bitmap@[b] == (old(
                    self,
                ).block_bitmap@[b] && !uses_block(old(self).node(i as int), old(self).super_block.data_lba_start + b)),
            final(self).super_block == old(self).super_block,
            forall|j: int| 0 <= j < MAX_FILE_PER_FS && j != i ==> #[trigger] final(self).inodes@[j] == old(self).inodes@[j],
    {
        let ghost o = self.node(i as int);
        let node = self.take_inode(i);
        self.inode_bitmap.set_bit(i as usize, false);
        let start = self.super_block.data_lba_start;
        let mut k: usize = 0;
        while k < INODE_BLOCK_SLOTS
            invariant
                k <= INODE_BLOCK_SLOTS,
                node == o,
                o.wf(),
                old(self).blocks_in_pool(o),
                start == old(self).super_block.data_lba_start,
                self.super_block == old(self).super_block,
                self.block_pool_ok(),
                self.block_bitmap@.len() == old(self).block_bitmap@.len(),
                self.inodes@ == old(self).inodes@.update(i as int, None),
                self.inode_bitmap@ == old(self).inode_bitmap@.update(i as int, false),
                self.inode_bitmap.byte_len() == old(self).inode_bitmap.byte_len(),
                forall|b: int|
                    0 <= b < old(self).block_bitmap@.len() ==> #[trigger] self.block_bitmap@[b] == (old(self).block_bitmap@[b]
                        && !uses_block_below(o, k as int, start + b)),
            decreases INODE_BLOCK_SLOTS - k,
        {
            let lba = node.blocks[k];
            if lba != 0 {
                assert(old(self).in_pool(lba));
                let ghost before = self.block_bitmap@;
                self.block_bitmap.set_bit((lba - start) as usize, false);
                proof {
                    assert forall|b: int| 0 <= b < old(self).block_bitmap@.len() implies #[trigger] self.block_bitmap@[b] == (old(
                        self,
                    ).block_bitmap@[b] && !uses_block_below(o, k + 1, start + b)) by {
                        if b == lba - start {
                            assert(o.blocks@[k as int] == start + b);
                        } else {
                            assert(self.block_bitmap@[b] == before[b]);
                            if uses_block_below(o, k + 1, start + b) {
                                let q = choose|q: int| 0 <= q < k + 1 && o.blocks@[q] == start + b;
                                assert(q != k);
                                assert(uses_block_below(o, k as int, start + b));
                            }
                        }
                    }
                }
            } else {
                proof {
                    assert forall|b: int| 0 <= b < old(self).block_bitmap@.len() implies #[trigger] self.block_bitmap@[b] == (old(
                        self,
                    ).block_bitmap@[b] && !uses_block_below(o, k + 1, start + b)) by {
                        if uses_block_below(o, k + 1, start + b) {
                            let q = choose|q: int| 0 <= q < k + 1 && o.blocks@[q] == start + b;
                            assert(q != k);
                            assert(uses_block_below(o, k as int, start + b));
                        }
                    }
                }
            }
            k = k + 1;
        }
        if node.indirect_block != 0 {
            let ghost before = self.block_bitmap@;
            assert(old(self).in_pool(node.indirect_block));
            self.block_bitmap.set_bit((node.indirect_block - start) as usize, false);
            proof {
                assert forall|b: int| 0 <= b < old(self).block_bitmap@.len() implies #[trigger] self.block_bitmap@[b] == (old(
                    self,
                ).block_bitmap@[b] && !uses_block(o, start + b)) by {
                    if b != node.indirect_block - start {
                        assert(self.block_bitmap@[b] == before[b]);
                    }
                }
            }
        }
        proof {
            assert forall|j: int| 0 <= j < MAX_FILE_PER_FS implies ((#[trigger] self.inodes@[j]) is Some
                <==> self.inode_bitmap@[j]) by {
                if j != i {
                    assert(old(self).inodes@[j] == self.inodes@[j]);
                }
            }
            assert forall|j: int|
                0 <= j < MAX_FILE_PER_FS && (#[trigger] self.inodes@[j]) is Some implies self.inodes@[j]->0.i_no == j
                    && self.inodes@[j]->0.wf() && self.blocks_in_pool(self.inodes@[j]->0) by {
                assert(old(self).inodes@[j] == self.inodes@[j]);
                let m = self.inodes@[j]->0;
                assert(old(self).blocks_in_pool(m));
                assert forall|q: int| 0 <= q < INODE_BLOCK_SLOTS && #[trigger] m.blocks@[q] != 0 implies self.in_pool(m.blocks@[q]) by {
                    assert(old(self).in_pool(m.blocks@[q]));
                }
            }
            assert(self.inodes@[0] is Some);
        }
    }

    /// Empties slot `s` of directory `dir`, which shrinks by one entry's size.
    pub fn remove_slot(&mut self, dir: u32, s: usize)
        requires
            old(self).wf(),
            old(self).has(dir as int),
            s < DIR_SLOTS,
            old(self).node(dir as int).slot_live(s as int),
            old(self).node(dir as int).i_size >= DIR_ENTRY_SIZE,
        ensures
            final(self).wf(),
            final(self).has(dir as int),
            final(self).node(dir as int).slots@[s as int].is_blank(),
            forall|t: int| 0 <= t < DIR_SLOTS && t != s ==> #[trigger] final(self).node(dir as int).slots@[t] == old(
                self,
            ).node(dir as int).slots@[t],
            final(self).node(dir as int).i_size == old(self).node(dir as int).i_size - DIR_ENTRY_SIZE,
            final(self).node(dir as int).blocks == old(self).node(dir as int).blocks,
            final(self).node(dir as int).i_no == dir,
            final(self).inode_bitmap == old(self).inode_bitmap,
            final(self).block_bitmap == old(self).block_bitmap,
            final(self).super_block == old(self).super_block,
            forall|j: int| 0 <= j < MAX_FILE_PER_FS && j != dir ==> #[trigger] final(self).inodes@[j] == old(self).inodes@[j],
    {
        let ghost o = self.node(dir as int);
        let mut node = self.take_inode(dir);
        node.slots.set(s, DirEntry::empty());
        let new_size = node.i_size - DIR_ENTRY_SIZE;
        proof {
            assert forall|t: int| 0 <= t < DIR_SLOTS && !#[trigger] node.slot_live(t) implies node.slots@[t].is_blank() by {
                assert(!o.slot_live(t));
            }
            assert forall|k: int, j: int|
                0 <= k < INODE_BLOCK_SLOTS && 0 <= j < DISK_SECTOR_SIZE && 512 * k + j >= node.i_size implies #[trigger] node.byte(k, j) == 0 by {
                assert(node.byte(k, j) == o.byte(k, j));
            }
            assert forall|k: int| 0 <= k < INODE_BLOCK_SLOTS implies (#[trigger] node.sectors@[k])@.len() == (if node.blocks@[k] == 0 {
                0int
            } else {
                DISK_SECTOR_SIZE as int
            }) by {
                assert(node.sectors@[k] == o.sectors@[k]);
            }
        }
        node.shrink(new_size);
        self.put_inode(dir, node);
        proof {
            assert forall|j: int| 0 <= j < MAX_FILE_PER_FS implies ((#[trigger] self.inodes@[j]) is Some
                <==> self.inode_bitmap@[j]) by {
                if j != dir {
                    assert(old(self).inodes@[j] == self.inodes@[j]);
                }
            }
            assert forall|j: int|
                0 <= j < MAX_FILE_PER_FS && (#[trigger] self.inodes@[j]) is Some implies self.inodes@[j]->0.i_no == j
                    && self.inodes@[j]->0.wf() && self.blocks_in_pool(self.inodes@[j]->0) by {
                if j != dir {
                    assert(old(self).inodes@[j] == self.inodes@[j]);
                } else {
                    assert(old(self).blocks_in_pool(o));
                }
            }
            assert(self.inodes@[0] is Some);
        }
    }

    /// Claims the lowest free inode number and adds an empty inode there.
    pub fn create_inode(&mut self) -> (i_no: u32)
        requires
            old(self).wf(),
            !no_free_run(old(self).inode_bitmap@, 1),
        ensures
            final(self).wf(),
            first_free_run(old(self).inode_bitmap@, i_no as int, 1),
            !old(self).has(i_no as int),
            final(self).has(i_no as int),
            final(self).node(i_no as int).is_fresh(i_no),
            final(self).inode_bitmap@ == old(self).inode_bitmap@.update(i_no as int, true),
            final(self).block_bitmap == old(self).block_bitmap,
            final(self).super_block == old(self).super_block,
            forall|i: int| 0 <= i < MAX_FILE_PER_FS && i != i_no ==> #[trigger] final(self).inodes@[i] == old(self).inodes@[i],
    {
        let i_no = self.apply_inode();
        assert(!old(self).inode_bitmap@[i_no as int]);
        assert(old(self).inodes@[i_no as int] is None);
        self.put_inode(i_no, OpenedInode::new(i_no));
        assert forall|i: int| 0 <= i < MAX_FILE_PER_FS implies ((#[trigger] self.inodes@[i]) is Some
            <==> self.inode_bitmap@[i]) by {
            if i != i_no {
                assert(old(self).inodes@[i] is Some <==> old(self).inode_bitmap@[i]);
            }
        }
        assert(self.inodes@[0] is Some);
        assert forall|i: int|
            0 <= i < MAX_FILE_PER_FS && (#[trigger] self.inodes@[i]) is Some implies self.inodes@[i]->0.i_no == i
                && self.inodes@[i]->0.wf() by {
            if i != i_no {
                assert(old(self).inodes@[i] == self.inodes@[i]);
            }
        }
        i_no
    }

    /// Creates an inode and its entry, named `name` and of type `file_type`,
    /// in directory `parent` (placed as `add_dir_entry` places it).
    pub fn create_dir_entry(&mut self, parent: u32, name: &[u8], file_type: FileType) -> (i_no: u32)
        requires
            old(self).wf(),
            old(self).has(parent as int),
            valid_name(name@),
            name@.len() > 0,
            old(self).node(parent as int).lookup(name@) is None,
            !no_free_run(old(self).inode_bitmap@, 1),
            available_slot(old(self).node(parent as int)) is Some,
            old(self).free_blocks() >= blocks_needed(
                old(self).node(parent as int),
                available_slot(old(self).node(parent as int))->0,
            ),
            old(self).node(parent as int).i_size + DIR_ENTRY_SIZE <= INODE_BLOCK_SLOTS * DISK_SECTOR_SIZE,
        ensures
            final(self).wf(),
            first_free_run(old(self).inode_bitmap@, i_no as int, 1),
            i_no != parent,
            0 <= old(self).next_slot(parent as int) < DIR_SLOTS,
            final(self).node(parent as int).slot_live(old(self).next_slot(parent as int)),
            final(self).has(parent as int),
            final(self).has(i_no as int),
            final(self).node(i_no as int).is_fresh(i_no),
            final(self).node(parent as int).slots@[old(self).next_slot(parent as int)].i_no == i_no,
            final(self).node(parent as int).slots@[old(self).next_slot(parent as int)].name_view() == name@,
            final(self).node(parent as int).slots@[old(self).next_slot(parent as int)].file_type == file_type,
            forall|t: int|
                0 <= t < DIR_SLOTS && t != old(self).next_slot(parent as int) ==> #[trigger] final(self).node(
                    parent as int,
                ).slots@[t] == old(self).node(parent as int).slots@[t],
            final(self).node(parent as int).i_size == old(self).node(parent as int).i_size + DIR_ENTRY_SIZE,
            final(self).node(parent as int).i_no == parent,
            forall|t: int|
                0 <= t < DIR_SLOTS && old(self).node(parent as int).slot_live(t) ==> #[trigger] final(self).node(
                    parent as int,
                ).slot_live(t),
            final(self).free_blocks() + blocks_needed(old(self).node(parent as int), old(self).next_slot(parent as int))
                == old(self).free_blocks(),
            final(self).inode_bitmap@ == old(self).inode_bitmap@.update(i_no as int, true),
            final(self).super_block == old(self).super_block,
            forall|i: int|
                0 <= i < MAX_FILE_PER_FS && i != parent && i != i_no ==> #[trigger] final(self).inodes@[i]
                    == old(self).inodes@[i],
    {
        let i_no = self.create_inode();
        let e = DirEntry::new(i_no, name, file_type);
        assert(self.node(parent as int) == old(self).node(parent as int));
        self.add_dir_entry(parent, e);
        i_no
    }

    /// Creates directory `name` in `parent`: an entry of type directory placed
    /// as `create_dir_entry` places it, and in the new directory the entries
    /// `..` (naming `parent`) and `.` (naming itself), in its first two slots.
    pub fn mkdir(&mut self, parent: u32, name: &[u8]) -> (i_no: u32)
        requires
            old(self).wf(),
            old(self).has(parent as int),
            valid_name(name@),
            name@.len() > 0,
            old(self).node(parent as int).lookup(name@) is None,
            !no_free_run(old(self).inode_bitmap@, 1),
            available_slot(old(self).node(parent as int)) is Some,
            old(self).free_blocks() >= blocks_needed(old(self).node(parent as int), old(self).next_slot(parent as int))
                + 1,
            old(self).node(parent as int).i_size + DIR_ENTRY_SIZE <= INODE_BLOCK_SLOTS * DISK_SECTOR_SIZE,
        ensures
            final(self).wf(),
            first_free_run(old(self).inode_bitmap@, i_no as int, 1),
            i_no != parent,
            0 <= old(self).next_slot(parent as int) < DIR_SLOTS,
            final(self).node(parent as int).slot_live(old(self).next_slot(parent as int)),
            final(self).has(parent as int),
            final(self).has(i_no as int),
            final(self).node(parent as int).slots@[old(self).next_slot(parent as int)].i_no == i_no,
            final(self).node(parent as int).slots@[old(self).next_slot(parent as int)].name_view() == name@,
            final(self).node(parent as int).slots@[old(self).next_slot(parent as int)].file_type
                == FileType::Directory,
            forall|t: int|
                0 <= t < DIR_SLOTS && t != old(self).next_slot(parent as int) ==> #[trigger] final(self).node(
                    parent as int,
                ).slots@[t] == old(self).node(parent as int).slots@[t],
            final(self).node(parent as int).i_size == old(self).node(parent as int).i_size + DIR_ENTRY_SIZE,
            forall|t: int|
                0 <= t < DIR_SLOTS && old(self).node(parent as int).slot_live(t) ==> #[trigger] final(self).node(
                    parent as int,
                ).slot_live(t),
            final(self).node(i_no as int).slots@[0].i_no == parent,
            final(self).node(i_no as int).slots@[0].name_view() == seq![0x2eu8, 0x2eu8],
            final(self).node(i_no as int).slots@[0].file_type == FileType::Directory,
            final(self).node(i_no as int).slots@[1].i_no == i_no,
            final(self).node(i_no as int).slots@[1].name_view() == seq![0x2eu8],
            final(self).node(i_no as int).slots@[1].file_type == FileType::Directory,
            forall|t: int| 2 <= t < DIR_SLOTS ==> (#[trigger] final(self).node(i_no as int).slots@[t]).is_blank(),
            final(self).node(i_no as int).i_size == 2 * DIR_ENTRY_SIZE,
            final(self).node(i_no as int).blocks@[0] != 0,
            forall|k: int| 1 <= k < INODE_BLOCK_SLOTS ==> #[trigger] final(self).node(i_no as int).blocks@[k] == 0,
            final(self).node(i_no as int).indirect_block == 0,
            final(self).free_blocks() + blocks_needed(old(self).node(parent as int), old(self).next_slot(parent as int))
                + 1 == old(self).free_blocks(),
            final(self).inode_bitmap@ == old(self).inode_bitmap@.update(i_no as int, true),
            final(self).super_block == old(self).super_block,
            forall|i: int|
                0 <= i < MAX_FILE_PER_FS && i != parent && i != i_no ==> #[trigger] final(self).inodes@[i]
                    == old(self).inodes@[i],
    {
        let i_no = self.create_dir_entry(parent, name, FileType::Directory);
        let ghost f = self.node(i_no as int);
        let dotdot: [u8; 2] = [0x2e, 0x2e];
        let dot: [u8; 1] = [0x2e];
        assert(dotdot@ =~= seq![0x2eu8, 0x2eu8]);
        assert(dot@ =~= seq![0x2eu8]);
        let up = DirEntry::new(parent, &dotdot, FileType::Directory);
        proof {
            assert(f.blocks@[0] == 0);
            assert(first_unused_block(f.blocks@, 0, 12) == 0);
            assert(available_slot(f) == Some(0int));
            assert(blocks_needed(f, 0) == 1);
        }
        self.add_dir_entry(i_no, up);
        let ghost g = self.node(i_no as int);
        let me = DirEntry::new(i_no, &dot, FileType::Directory);
        proof {
            assert(g.blocks@[1] == 0);
            reveal_with_fuel(first_unused_block, 2);
            assert(first_unused_block(g.blocks@, 0, 12) == 1);
            assert(g.slots@[0] == up);
            assert(!g.slots@[0].spec_is_empty());
            assert(f.slots@[1].is_blank());
            assert(g.slots@[1].spec_is_empty());
            reveal_with_fuel(first_empty_entry, 2);
            assert(first_empty_entry(g.slots@, 0, 0) == 1);
            assert(available_slot(g) == Some(1int));
            assert(blocks_needed(g, 1) == 0);
        }
        self.add_dir_entry(i_no, me);
        proof {
            let h = self.node(i_no as int);
            assert forall|t: int| 2 <= t < DIR_SLOTS implies (#[trigger] h.slots@[t]).is_blank() by {
                assert(f.slots@[t].is_blank());
            }
        }
        i_no
    }

    /// Claims the lowest free inode number and marks it used.
    pub fn apply_inode(&mut self) -> (i_no: u32)
        requires
            old(self).wf(),
            !no_free_run(old(self).inode_bitmap@, 1),
        ensures
            first_free_run(old(self).inode_bitmap@, i_no as int, 1),
            i_no < MAX_FILE_PER_FS,
            final(self).inode_bitmap@ == old(self).inode_bitmap@.update(i_no as int, true),
            final(self).inode_bitmap.byte_len() == old(self).inode_bitmap.byte_len(),
            final(self).block_bitmap == old(self).block_bitmap,
            final(self).inodes == old(self).inodes,
            final(self).super_block == old(self).super_block,
    {
        let r = self.inode_bitmap.apply_bits(1);
        let bit = match r {
            Ok(b) => b,
            Err(_) => {
                proof {
                    assert(false);
                }
                0
            },
        };
        self.inode_bitmap.set_bit(bit, true);
        bit as u32
    }

    /// Claims the lowest free data block and returns its LBA.
    pub fn apply_block(&mut self) -> (lba: u32)
        requires
            old(self).block_pool_ok(),
            old(self).free_blocks() > 0,
        ensures
            first_free_run(old(self).block_bitmap@, lba - old(self).super_block.data_lba_start, 1),
            lba >= old(self).super_block.data_lba_start > 0,
            old(self).in_pool(lba),
            final(self).block_bitmap@ == old(self).block_bitmap@.update(
                lba - old(self).super_block.data_lba_start,
                true,
            ),
            final(self).free_blocks() + 1 == old(self).free_blocks(),
            final(self).block_pool_ok(),
            final(self).block_bitmap.byte_len() == old(self).block_bitmap.byte_len(),
            final(self).inode_bitmap == old(self).inode_bitmap,
            final(self).inodes == old(self).inodes,
            final(self).super_block == old(self).super_block,
    {
        proof {
            lemma_count_free_nonzero(self.block_bitmap@);
        }
        let r = self.block_bitmap.apply_bits(1);
        let bit = match r {
            Ok(b) => b,
            Err(_) => {
                proof {
                    assert(false);
                }
                0
            },
        };
        proof {
            lemma_count_free_set(self.block_bitmap@, bit as int);
        }
        self.block_bitmap.set_bit(bit, true);
        self.super_block.data_lba_start + (bit as u32)
    }
}


/// The first block in `lo..hi` without an address; `hi` if there is none.
pub open spec fn first_unused_block(blocks: Seq<u32>, lo: int, hi: int) -> int
    decreases hi - lo,
{
    if lo >= hi {
        hi
    } else if blocks[lo] == 0 {
        lo
    } else {
        first_unused_block(blocks, lo + 1, hi)
    }
}

/// The first empty entry of block `b` from position `e` on; 18 if there is none.
pub open spec fn first_empty_entry(slots: Seq<DirEntry>, b: int, e: int) -> int
    decreases 18 - e,
{
    if e >= 18 {
        18
    } else if slots[18 * b + e].spec_is_empty() {
        e
    } else {
        first_empty_entry(slots, b, e + 1)
    }
}

/// The slot that a new entry takes among blocks `lo..hi`: with every block in
/// use, the first empty entry of the last one; when the first block is
/// unused, its first entry; else the first empty entry of the block before
/// the first unused one, or the first entry of that unused block.
pub open spec fn pick_slot(blocks: Seq<u32>, slots: Seq<DirEntry>, lo: int, hi: int) -> Option<int> {
    let e = first_unused_block(blocks, lo, hi);
    if e == hi {
        let f = first_empty_entry(slots, hi - 1, 0);
        if f < 18 {
            Some(18 * (hi - 1) + f)
        } else {
            None
        }
    } else if e == lo {
        Some(18 * lo)
    } else {
        let f = first_empty_entry(slots, e - 1, 0);
        if f < 18 {
            Some(18 * (e - 1) + f)
        } else {
            Some(18 * e)
        }
    }
}

/// The slot a new entry of `dir` takes: among the direct blocks, else among
/// the indirect ones.
pub open spec fn available_slot(dir: OpenedInode) -> Option<int> {
    match pick_slot(dir.blocks@, dir.slots@, 0, 12) {
        Some(s) => Some(s),
        None => pick_slot(dir.blocks@, dir.slots@, 12, 140),
    }
}

proof fn lemma_first_unused_block(blocks: Seq<u32>, lo: int, hi: int)
    requires
        lo <= hi,
    ensures
        lo <= first_unused_block(blocks, lo, hi) <= hi,
        first_unused_block(blocks, lo, hi) < hi ==> blocks[first_unused_block(blocks, lo, hi)] == 0,
    decreases hi - lo,
{
    if lo < hi && blocks[lo] != 0 {
        lemma_first_unused_block(blocks, lo + 1, hi);
    }
}

proof fn lemma_first_empty_entry(slots: Seq<DirEntry>, b: int, e: int)
    requires
        0 <= e <= 18,
    ensures
        e <= first_empty_entry(slots, b, e) <= 18,
        first_empty_entry(slots, b, e) < 18 ==> slots[18 * b + first_empty_entry(slots, b, e)].spec_is_empty(),
    decreases 18 - e,
{
    if e < 18 && !slots[18 * b + e].spec_is_empty() {
        lemma_first_empty_entry(slots, b, e + 1);
    }
}

/// The slot a new entry takes is free: its block has no address yet, or
/// the slot holds an empty entry.
pub proof fn lemma_available_slot_free(dir: OpenedInode)
    requires
        available_slot(dir) is Some,
    ensures
        ({
            let s = available_slot(dir)->0;
            !dir.slot_live(s) || dir.slots@[s].spec_is_empty()
        }),
{
    lemma_first_unused_block(dir.blocks@, 0, 12);
    lemma_first_unused_block(dir.blocks@, 12, 140);
    lemma_first_empty_entry(dir.slots@, 11, 0);
    lemma_first_empty_entry(dir.slots@, 139, 0);
    let e0 = first_unused_block(dir.blocks@, 0, 12);
    let e1 = first_unused_block(dir.blocks@, 12, 140);
    if 0 < e0 < 12 {
        lemma_first_empty_entry(dir.slots@, e0 - 1, 0);
    }
    if 12 < e1 < 140 {
        lemma_first_empty_entry(dir.slots@, e1 - 1, 0);
    }
}

/// Data blocks that placing an entry in slot `s` of `dir` claims: the slot's
/// block if it has none, and the indirect block if the slot needs it.
pub open spec fn blocks_needed(dir: OpenedInode, s: int) -> nat {
    (if dir.blocks@[s / 18] == 0 {
        1nat
    } else {
        0nat
    }) + (if s >= DIRECT_SLOTS && dir.indirect_block == 0 {
        1nat
    } else {
        0nat
    })
}

pub fn first_unused_block_exec(blocks: &Vec<u32>, lo: usize, hi: usize) -> (r: usize)
    requires
        lo <= hi <= blocks@.len(),
    ensures
        r == first_unused_block(blocks@, lo as int, hi as int),
        lo <= r <= hi,
{
    let mut i = lo;
    while i < hi
        invariant
            lo <= i <= hi <= blocks@.len(),
            first_unused_block(blocks@, lo as int, hi as int) == first_unused_block(blocks@, i as int, hi as int),
        decreases hi - i,
    {
        if blocks[i] == 0 {
            return i;
        }
        i = i + 1;
    }
    i
}

fn first_empty_entry_exec(slots: &Vec<DirEntry>, b: usize) -> (r: usize)
    requires
        b < INODE_BLOCK_SLOTS,
        18 * b + 18 <= slots@.len(),
    ensures
        r == first_empty_entry(slots@, b as int, 0),
        r <= 18,
{
    let mut e: usize = 0;
    while e < 18
        invariant
            e <= 18,
            b < INODE_BLOCK_SLOTS,
            18 * b + 18 <= slots@.len(),
            first_empty_entry(slots@, b as int, 0) == first_empty_entry(slots@, b as int, e as int),
        decreases 18 - e,
    {
        if slots[18 * b + e].is_empty() {
            return e;
        }
        e = e + 1;
    }
    e
}

fn pick_slot_exec(blocks: &Vec<u32>, slots: &Vec<DirEntry>, lo: usize, hi: usize) -> (r: Option<usize>)
    requires
        lo < hi <= blocks@.len(),
        hi <= INODE_BLOCK_SLOTS,
        18 * hi <= slots@.len(),
    ensures
        r matches Some(s) ==> pick_slot(blocks@, slots@, lo as int, hi as int) == Some(s as int) && s < 18 * hi,
        r is None ==> pick_slot(blocks@, slots@, lo as int, hi as int) is None,
{
    let e = first_unused_block_exec(blocks, lo, hi);
    if e == hi {
        let f = first_empty_entry_exec(slots, hi - 1);
        if f < 18 {
            Some(18 * (hi - 1) + f)
        } else {
            None
        }
    } else if e == lo {
        Some(18 * lo)
    } else {
        let f = first_empty_entry_exec(slots, e - 1);
        if f < 18 {
            Some(18 * (e - 1) + f)
        } else {
            Some(18 * e)
        }
    }
}

/// The slot a new entry of `dir` takes, if there is room.
pub fn find_available_slot(dir: &OpenedInode) -> (r: Option<usize>)
    requires
        dir.wf(),
    ensures
        r matches Some(s) ==> available_slot(*dir) == Some(s as int) && s < DIR_SLOTS,
        r is None ==> available_slot(*dir) is None,
{
    match pick_slot_exec(&dir.blocks, &dir.slots, 0, INODE_DIRECT_DATA_SECS) {
        Some(s) => Some(s),
        None => pick_slot_exec(&dir.blocks, &dir.slots, INODE_DIRECT_DATA_SECS, INODE_BLOCK_SLOTS),
    }
}

/// Data blocks without an address among `lo..hi`.
pub open spec fn count_unused(blocks: Seq<u32>, lo: int, hi: int) -> nat
    decreases hi - lo,
{
    if lo >= hi {
        0
    } else {
        (if blocks[lo] == 0 {
            1nat
        } else {
            0nat
        }) + count_unused(blocks, lo + 1, hi)
    }
}

/// Counts the data blocks without an address among `lo..hi`.
pub fn count_unused_exec(blocks: &Vec<u32>, lo: usize, hi: usize) -> (n: usize)
    requires
        lo <= hi <= blocks@.len(),
    ensures
        n == count_unused(blocks@, lo as int, hi as int),
        n <= hi - lo,
{
    let mut n: usize = 0;
    let mut k: usize = hi;
    while k > lo
        invariant
            lo <= k <= hi,
            hi <= blocks@.len(),
            n == count_unused(blocks@, k as int, hi as int),
            n <= hi - k,
        decreases k - lo,
    {
        k = k - 1;
        if blocks[k] == 0 {
            n = n + 1;
        }
    }
    n
}

proof fn lemma_count_unused_split(blocks: Seq<u32>, lo: int, mid: int, hi: int)
    requires
        lo <= mid <= hi,
    ensures
        count_unused(blocks, lo, hi) == count_unused(blocks, lo, mid) + count_unused(blocks, mid, hi),
    decreases mid - lo,
{
    if lo < mid {
        lemma_count_unused_split(blocks, lo + 1, mid, hi);
    }
}

proof fn lemma_count_unused_same(a: Seq<u32>, b: Seq<u32>, lo: int, hi: int)
    requires
        forall|k: int| lo <= k < hi ==> #[trigger] a[k] == b[k],
    ensures
        count_unused(a, lo, hi) == count_unused(b, lo, hi),
    decreases hi - lo,
{
    if lo < hi {
        lemma_count_unused_same(a, b, lo + 1, hi);
    }
}

/// Data blocks that writing `len` bytes at offset `off` of `node` claims:
/// those of the sectors written that have none, and the indirect block
/// when a sector past the direct ones is written and there is none yet.
pub open spec fn write_blocks_needed(node: OpenedInode, off: int, len: int) -> nat {
    if len == 0 {
        0
    } else {
        count_unused(node.blocks@, off / 512, (off + len - 1) / 512 + 1) + (if (off + len - 1) / 512
            >= INODE_DIRECT_DATA_SECS && node.indirect_block == 0 {
            1nat
        } else {
            0nat
        })
    }
}

/// The bytes of a file holding `old` after `b` is written at offset `off`:
/// `b` replaces what was there, the file grows to cover it, and a gap
/// between the old end and `off` reads as zeros.
pub open spec fn written(old: Seq<u8>, off: int, b: Seq<u8>) -> Seq<u8> {
    Seq::new(
        (if off + b.len() > old.len() {
            off + b.len()
        } else {
            old.len() as int
        }) as nat,
        |p: int|
            if off <= p < off + b.len() {
                b[p - off]
            } else if p < old.len() {
                old[p]
            } else {
                0
            },
    )
}

/// How many bytes a read of `len` bytes at offset `off` of a file of `size`
/// bytes gives: as many as fit before the end of the file.
pub open spec fn read_count(size: int, off: int, len: int) -> int {
    if off >= size {
        0
    } else if len < size - off {
        len
    } else {
        size - off
    }
}

proof fn lemma_sector_pos(q: int, j: int)
    requires
        0 <= j < 512,
    ensures
        (512 * q + j) / 512 == q,
        (512 * q + j) % 512 == j,
{
    vstd::arithmetic::div_mod::lemma_fundamental_div_mod_converse_div(512 * q + j, 512, q, j);
    vstd::arithmetic::div_mod::lemma_fundamental_div_mod_converse_mod(512 * q + j, 512, q, j);
}

/// Among its first `k` data blocks, `n` has one at `lba`.
pub open spec fn uses_block_below(n: OpenedInode, k: int, lba: int) -> bool {
    exists|q: int| 0 <= q < k && n.blocks@[q] == lba
}

/// `n` uses the block at `lba`, as a data block or as its indirect block.
pub open spec fn uses_block(n: OpenedInode, lba: int) -> bool {
    uses_block_below(n, INODE_BLOCK_SLOTS as int, lba) || n.indirect_block == lba
}

/// After an entry named `name` goes into slot `s` of a directory that had no
/// entry of that name (the other slots unchanged), looking up `name` finds it.
pub proof fn lemma_lookup_after_add(o: OpenedInode, n: OpenedInode, s: int, name: Seq<u8>)
    requires
        o.wf(),
        n.wf(),
        name.len() > 0,
        0 <= s < DIR_SLOTS,
        n.slot_live(s),
        n.slots@[s].name_view() == name,
        o.lookup(name) is None,
        forall|t: int| 0 <= t < DIR_SLOTS && t != s ==> #[trigger] n.slots@[t] == o.slots@[t],
    ensures
        n.lookup(name) == Some(n.slots@[s]),
{
    assert(!o.has_named(name));
    assert(n.first_named(name, s)) by {
        assert forall|t: int| 0 <= t < s implies !(#[trigger] n.slot_live(t) && n.slots@[t].name_view() == name) by {
            assert(n.slots@[t] == o.slots@[t]);
            if n.slot_live(t) && n.slots@[t].name_view() == name {
                if !o.slot_live(t) {
                    assert(o.slots@[t].is_blank());
                    assert(o.slots@[t].name_view() =~= Seq::<u8>::empty()) by {
                        assert(o.slots@[t].name@ =~= Seq::new(20, |i: int| 0u8));
                        assert(o.slots@[t].name@[0] == 0);
                    }
                }
            }
        }
    }
    let c = choose|x: int| n.first_named(name, x);
    assert(n.first_named(name, c));
    assert(c == s);
}

/// A blank entry has the empty name.
pub proof fn lemma_blank_name(e: DirEntry)
    requires
        e.is_blank(),
    ensures
        e.name_view() == Seq::<u8>::empty(),
{
    assert(e.name@ =~= Seq::new(20, |i: int| 0u8));
    assert(e.name@[0] == 0);
    assert(e.name_view() =~= Seq::<u8>::empty());
}

/// Once the live slot `s` of a directory is blanked, the other slots and
/// the blocks unchanged, the name it held is found no more: no other live
/// slot held it.
pub proof fn lemma_lookup_after_blank(o: OpenedInode, n: OpenedInode, s: int)
    requires
        o.wf(),
        n.wf(),
        0 <= s < DIR_SLOTS,
        o.slot_live(s),
        n.slots@[s].is_blank(),
        forall|t: int| 0 <= t < DIR_SLOTS && t != s ==> #[trigger] n.slots@[t] == o.slots@[t],
        n.blocks == o.blocks,
    ensures
        n.lookup(o.slots@[s].name_view()) is None,
{
    let x = o.slots@[s].name_view();
    if x.len() > 0 {
        assert forall|t: int| 0 <= t < DIR_SLOTS && #[trigger] n.slot_live(t) implies n.slots@[t].name_view() != x by {
            if t == s {
                lemma_blank_name(n.slots@[s]);
            } else {
                assert(n.slots@[t] == o.slots@[t]);
                assert(o.slot_live(t));
                if t < s {
                    assert(o.slots@[t].name_view() != o.slots@[s].name_view());
                } else {
                    assert(o.slots@[s].name_view() != o.slots@[t].name_view());
                }
            }
        }
    }
}

/// At most one slot is the first live one named `x`.
proof fn lemma_first_named_unique(n: OpenedInode, x: Seq<u8>, c: int, d: int)
    requires
        n.first_named(x, c),
        n.first_named(x, d),
    ensures
        c == d,
{
    if c < d {
        assert(n.slot_live(c) && n.slots@[c].name_view() == x);
    } else if d < c {
        assert(n.slot_live(d) && n.slots@[d].name_view() == x);
    }
}

/// After an entry named `name` goes into a free slot `s` of a directory
/// (the other slots unchanged, live slots staying live), looking up any
/// other name finds what it found before.
pub proof fn lemma_lookup_other_after_add(o: OpenedInode, n: OpenedInode, s: int, name: Seq<u8>, x: Seq<u8>)
    requires
        o.wf(),
        n.wf(),
        0 <= s < DIR_SLOTS,
        n.slots@[s].name_view() == name,
        x != name,
        !o.slot_live(s) || o.slots@[s].spec_is_empty(),
        forall|t: int| 0 <= t < DIR_SLOTS && t != s ==> #[trigger] n.slots@[t] == o.slots@[t],
        forall|t: int| 0 <= t < DIR_SLOTS && o.slot_live(t) ==> #[trigger] n.slot_live(t),
    ensures
        n.lookup(x) == o.lookup(x),
{
    if x.len() > 0 {
        assert forall|t: int| 0 <= t < DIR_SLOTS implies ((#[trigger] o.slot_live(t) && o.slots@[t].name_view() == x)
            <==> (n.slot_live(t) && n.slots@[t].name_view() == x)) by {
            if t == s {
                if o.slot_live(s) {
                    lemma_blank_name(o.slots@[s]);
                }
            } else if n.slot_live(t) && !o.slot_live(t) {
                lemma_blank_name(o.slots@[t]);
            }
        }
        assert(o.has_named(x) == n.has_named(x)) by {
            if o.has_named(x) {
                let t = choose|t: int| 0 <= t < DIR_SLOTS && #[trigger] o.slot_live(t) && o.slots@[t].name_view() == x;
                assert(n.slot_live(t) && n.slots@[t].name_view() == x);
            }
            if n.has_named(x) {
                let t = choose|t: int| 0 <= t < DIR_SLOTS && #[trigger] n.slot_live(t) && n.slots@[t].name_view() == x;
                assert(o.slot_live(t) && o.slots@[t].name_view() == x);
            }
        }
        if o.has_named(x) {
            assert forall|c: int| #[trigger] o.first_named(x, c) implies n.first_named(x, c) by {
                assert forall|t: int| 0 <= t < c implies !(#[trigger] n.slot_live(t) && n.slots@[t].name_view() == x) by {
                    assert(o.slot_live(t) && o.slots@[t].name_view() == x <==> n.slot_live(t) && n.slots@[t].name_view() == x);
                }
                assert(o.slot_live(c) && o.slots@[c].name_view() == x <==> n.slot_live(c) && n.slots@[c].name_view() == x);
            }
            lemma_first_named_exists(o, x);
            let c = choose|c: int| o.first_named(x, c);
            let d = choose|c: int| n.first_named(x, c);
            assert(n.first_named(x, c));
            lemma_first_named_unique(n, x, c, d);
            if c != s {
                assert(n.slots@[c] == o.slots@[c]);
            } else {
                lemma_blank_name(o.slots@[s]);
            }
        }
    }
}

/// A directory with a live slot named `x` has a first such slot.
proof fn lemma_first_named_exists(n: OpenedInode, x: Seq<u8>)
    requires
        n.has_named(x),
    ensures
        exists|c: int| n.first_named(x, c),
{
    let t = choose|t: int| 0 <= t < DIR_SLOTS && #[trigger] n.slot_live(t) && n.slots@[t].name_view() == x;
    lemma_first_named_below(n, x, t);
}

proof fn lemma_first_named_below(n: OpenedInode, x: Seq<u8>, t: int)
    requires
        0 <= t < DIR_SLOTS,
        n.slot_live(t),
        n.slots@[t].name_view() == x,
    ensures
        exists|c: int| n.first_named(x, c),
    decreases t,
{
    if forall|u: int| 0 <= u < t ==> !(#[trigger] n.slot_live(u) && n.slots@[u].name_view() == x) {
        assert(n.first_named(x, t));
    } else {
        let u = choose|u: int| 0 <= u < t && (#[trigger] n.slot_live(u) && n.slots@[u].name_view() == x);
        lemma_first_named_below(n, x, u);
    }
}

impl FileSystem {
    /// A walk that succeeds ends in an inode that exists.
    pub proof fn lemma_walk_has(&self, d: int, ps: Seq<Seq<u8>>)
        requires
            self.walk(d, ps) is Some,
        ensures
            self.has((self.walk(d, ps)->0).1 as int),
        decreases ps.len(),
    {
        let e = self.node(d).lookup(ps[0])->0;
        if ps.len() > 1 {
            self.lemma_walk_has(e.i_no as int, ps.drop_first());
        }
    }

    /// A walk that ends in `c` followed by one more name `x`: the entry
    /// named `x` in `c`, when it exists and so does its inode.
    pub proof fn lemma_walk_push(&self, d: int, ps: Seq<Seq<u8>>, x: Seq<u8>, c: u32)
        requires
            self.walk(d, ps) matches Some((_, i)) && i == c,
        ensures
            self.walk(d, ps.push(x)) == (match self.node(c as int).lookup(x) {
                None => None,
                Some(e) => if !self.has(e.i_no as int) {
                    None
                } else {
                    Some((e, e.i_no))
                },
            }),
        decreases ps.len(),
    {
        let e = self.node(d).lookup(ps[0])->0;
        assert(ps.push(x)[0] == ps[0]);
        if ps.len() == 1 {
            assert(ps.push(x).drop_first() =~= seq![x]);
            assert(c == e.i_no);
            assert(self.has(c as int));
            assert(self.walk(c as int, seq![x]) == (match self.node(c as int).lookup(x) {
                None => None,
                Some(f) => if !self.has(f.i_no as int) {
                    None
                } else {
                    Some((f, f.i_no))
                },
            }));
        } else {
            assert(ps.push(x).drop_first() =~= ps.drop_first().push(x));
            self.lemma_walk_push(e.i_no as int, ps.drop_first(), x, c);
        }
    }

    /// A walk that succeeds in `self` gives the same in `other` when
    /// `other` differs from `self` only by a new entry `name` in directory
    /// `parent` and a new inode `fresh`.
    pub proof fn lemma_walk_frame(&self, other: FileSystem, d: int, ps: Seq<Seq<u8>>, parent: int, name: Seq<u8>, fresh: int)
        requires
            self.walk(d, ps) is Some,
            !self.has(fresh),
            other.has(parent),
            self.node(parent).lookup(name) is None,
            forall|x: Seq<u8>| x != name ==> #[trigger] other.node(parent).lookup(x) == self.node(parent).lookup(x),
            forall|i: int| 0 <= i < MAX_FILE_PER_FS && i != parent && i != fresh ==> #[trigger] other.inodes@[i] == self.inodes@[i],
        ensures
            other.walk(d, ps) == self.walk(d, ps),
        decreases ps.len(),
    {
        let e = self.node(d).lookup(ps[0])->0;
        if d == parent {
            assert(ps[0] != name);
            assert(other.node(parent).lookup(ps[0]) == self.node(parent).lookup(ps[0]));
        } else {
            assert(other.inodes@[d] == self.inodes@[d]);
        }
        if e.i_no != parent {
            assert(other.inodes@[e.i_no as int] == self.inodes@[e.i_no as int]);
        }
        if ps.len() > 1 {
            self.lemma_walk_frame(other, e.i_no as int, ps.drop_first(), parent, name, fresh);
        }
    }
}

impl FileSystem {
    /// Walks depend on which inodes exist and on what their directories
    /// find: where those agree, so do the walks.
    pub proof fn lemma_walk_same_lookups(&self, other: FileSystem, d: int, ps: Seq<Seq<u8>>)
        requires
            forall|j: int| #[trigger] other.has(j) == self.has(j),
            forall|j: int, x: Seq<u8>| self.has(j) ==> #[trigger] other.node(j).lookup(x) == self.node(j).lookup(x),
        ensures
            other.walk(d, ps) == self.walk(d, ps),
        decreases ps.len(),
    {
        if ps.len() > 0 && self.has(d) {
            assert(other.node(d).lookup(ps[0]) == self.node(d).lookup(ps[0]));
            if let Some(e) = self.node(d).lookup(ps[0]) {
                assert(other.has(e.i_no as int) == self.has(e.i_no as int));
                if ps.len() > 1 {
                    self.lemma_walk_same_lookups(other, e.i_no as int, ps.drop_first());
                }
            }
        }
    }
}

/// Allocating more data blocks to an inode whose slots stay as they were
/// changes what none of its names find: the slots that become live are
/// blank.
pub proof fn lemma_lookup_after_grow(o: OpenedInode, n: OpenedInode, x: Seq<u8>)
    requires
        o.wf(),
        n.wf(),
        n.slots == o.slots,
        forall|t: int| 0 <= t < DIR_SLOTS && #[trigger] o.slot_live(t) ==> n.slot_live(t),
    ensures
        n.lookup(x) == o.lookup(x),
{
    if x.len() > 0 {
        assert forall|t: int| 0 <= t < DIR_SLOTS implies ((#[trigger] o.slot_live(t) && o.slots@[t].name_view() == x)
            <==> (n.slot_live(t) && n.slots@[t].name_view() == x)) by {
            if n.slot_live(t) && !o.slot_live(t) {
                lemma_blank_name(o.slots@[t]);
            }
        }
        assert(o.has_named(x) == n.has_named(x)) by {
            if o.has_named(x) {
                let t = choose|t: int| 0 <= t < DIR_SLOTS && #[trigger] o.slot_live(t) && o.slots@[t].name_view() == x;
                assert(n.slot_live(t) && n.slots@[t].name_view() == x);
            }
            if n.has_named(x) {
                let t = choose|t: int| 0 <= t < DIR_SLOTS && #[trigger] n.slot_live(t) && n.slots@[t].name_view() == x;
                assert(o.slot_live(t) && o.slots@[t].name_view() == x);
            }
        }
        if o.has_named(x) {
            assert forall|c: int| #[trigger] o.first_named(x, c) implies n.first_named(x, c) by {
                assert forall|t: int| 0 <= t < c implies !(#[trigger] n.slot_live(t) && n.slots@[t].name_view() == x) by {
                    assert(o.slot_live(t) && o.slots@[t].name_view() == x <==> n.slot_live(t) && n.slots@[t].name_view() == x);
                }
                assert(o.slot_live(c) && o.slots@[c].name_view() == x <==> n.slot_live(c) && n.slots@[c].name_view() == x);
            }
            lemma_first_named_exists(o, x);
            let c = choose|c: int| o.first_named(x, c);
            let d = choose|c: int| n.first_named(x, c);
            assert(n.first_named(x, c));
            lemma_first_named_unique(n, x, c, d);
        }
    }
}

/// Reading back what was written: after `b` is written at offset `off` of
/// a file, a read of `b.len()` bytes at `off` gives all of them, and they
/// are `b`; the bytes outside the write are those of the file before, or
/// zeros past its old end.
pub proof fn lemma_read_after_write(c: Seq<u8>, off: int, b: Seq<u8>)
    requires
        0 <= off,
    ensures
        read_count(written(c, off, b).len() as int, off, b.len() as int) == b.len(),
        written(c, off, b).subrange(off, off + b.len()) == b,
        forall|p: int| 0 <= p < c.len() && !(off <= p < off + b.len()) ==> #[trigger] written(c, off, b)[p] == c[p],
        forall|p: int| c.len() <= p < off ==> #[trigger] written(c, off, b)[p] == 0,
{
    assert(written(c, off, b).subrange(off, off + b.len()) =~= b);
}

/// A file just created holds nothing; once `b` is written at its start,
/// it holds `b`, and a read of `b.len()` bytes from the start gives all of
/// them.
pub proof fn lemma_new_file_reads_back(n: OpenedInode, i: u32, b: Seq<u8>)
    requires
        n.is_fresh(i),
    ensures
        n.content() == Seq::<u8>::empty(),
        written(n.content(), 0, b) == b,
        read_count(b.len() as int, 0, b.len() as int) == b.len(),
{
    assert(n.content() =~= Seq::<u8>::empty());
    assert(written(n.content(), 0, b) =~= b);
}

/// A sector of zeros.
pub fn zero_sector() -> (v: Vec<u8>)
    ensures
        v@ == Seq::new(512, |i: int| 0u8),
{
    let mut v: Vec<u8> = Vec::new();
    let mut i: usize = 0;
    while i < DISK_SECTOR_SIZE
        invariant
            i <= DISK_SECTOR_SIZE,
            v@ == Seq::new(i as nat, |k: int| 0u8),
        decreases DISK_SECTOR_SIZE - i,
    {
        v.push(0);
        i = i + 1;
        assert(v@ =~= Seq::new(i as nat, |k: int| 0u8));
    }
    v
}

/// Whether the entry is named `name`.
pub fn name_matches(e: &DirEntry, name: &[u8]) -> (r: bool)
    ensures
        r == (e.name_view() == name@),
{
    let n = e.get_name();
    if n.len() != name.len() {
        return false;
    }
    let mut i: usize = 0;
    while i < n.len()
        invariant
            i <= n@.len() == name@.len(),
            n@ == e.name_view(),
            forall|k: int| 0 <= k < i ==> n@[k] == name@[k],
        decreases n@.len() - i,
    {
        if n[i] != name[i] {
            assert(n@[i as int] != name@[i as int]);
            return false;
        }
        i = i + 1;
    }
    assert(n@ =~= name@);
    true
}

} // verus!
