use vstd::prelude::*;

verus! {

/// Bytes in a page.
pub const PAGE_SIZE: usize = 4096;

/// The smallest block size; each container holds blocks twice as large as
/// the one before.
pub const MINIMAL_BLOCK_SIZE: usize = 16;

/// Number of block containers: block sizes 16 to 1024.
pub const MEM_BLOCK_CONTAINER_CNT: usize = 7;

/// Bytes of an arena's header, at the start of its first page.
pub const ARENA_SIZE: usize = 16;

/// The largest block a container holds.
pub const MAX_BLOCK_SIZE: usize = 1024;

/// Block size of container `i`: 16 doubled `i` times.
pub open spec fn container_block_size(i: int) -> int
    decreases i,
{
    if i <= 0 {
        MINIMAL_BLOCK_SIZE as int
    } else {
        2 * container_block_size(i - 1)
    }
}

/// Every container's block size lies between 16 and 1024.
pub proof fn lemma_block_size_range(i: int)
    requires
        0 <= i < MEM_BLOCK_CONTAINER_CNT,
    ensures
        MINIMAL_BLOCK_SIZE <= container_block_size(i) <= MAX_BLOCK_SIZE,
{
    reveal_with_fuel(container_block_size, 8);
    if i == 0 {
    } else if i == 1 {
    } else if i == 2 {
    } else if i == 3 {
    } else if i == 4 {
    } else if i == 5 {
    } else {
        assert(i == 6);
    }
}

/// A run of pages split into blocks: which container it supplies (None for
/// one large allocation), how many pages it spans, its block size and how
/// many of its blocks are free.
#[derive(Debug, Clone, Copy, PartialEq, Eq, Structural)]
pub struct Arena {
    pub supply_for: Option<usize>,
    pub occupy_page_cnt: usize,
    pub block_size: usize,
    pub left_block_cnt: usize,
}

/// Blocks of `block_size` bytes that fit in `pages` pages after the header.
pub open spec fn blocks_in(pages: int, block_size: int) -> int {
    (pages * PAGE_SIZE - ARENA_SIZE) / block_size
}

impl Arena {
    /// An arena of `occupy_page_cnt` pages of blocks of `block_size` bytes,
    /// all free.
    pub fn init(supply_for: Option<usize>, occupy_page_cnt: usize, block_size: usize) -> (a: Self)
        requires
            occupy_page_cnt >= 1,
            occupy_page_cnt * PAGE_SIZE <= usize::MAX,
            block_size > 0,
        ensures
            a.supply_for == supply_for,
            a.occupy_page_cnt == occupy_page_cnt,
            a.block_size == block_size,
            a.left_block_cnt == blocks_in(occupy_page_cnt as int, block_size as int),
    {
        let total = occupy_page_cnt * PAGE_SIZE;
        Arena { supply_for, occupy_page_cnt, block_size, left_block_cnt: (total - ARENA_SIZE) / block_size }
    }

    /// The address of block `block_idx` of the arena at `arena_addr`.
    pub fn find_mem_block(&self, arena_addr: usize, block_idx: usize) -> (addr: usize)
        requires
            arena_addr + ARENA_SIZE + block_idx * self.block_size <= usize::MAX,
        ensures
            addr == arena_addr + ARENA_SIZE + block_idx * self.block_size,
    {
        arena_addr + ARENA_SIZE + block_idx * self.block_size
    }

    /// One block fewer is free.
    pub fn apply_one(&mut self)
        requires
            old(self).left_block_cnt > 0,
        ensures
            *final(self) == (Arena { left_block_cnt: (old(self).left_block_cnt - 1) as usize, ..*old(self) }),
    {
        self.left_block_cnt = self.left_block_cnt - 1;
    }

    /// One block more is free.
    pub fn release_one(&mut self)
        requires
            old(self).left_block_cnt < usize::MAX,
        ensures
            *final(self) == (Arena { left_block_cnt: (old(self).left_block_cnt + 1) as usize, ..*old(self) }),
    {
        self.left_block_cnt = self.left_block_cnt + 1;
    }

    pub fn block_size(&self) -> (s: usize)
        ensures
            s == self.block_size,
    {
        self.block_size
    }

    pub fn left_blocks(&self) -> (n: usize)
        ensures
            n == self.left_block_cnt,
    {
        self.left_block_cnt
    }

    pub fn occupy_pages(&self) -> (n: usize)
        ensures
            n == self.occupy_page_cnt,
    {
        self.occupy_page_cnt
    }

    pub fn supply_for(&self) -> (c: Option<usize>)
        ensures
            c == self.supply_for,
    {
        self.supply_for
    }

    /// Some block of the arena is taken: fewer are free than fit in it.
    pub fn in_use(&self) -> (r: bool)
        requires
            self.block_size > 0,
            self.occupy_page_cnt * PAGE_SIZE <= usize::MAX,
            self.occupy_page_cnt >= 1,
        ensures
            r == (self.left_block_cnt != blocks_in(self.occupy_page_cnt as int, self.block_size as int)),
    {
        let total = (self.occupy_page_cnt * PAGE_SIZE - ARENA_SIZE) / self.block_size;
        self.left_block_cnt != total
    }
}

/// The free blocks of one size, by address, the next to hand out first.
pub struct MemBlockContainer {
    pub block_size: usize,
    pub free: Vec<usize>,
}

impl MemBlockContainer {
    /// Hands out the first free block, if any.
    pub fn apply(&mut self) -> (r: Option<usize>)
        ensures
            final(self).block_size == old(self).block_size,
            old(self).free@.len() == 0 ==> r is None && final(self).free@ == old(self).free@,
            old(self).free@.len() > 0 ==> r == Some(old(self).free@[0]) && final(self).free@ == old(self).free@.drop_first(),
    {
        if self.free.len() == 0 {
            return None;
        }
        let b = self.free.remove(0);
        assert(self.free@ =~= old(self).free@.drop_first());
        Some(b)
    }

    /// Takes back block `addr`.
    pub fn release(&mut self, addr: usize)
        ensures
            final(self).block_size == old(self).block_size,
            final(self).free@ == old(self).free@.push(addr),
    {
        self.free.push(addr);
    }

    /// Adds every free block of the arena at `arena_addr` to the free blocks.
    pub fn smash(&mut self, arena_addr: usize, arena: &Arena)
        requires
            arena.left_block_cnt == 0 || arena_addr + ARENA_SIZE + (arena.left_block_cnt - 1) * arena.block_size
                <= usize::MAX,
        ensures
            final(self).block_size == old(self).block_size,
            final(self).free@ == old(self).free@ + Seq::new(
                arena.left_block_cnt as nat,
                |i: int| (arena_addr + ARENA_SIZE + i * arena.block_size) as usize,
            ),
    {
        let n = arena.left_blocks();
        let mut i: usize = 0;
        while i < n
            invariant
                i <= n == arena.left_block_cnt,
                arena.left_block_cnt == 0 || arena_addr + ARENA_SIZE + (arena.left_block_cnt - 1) * arena.block_size
                    <= usize::MAX,
                self.block_size == old(self).block_size,
                self.free@ == old(self).free@ + Seq::new(
                    i as nat,
                    |k: int| (arena_addr + ARENA_SIZE + k * arena.block_size) as usize,
                ),
            decreases n - i,
        {
            assert(arena_addr + ARENA_SIZE + i * arena.block_size <= usize::MAX) by (nonlinear_arith)
                requires
                    i < n,
                    arena_addr + ARENA_SIZE + (n - 1) * arena.block_size <= usize::MAX,
            ;
            let a = arena.find_mem_block(arena_addr, i);
            self.free.push(a);
            i = i + 1;
            assert(self.free@ =~= old(self).free@ + Seq::new(
                i as nat,
                |k: int| (arena_addr + ARENA_SIZE + k * arena.block_size) as usize,
            ));
        }
    }

    /// Takes every occurrence of block `addr` out of the free blocks.
    pub fn remove_mem_block(&mut self, addr: usize)
        ensures
            final(self).block_size == old(self).block_size,
            final(self).free@ == old(self).free@.filter(|b: usize| b != addr),
    {
        let mut kept: Vec<usize> = Vec::new();
        let mut i: usize = 0;
        while i < self.free.len()
            invariant
                i <= self.free@.len(),
                self.free@ == old(self).free@,
                self.block_size == old(self).block_size,
                kept@ == self.free@.subrange(0, i as int).filter(|b: usize| b != addr),
            decreases self.free@.len() - i,
        {
            let b = self.free[i];
            proof {
                assert(self.free@.subrange(0, i + 1).drop_last() =~= self.free@.subrange(0, i as int));
                reveal(Seq::filter);
            }
            if b != addr {
                kept.push(b);
            }
            i = i + 1;
        }
        assert(self.free@.subrange(0, self.free@.len() as int) =~= self.free@);
        self.free = kept;
    }

    pub fn block_size(&self) -> (s: usize)
        ensures
            s == self.block_size,
    {
        self.block_size
    }

    pub fn size(&self) -> (n: usize)
        ensures
            n == self.free@.len(),
    {
        self.free.len()
    }
}

/// Containers of free blocks, one per block size from 16 to 1024 bytes.
pub struct MemBlockAllocator {
    pub containers: Vec<MemBlockContainer>,
}

impl MemBlockAllocator {
    pub open spec fn wf(&self) -> bool {
        &&& self.containers@.len() == MEM_BLOCK_CONTAINER_CNT
        &&& forall|i: int|
            0 <= i < MEM_BLOCK_CONTAINER_CNT ==> (#[trigger] self.containers@[i]).block_size == container_block_size(i)
    }

    /// Containers of every size, all empty.
    pub fn new() -> (a: Self)
        ensures
            a.wf(),
            forall|i: int| 0 <= i < MEM_BLOCK_CONTAINER_CNT ==> (#[trigger] a.containers@[i]).free@.len() == 0,
    {
        let mut containers: Vec<MemBlockContainer> = Vec::new();
        let mut block_size: usize = MINIMAL_BLOCK_SIZE;
        let mut i: usize = 0;
        while i < MEM_BLOCK_CONTAINER_CNT
            invariant
                i <= MEM_BLOCK_CONTAINER_CNT,
                containers@.len() == i,
                block_size == container_block_size(i as int),
                block_size <= 2048,
                forall|k: int| 0 <= k < i ==> (#[trigger] containers@[k]).block_size == container_block_size(k),
                forall|k: int| 0 <= k < i ==> (#[trigger] containers@[k]).free@.len() == 0,
            decreases MEM_BLOCK_CONTAINER_CNT - i,
        {
            containers.push(MemBlockContainer { block_size, free: Vec::new() });
            proof {
                reveal_with_fuel(container_block_size, 8);
            }
            block_size = block_size * 2;
            i = i + 1;
        }
        MemBlockAllocator { containers }
    }

    /// The container for `bytes`: the first whose blocks are large enough.
    pub fn match_container(&self, bytes: usize) -> (i: usize)
        requires
            self.wf(),
            bytes <= MAX_BLOCK_SIZE,
        ensures
            i < MEM_BLOCK_CONTAINER_CNT,
            bytes <= container_block_size(i as int),
            forall|k: int| 0 <= k < i ==> bytes > #[trigger] container_block_size(k),
    {
        proof {
            reveal_with_fuel(container_block_size, 8);
        }
        let mut i: usize = 0;
        while i < MEM_BLOCK_CONTAINER_CNT
            invariant
                i <= MEM_BLOCK_CONTAINER_CNT,
                self.wf(),
                bytes <= MAX_BLOCK_SIZE,
                container_block_size(6) == MAX_BLOCK_SIZE,
                forall|k: int| 0 <= k < i ==> bytes > #[trigger] container_block_size(k),
            decreases MEM_BLOCK_CONTAINER_CNT - i,
        {
            if bytes <= self.containers[i].block_size {
                return i;
            }
            i = i + 1;
        }
        proof {
            assert(bytes > container_block_size(6));
        }
        0
    }
}

} // verus!
