use vstd::prelude::*;

use crate::bitmap::{BitMap, count_free, first_free_run, lemma_count_free_all, lemma_count_free_nonzero, lemma_count_free_set, no_free_run};
use crate::mem_pool::{MemPool, mark_range};
use crate::memory::mem_block::{ARENA_SIZE, Arena, MAX_BLOCK_SIZE, MEM_BLOCK_CONTAINER_CNT, MemBlockAllocator, PAGE_SIZE, blocks_in, container_block_size};
use crate::memory::page_util::{PageDirectory, PageTableEntry, spec_locate_pde, spec_locate_pte, spec_phy_addr};

verus! {

/// The low memory below the kernel's pools.
pub const REAL_MEMORY: u32 = 0x100000;

/// Page tables set up for the kernel before the pools: the directory and 255 tables.
pub const KERNEL_PAGE_TABLES: u32 = 256;

/// Where the kernel's virtual addresses start.
pub const KERNEL_ADDR_START: usize = 0xc0000000;

/// Where the pools' bitmaps are kept.
pub const KERNEL_MEM_BITMAP_ADDR: usize = 0xc009a000;

/// Memory taken before the pools: low memory, the directory and the tables.
pub open spec fn used_mem() -> int {
    REAL_MEMORY + KERNEL_PAGE_TABLES * PAGE_SIZE
}

/// Pages of each pool for `all_mem` bytes of memory: half of the whole pages
/// left above the memory already taken.
pub open spec fn pages_for_pool(all_mem: u32) -> int {
    ((all_mem - used_mem()) / (PAGE_SIZE as int)) / 2
}

/// Pages `v` and `w`, below 4 GiB, that go through the same directory and
/// table entries are the same page.
proof fn lemma_page_index(v: usize)
    requires
        v < 0x1_0000_0000,
    ensures
        v / 4096 == spec_locate_pde(v) * 1024 + spec_locate_pte(v),
{
    assert(v >> 12 == ((v & 0xffc00000) >> 22) * 1024 + ((v & 0x003ff000) >> 12)) by (bit_vector)
        requires
            v < 0x1_0000_0000,
    ;
    assert(v >> 12 == v / 4096) by (bit_vector);
}

/// Distinct pages of a run below 4 GiB go through distinct table entries.
proof fn lemma_distinct_entries(a: int, i: int, j: int)
    requires
        0 <= a,
        0 <= i,
        0 <= j,
        i != j,
        a + i * 4096 < 0x1_0000_0000,
        a + j * 4096 < 0x1_0000_0000,
    ensures
        spec_locate_pde((a + i * 4096) as usize) != spec_locate_pde((a + j * 4096) as usize) || spec_locate_pte(
            (a + i * 4096) as usize,
        ) != spec_locate_pte((a + j * 4096) as usize),
{
    lemma_page_index((a + i * 4096) as usize);
    lemma_page_index((a + j * 4096) as usize);
    vstd::arithmetic::div_mod::lemma_fundamental_div_mod(a, 4096);
    vstd::arithmetic::div_mod::lemma_mod_pos_bound(a, 4096);
    vstd::arithmetic::div_mod::lemma_fundamental_div_mod_converse_div(a + i * 4096, 4096, a / 4096 + i, a % 4096);
    vstd::arithmetic::div_mod::lemma_fundamental_div_mod_converse_div(a + j * 4096, 4096, a / 4096 + j, a % 4096);
}

/// A page-aligned address mapped to a page-aligned frame below 4 GiB
/// reaches that frame.
proof fn lemma_aligned_frame(phy: usize, v: usize)
    requires
        phy % 4096 == 0,
        v % 4096 == 0,
        phy < 0x1_0000_0000,
    ensures
        spec_phy_addr(PageTableEntry::spec_new_default(phy), v) == phy,
{
    let p = phy as u32;
    assert(p as int == phy as int);
    assert(p % 4096 == 0);
    assert((((p & 0xfffff000u32) | 7u32) & 0xfffff000u32) == p) by (bit_vector)
        requires
            p % 4096 == 0,
    ;
    assert(v & 0xfff == 0) by (bit_vector)
        requires
            v % 4096 == 0,
    ;
}

/// Pages for one large allocation of `bytes`: the bytes after an arena
/// header, rounded up to whole pages.
pub open spec fn pages_for(bytes: int) -> int {
    (ARENA_SIZE + bytes + PAGE_SIZE - 1) / (PAGE_SIZE as int)
}

/// The container for `bytes`, looking from container `i` on: the first
/// whose blocks are large enough.
pub open spec fn size_class_from(bytes: int, i: int) -> int
    decreases MEM_BLOCK_CONTAINER_CNT - i,
{
    if i >= MEM_BLOCK_CONTAINER_CNT {
        MEM_BLOCK_CONTAINER_CNT as int
    } else if bytes <= container_block_size(i) {
        i
    } else {
        size_class_from(bytes, i + 1)
    }
}

proof fn lemma_size_class(bytes: int, ci: int)
    requires
        0 <= ci < MEM_BLOCK_CONTAINER_CNT,
        bytes <= container_block_size(ci),
        forall|k: int| 0 <= k < ci ==> bytes > #[trigger] container_block_size(k),
    ensures
        size_class_from(bytes, 0) == ci,
{
    lemma_size_class_step(bytes, ci, ci);
}

proof fn lemma_size_class_step(bytes: int, ci: int, i: int)
    requires
        0 <= ci < MEM_BLOCK_CONTAINER_CNT,
        0 <= i <= ci,
        bytes <= container_block_size(ci),
        forall|k: int| 0 <= k < ci ==> bytes > #[trigger] container_block_size(k),
    ensures
        size_class_from(bytes, ci - i) == ci,
    decreases i,
{
    if i > 0 {
        lemma_size_class_step(bytes, ci, i - 1);
        assert(bytes > container_block_size(ci - i));
    }
}

/// Freeing one more block of `a` leaves it unused, so its pages go back:
/// for a large allocation when its one block is free, for a container's
/// arena when all but one of its blocks are.
pub open spec fn releases(a: Arena) -> bool {
    let total = blocks_in(a.occupy_page_cnt as int, a.block_size as int);
    match a.supply_for {
        None => a.left_block_cnt == total,
        Some(_) => a.left_block_cnt + 1 == total,
    }
}

/// An arena record that `sys_free` can work on at `addr`.
pub open spec fn arena_ok(addr: int, a: Arena) -> bool {
    &&& a.block_size > 0
    &&& a.occupy_page_cnt >= 1
    &&& a.occupy_page_cnt * PAGE_SIZE <= usize::MAX
    &&& a.left_block_cnt < usize::MAX
    &&& addr + ARENA_SIZE + (a.left_block_cnt + 1) * a.block_size <= usize::MAX
    &&& a.supply_for matches Some(c) ==> c < MEM_BLOCK_CONTAINER_CNT
}

/// What `sys_malloc` of `bytes` does, taking `m0` to `m1` and giving `addr`.
pub open spec fn mallocs(m0: MemoryManager, m1: MemoryManager, bytes: usize, addr: usize) -> bool {
    &&& (bytes > MAX_BLOCK_SIZE ==> exists|k: int|
                    #![trigger first_free_run(m0.kernel_addr_pool.used(), k, pages_for(bytes as int))]
                    first_free_run(m0.kernel_addr_pool.used(), k, pages_for(bytes as int)) && addr
                        == m0.kernel_addr_pool.addr_of(k) + ARENA_SIZE && m1.arenas@ == m0.arenas@.push(
                        (
                            m0.kernel_addr_pool.addr_of(k) as usize,
                            Arena {
                                supply_for: None,
                                occupy_page_cnt: pages_for(bytes as int) as usize,
                                block_size: (pages_for(bytes as int) * PAGE_SIZE - ARENA_SIZE) as usize,
                                left_block_cnt: 1,
                            },
                        ),
                    ) && m1.kernel_addr_pool.used() == mark_range(m0.kernel_addr_pool.used(), k, pages_for(bytes as int))
                        && m1.kernel_addr_pool.start() == m0.kernel_addr_pool.start() && forall|p: int|
                        0 <= p < pages_for(bytes as int) ==> #[trigger] m1.page_freeable(
                            m0.kernel_addr_pool.addr_of(k) + p * PAGE_SIZE,
                        ))
    &&& (bytes <= MAX_BLOCK_SIZE && !m0.needs_new_arena(bytes as int) ==> addr == m0.allocator.containers@[size_class_from(bytes as int, 0)].free@[0] && m1.allocator.containers@[size_class_from(
                    bytes as int,
                    0,
                )].free@ == m0.allocator.containers@[size_class_from(bytes as int, 0)].free@.drop_first())
    &&& (bytes <= MAX_BLOCK_SIZE && m0.needs_new_arena(bytes as int) ==> exists|k: int|
                    #![trigger first_free_run(m0.kernel_addr_pool.used(), k, 1)]
                    first_free_run(m0.kernel_addr_pool.used(), k, 1) && addr == m0.kernel_addr_pool.addr_of(
                        k,
                    ) + ARENA_SIZE && m1.arenas@ == m0.arenas@.push(
                        (
                            m0.kernel_addr_pool.addr_of(k) as usize,
                            Arena {
                                supply_for: Some(size_class_from(bytes as int, 0) as usize),
                                occupy_page_cnt: 1,
                                block_size: container_block_size(size_class_from(bytes as int, 0)) as usize,
                                left_block_cnt: (blocks_in(1, container_block_size(size_class_from(bytes as int, 0))) - 1) as usize,
                            },
                        ),
                    ) && m1.page_freeable(m0.kernel_addr_pool.addr_of(k)))
}

/// The kernel's memory: the kernel and user page pools, the kernel's
/// virtual address pool, the kernel page directory, the block containers
/// and the arenas handed out, by address.
pub struct MemoryManager {
    pub kernel_mem_pool: MemPool,
    pub user_mem_pool: MemPool,
    pub kernel_addr_pool: MemPool,
    pub dir: PageDirectory,
    pub allocator: MemBlockAllocator,
    pub arenas: Vec<(usize, Arena)>,
    /// Where the bitmaps of the kernel pool, the user pool and the kernel
    /// address pool are kept.
    pub bitmap_addrs: [usize; 3],
}

/// `s` with the `cnt` units from `start` free.
pub open spec fn clear_range(s: Seq<bool>, start: int, cnt: int) -> Seq<bool> {
    Seq::new(s.len(), |j: int| if start <= j < start + cnt { false } else { s[j] })
}

/// The unit of the kernel frame pool of `m` that page `v` is mapped to.
pub open spec fn frame_index(m: MemoryManager, v: int) -> int {
    (spec_phy_addr(m.dir.pte_of(v as usize)->0, v as usize) - m.kernel_mem_pool.start()) / (PAGE_SIZE as int)
}

/// The kernel frame pool of `m` once the frames of the `cnt` pages from
/// `vs` are free again.
pub open spec fn frames_freed(m: MemoryManager, vs: int, cnt: int) -> Seq<bool> {
    Seq::new(
        m.kernel_mem_pool.used().len(),
        |j: int|
            m.kernel_mem_pool.used()[j] && !exists|p: int| 0 <= p < cnt && #[trigger] frame_index(m, vs + p * PAGE_SIZE) == j,
    )
}

/// Giving back a run of units just taken from a free run leaves the
/// pool as it was before.
pub proof fn lemma_clear_undoes_mark(s: Seq<bool>, k: int, cnt: int)
    requires
        crate::bitmap::run_free(s, k, cnt),
    ensures
        clear_range(mark_range(s, k, cnt), k, cnt) == s,
{
    assert(clear_range(mark_range(s, k, cnt), k, cnt) =~= s);
}

/// Giving back the pages that `malloc_page` just took (as `free_page`
/// states it) leaves the kernel's address pool as it was before.
pub proof fn lemma_free_page_undoes_malloc_page(
    before: Seq<bool>,
    taken: Seq<bool>,
    given_back: Seq<bool>,
    start: int,
    k: int,
    cnt: int,
    vaddr: int,
)
    requires
        first_free_run(before, k, cnt),
        vaddr == start + k * PAGE_SIZE,
        taken == mark_range(before, k, cnt),
        given_back == clear_range(taken, (vaddr - start) / (PAGE_SIZE as int), cnt),
    ensures
        given_back == before,
{
    assert((vaddr - start) / (PAGE_SIZE as int) == k);
    lemma_clear_undoes_mark(before, k, cnt);
}

/// Freeing what a large `sys_malloc` just gave, with nothing allocated or
/// freed in between, gives the kernel's address pool and the arena records
/// back as they were and leaves none of the arena's pages mapped. Before
/// the allocation no arena was recorded at its page.
pub proof fn lemma_free_undoes_large_malloc(
    m0: MemoryManager,
    m1: MemoryManager,
    m2: MemoryManager,
    bytes: usize,
    addr: usize,
)
    requires
        m0.wf(),
        bytes > MAX_BLOCK_SIZE,
        mallocs(m0, m1, bytes, addr),
        frees(m1, m2, addr),
        forall|j: int| 0 <= j < m0.arenas@.len() ==> (#[trigger] m0.arenas@[j]).0 != addr - addr % 4096,
    ensures
        m2.kernel_addr_pool.used() == m0.kernel_addr_pool.used(),
        m2.arenas@ == m0.arenas@,
        forall|p: int| 0 <= p < pages_for(bytes as int) ==> !#[trigger] m2.mapped(addr - addr % 4096 + p * PAGE_SIZE),
{
    let n = pages_for(bytes as int);
    let u0 = m0.kernel_addr_pool.used();
    let k = choose|k: int|
        #![trigger first_free_run(u0, k, n)]
        first_free_run(u0, k, n) && addr == m0.kernel_addr_pool.addr_of(k) + ARENA_SIZE && m1.arenas@ == m0.arenas@.push(
            (
                m0.kernel_addr_pool.addr_of(k) as usize,
                Arena {
                    supply_for: None,
                    occupy_page_cnt: n as usize,
                    block_size: (n * PAGE_SIZE - ARENA_SIZE) as usize,
                    left_block_cnt: 1,
                },
            ),
        ) && m1.kernel_addr_pool.used() == mark_range(u0, k, n) && m1.kernel_addr_pool.start()
            == m0.kernel_addr_pool.start() && forall|p: int|
            0 <= p < n ==> #[trigger] m1.page_freeable(m0.kernel_addr_pool.addr_of(k) + p * PAGE_SIZE);
    let st = m0.kernel_addr_pool.start();
    let page = m0.kernel_addr_pool.addr_of(k);
    assert(k >= 0);
    assert(page == st + k * 4096);
    assert(addr % 4096 == 16 && addr - addr % 4096 == page) by (nonlinear_arith)
        requires
            page == st + k * 4096,
            st % 4096 == 0,
            k >= 0,
            addr == page + 16,
    ;
    assert(n >= 1);
    let i = m0.arenas@.len() as int;
    assert(m1.arenas@[i].0 == page);
    assert(m1.arena_at(page, i)) by {
        assert forall|j: int| 0 <= j < i implies (#[trigger] m1.arenas@[j]).0 != page by {
            assert(m1.arenas@[j] == m0.arenas@[j]);
        }
    }
    let a = m1.arenas@[i].1;
    assert(releases(a)) by {
        assert(blocks_in(n, n * 4096 - 16) == 1) by (nonlinear_arith)
            requires
                n >= 1,
        ;
    }
    assert(m2.arenas@ =~= m0.arenas@);
    lemma_free_page_undoes_malloc_page(u0, m1.kernel_addr_pool.used(), m2.kernel_addr_pool.used(), st as int, k, n, page);
}

/// Page `v` is not mapped in `dir`.
pub open spec fn unmapped(dir: PageDirectory, v: int) -> bool {
    match dir.pte_of(v as usize) {
        None => true,
        Some(e) => !e.spec_present(),
    }
}

/// What `sys_free` of `vaddr` does, taking `m0` to `m1`: with no arena
/// recorded at the page of `vaddr`, nothing; else the block goes back to
/// its container, and an arena left unused gives its pages back.
pub open spec fn frees(m0: MemoryManager, m1: MemoryManager, vaddr: usize) -> bool {
    &&& (forall|i: int| !#[trigger] m0.arena_at(vaddr - vaddr % 4096, i)) ==> m1 == m0
    &&& forall|i: int|
        #[trigger] m0.arena_at(vaddr - vaddr % 4096, i) ==> {
            let a = m0.arenas@[i].1;
            if releases(a) {
                &&& m1.arenas@ == m0.arenas@.remove(i)
                &&& forall|p: int|
                    0 <= p < a.occupy_page_cnt ==> !#[trigger] m1.mapped(vaddr - vaddr % 4096 + p * PAGE_SIZE)
                &&& m1.kernel_addr_pool.used() == clear_range(
                    m0.kernel_addr_pool.used(),
                    (vaddr - vaddr % 4096 - m0.kernel_addr_pool.start()) / (PAGE_SIZE as int),
                    a.occupy_page_cnt as int,
                )
                &&& m1.kernel_mem_pool.used() == frames_freed(
                    m0,
                    vaddr - vaddr % 4096,
                    a.occupy_page_cnt as int,
                )
            } else if a.supply_for is Some {
                &&& m1.arenas@ == m0.arenas@.update(
                    i,
                    (m0.arenas@[i].0, Arena { left_block_cnt: (a.left_block_cnt + 1) as usize, ..a }),
                )
                &&& m1.allocator.containers@[a.supply_for->0 as int].free@ == m0.allocator.containers@[a.supply_for->0 as int].free@.push(vaddr)
            } else {
                m1 == m0
            }
        }
}

impl MemoryManager {
    pub open spec fn wf(&self) -> bool {
        &&& self.kernel_mem_pool.wf()
        &&& self.user_mem_pool.wf()
        &&& self.kernel_addr_pool.wf()
        &&& self.kernel_mem_pool.unit() == PAGE_SIZE
        &&& self.user_mem_pool.unit() == PAGE_SIZE
        &&& self.kernel_addr_pool.unit() == PAGE_SIZE
        &&& self.kernel_addr_pool.start() + self.kernel_addr_pool.units() * PAGE_SIZE <= 0x1_0000_0000
        &&& self.kernel_mem_pool.start() + self.kernel_mem_pool.units() * PAGE_SIZE <= 0x1_0000_0000
        &&& self.kernel_mem_pool.start() % (PAGE_SIZE as nat) == 0
        &&& self.kernel_addr_pool.start() % (PAGE_SIZE as nat) == 0
        &&& self.dir.wf()
        &&& self.allocator.wf()
    }

    /// Gives page `vaddr` a frame, from the user pool or the kernel pool,
    /// and maps it; a new page table, when one is needed, comes from the
    /// kernel pool. Gives the frame's address.
    pub fn malloc_phy_by_vaddr(&mut self, vaddr: usize, from_user: bool) -> (phy: usize)
        requires
            old(self).wf(),
            unmapped(old(self).dir, vaddr as int),
            from_user ==> !no_free_run(old(self).user_mem_pool.used(), 1) && !no_free_run(old(self).kernel_mem_pool.used(), 1),
            !from_user ==> count_free(old(self).kernel_mem_pool.used()) >= 2,
        ensures
            final(self).wf(),
            final(self).dir.pte_of(vaddr) == Some(PageTableEntry::spec_new_default(phy)),
            forall|v: usize|
                (spec_locate_pde(v) != spec_locate_pde(vaddr) || spec_locate_pte(v) != spec_locate_pte(vaddr))
                    && #[trigger] old(self).dir.pte_of(v) is Some ==> final(self).dir.pte_of(v) == old(self).dir.pte_of(v),
            forall|v: usize|
                (spec_locate_pde(v) != spec_locate_pde(vaddr) || spec_locate_pte(v) != spec_locate_pte(vaddr))
                    && #[trigger] unmapped(old(self).dir, v as int) ==> unmapped(final(self).dir, v as int),
            from_user ==> final(self).user_mem_pool.units() == old(self).user_mem_pool.units(),
            from_user ==> exists|k: int|
                #![trigger first_free_run(old(self).user_mem_pool.used(), k, 1)]
                first_free_run(old(self).user_mem_pool.used(), k, 1) && phy == old(self).user_mem_pool.addr_of(k)
                    && final(self).user_mem_pool.used() == old(self).user_mem_pool.used().update(k, true),
            !from_user ==> exists|k: int|
                #![trigger first_free_run(old(self).kernel_mem_pool.used(), k, 1)]
                first_free_run(old(self).kernel_mem_pool.used(), k, 1) && phy == old(self).kernel_mem_pool.addr_of(k),
            count_free(final(self).kernel_mem_pool.used()) + 2 >= count_free(old(self).kernel_mem_pool.used()),
            final(self).kernel_mem_pool.start() == old(self).kernel_mem_pool.start(),
            final(self).kernel_mem_pool.units() == old(self).kernel_mem_pool.units(),
            !from_user ==> final(self).user_mem_pool == old(self).user_mem_pool,
            final(self).kernel_addr_pool == old(self).kernel_addr_pool,
            final(self).allocator == old(self).allocator,
            final(self).arenas == old(self).arenas,
    {
        let ghost k0 = count_free(self.kernel_mem_pool.used());
        let r = if from_user {
            self.user_mem_pool.apply_one()
        } else {
            self.kernel_mem_pool.apply_one()
        };
        let phy = match r {
            Ok(a) => a,
            Err(_) => {
                proof {
                    if !from_user {
                        lemma_count_free_nonzero(old(self).kernel_mem_pool.used());
                    }
                    assert(false);
                }
                0
            },
        };
        proof {
            if !from_user {
                let k = choose|k: int|
                    #![trigger first_free_run(old(self).kernel_mem_pool.used(), k, 1)]
                    first_free_run(old(self).kernel_mem_pool.used(), k, 1) && self.kernel_mem_pool.used()
                        == old(self).kernel_mem_pool.used().update(k, true);
                lemma_count_free_set(old(self).kernel_mem_pool.used(), k);
                lemma_count_free_nonzero(self.kernel_mem_pool.used());
            }
        }
        let ghost d0 = self.dir;
        let ghost kp_mid = self.kernel_mem_pool.used();
        self.dir.add_page_connection(vaddr, phy, &mut self.kernel_mem_pool);
        proof {
            crate::memory::page_util::lemma_locate_bounds(vaddr);
            let pa = spec_locate_pde(vaddr) as int;
            if !d0.pdes@[pa].spec_present() {
                let k = choose|k: int|
                    #![trigger first_free_run(kp_mid, k, 1)]
                    first_free_run(kp_mid, k, 1) && self.kernel_mem_pool.used() == kp_mid.update(k, true)
                        && self.dir.pdes@[pa] == PageTableEntry::spec_new_default(
                        old(self).kernel_mem_pool.addr_of(k) as usize,
                    );
                lemma_count_free_set(kp_mid, k);
            }
            assert forall|v: usize|
                (spec_locate_pde(v) != spec_locate_pde(vaddr) || spec_locate_pte(v) != spec_locate_pte(vaddr))
                    && #[trigger] old(self).dir.pte_of(v) is Some implies self.dir.pte_of(v) == old(self).dir.pte_of(v) by {
                crate::memory::page_util::lemma_locate_bounds(v);
                let pv = spec_locate_pde(v) as int;
                let tv = spec_locate_pte(v) as int;
                if pv != pa {
                    assert(self.dir.pdes@[pv] == d0.pdes@[pv]);
                    assert(self.dir.tables@[pv] == d0.tables@[pv]);
                } else {
                    assert(self.dir.tables@[pv]@[tv] == d0.tables@[pv]@[tv]);
                }
            }
            assert forall|v: usize|
                (spec_locate_pde(v) != spec_locate_pde(vaddr) || spec_locate_pte(v) != spec_locate_pte(vaddr))
                    && #[trigger] unmapped(old(self).dir, v as int) implies unmapped(self.dir, v as int) by {
                crate::memory::page_util::lemma_locate_bounds(v);
                let pv = spec_locate_pde(v) as int;
                let tv = spec_locate_pte(v) as int;
                assert((v as int) as usize == v);
                if pv != pa {
                    assert(self.dir.pdes@[pv] == d0.pdes@[pv]);
                    assert(self.dir.tables@[pv] == d0.tables@[pv]);
                    assert(self.dir.pte_of(v) == d0.pte_of(v));
                } else if d0.pdes@[pv].spec_present() {
                    assert(tv != spec_locate_pte(vaddr));
                    assert(self.dir.tables@[pv]@[tv] == d0.tables@[pv]@[tv]);
                    assert(self.dir.pte_of(v) == d0.pte_of(v));
                } else {
                    assert(tv != spec_locate_pte(vaddr));
                    assert(!self.dir.tables@[pv]@[tv].spec_present());
                    assert(self.dir.pdes@[pv].spec_present());
                    assert(self.dir.pte_of(v) == Some(self.dir.tables@[pv]@[tv]));
                }
            }
        }
        phy
    }

    /// Page `v` is mapped to a present frame.
    pub open spec fn mapped(&self, v: int) -> bool {
        self.dir.pte_of(v as usize) matches Some(e) && e.spec_present()
    }

    /// Takes `page_cnt` consecutive pages of kernel addresses, the lowest
    /// free run, and maps each to a frame of the kernel pool. Gives the
    /// address of the first page.
    pub fn malloc_page(&mut self, page_cnt: usize) -> (vaddr: usize)
        requires
            old(self).wf(),
            page_cnt >= 1,
            !no_free_run(old(self).kernel_addr_pool.used(), page_cnt as int),
            count_free(old(self).kernel_mem_pool.used()) >= 2 * page_cnt,
            forall|k: int, i: int|
                #![trigger first_free_run(old(self).kernel_addr_pool.used(), k, page_cnt as int), unmapped(old(self).dir, old(self).kernel_addr_pool.addr_of(k + i))]
                first_free_run(old(self).kernel_addr_pool.used(), k, page_cnt as int) && 0 <= i < page_cnt
                    ==> unmapped(old(self).dir, old(self).kernel_addr_pool.addr_of(k + i)),
        ensures
            final(self).wf(),
            exists|k: int|
                #![trigger first_free_run(old(self).kernel_addr_pool.used(), k, page_cnt as int)]
                first_free_run(old(self).kernel_addr_pool.used(), k, page_cnt as int) && vaddr
                    == old(self).kernel_addr_pool.addr_of(k) && final(self).kernel_addr_pool.used() == mark_range(
                    old(self).kernel_addr_pool.used(),
                    k,
                    page_cnt as int,
                ),
            forall|i: int| 0 <= i < page_cnt ==> #[trigger] final(self).mapped(vaddr + i * PAGE_SIZE),
            forall|i: int| 0 <= i < page_cnt ==> #[trigger] final(self).page_freeable(vaddr + i * PAGE_SIZE),
            count_free(final(self).kernel_mem_pool.used()) + 2 * page_cnt >= count_free(old(self).kernel_mem_pool.used()),
            final(self).kernel_addr_pool.start() == old(self).kernel_addr_pool.start(),
            final(self).user_mem_pool == old(self).user_mem_pool,
            final(self).allocator == old(self).allocator,
            final(self).arenas == old(self).arenas,
    {
        let base = match self.kernel_addr_pool.apply(page_cnt) {
            Ok(a) => a,
            Err(_) => {
                proof {
                    assert(false);
                }
                0
            },
        };
        let ghost k = choose|k: int|
            #![trigger first_free_run(old(self).kernel_addr_pool.used(), k, page_cnt as int)]
            first_free_run(old(self).kernel_addr_pool.used(), k, page_cnt as int) && base
                == old(self).kernel_addr_pool.addr_of(k) && self.kernel_addr_pool.used() == mark_range(
                old(self).kernel_addr_pool.used(),
                k,
                page_cnt as int,
            );
        let ghost start = old(self).kernel_addr_pool.start();
        proof {
            assert forall|i: int| 0 <= i < page_cnt implies #[trigger] unmapped(self.dir, base + i * 4096) by {
                assert(unmapped(old(self).dir, old(self).kernel_addr_pool.addr_of(k + i)));
                let a = old(self).kernel_addr_pool.addr_of(k + i);
                assert(a == base + i * 4096) by (nonlinear_arith)
                    requires
                        base == start + k * 4096,
                        a == start + (k + i) * 4096,
                ;
            }
            let units = old(self).kernel_addr_pool.units();
            assert(base + page_cnt * 4096 <= 0x1_0000_0000) by (nonlinear_arith)
                requires
                    base == start + k * 4096,
                    k + page_cnt <= units,
                    start + units * 4096 <= 0x1_0000_0000,
            ;
        }
        let mut i: usize = 0;
        while i < page_cnt
            invariant
                self.wf(),
                i <= page_cnt,
                base + page_cnt * 4096 <= 0x1_0000_0000,
                self.kernel_addr_pool.used() == mark_range(old(self).kernel_addr_pool.used(), k, page_cnt as int),
                self.kernel_addr_pool.start() == old(self).kernel_addr_pool.start(),
                self.kernel_addr_pool.unit() == old(self).kernel_addr_pool.unit(),
                count_free(self.kernel_mem_pool.used()) + 2 * i >= count_free(old(self).kernel_mem_pool.used()),
                count_free(old(self).kernel_mem_pool.used()) >= 2 * page_cnt,
                forall|j: int| 0 <= j < i ==> #[trigger] self.mapped(base + j * 4096),
                forall|j: int| 0 <= j < i ==> #[trigger] self.page_freeable(base + j * 4096),
                forall|j: int| i <= j < page_cnt ==> #[trigger] unmapped(self.dir, base + j * 4096),
                self.kernel_mem_pool.start() == old(self).kernel_mem_pool.start(),
                self.kernel_mem_pool.units() == old(self).kernel_mem_pool.units(),
                base == start + k * 4096,
                start == old(self).kernel_addr_pool.start(),
                base % 4096 == 0,
                0 <= k,
                k + page_cnt <= old(self).kernel_addr_pool.units(),
                self.user_mem_pool == old(self).user_mem_pool,
                self.allocator == old(self).allocator,
                self.arenas == old(self).arenas,
            decreases page_cnt - i,
        {
            assert(unmapped(self.dir, base + i * 4096));
            let vaddr = base + i * PAGE_SIZE;
            assert((vaddr as int) as usize == vaddr);
            let ghost before = *self;
            let phy = self.malloc_phy_by_vaddr(vaddr, false);
            proof {
                PageTableEntry::lemma_new_default_present(phy);
                let kf = choose|kf: int|
                    #![trigger first_free_run(before.kernel_mem_pool.used(), kf, 1)]
                    first_free_run(before.kernel_mem_pool.used(), kf, 1) && phy == before.kernel_mem_pool.addr_of(kf);
                let ks = before.kernel_mem_pool.start();
                let ku = before.kernel_mem_pool.units();
                assert(phy % 4096 == 0) by (nonlinear_arith)
                    requires
                        phy == ks + kf * 4096,
                        ks % 4096 == 0,
                        0 <= kf,
                ;
                assert(ks <= phy < ks + ku * 4096) by (nonlinear_arith)
                    requires
                        phy == ks + kf * 4096,
                        0 <= kf < ku,
                ;
                assert(vaddr % 4096 == 0) by (nonlinear_arith)
                    requires
                        vaddr == base + i * 4096,
                        base % 4096 == 0,
                        0 <= i,
                ;
                lemma_aligned_frame(phy, vaddr);
                let au = old(self).kernel_addr_pool.units();
                assert(start <= vaddr < start + au * 4096) by (nonlinear_arith)
                    requires
                        vaddr == base + i * 4096,
                        base == start + k * 4096,
                        0 <= k,
                        0 <= i < page_cnt,
                        k + page_cnt <= au,
                ;
                assert(self.page_freeable(vaddr as int));
                assert forall|j: int| 0 <= j < i + 1 implies #[trigger] self.page_freeable(base + j * 4096) by {
                    if j < i {
                        lemma_distinct_entries(base as int, j, i as int);
                        assert(before.page_freeable(base + j * 4096));
                        let vj = (base + j * 4096) as usize;
                        assert(before.dir.pte_of(vj) is Some);
                        assert(self.dir.pte_of(vj) == before.dir.pte_of(vj));
                    }
                }
                assert forall|j: int| 0 <= j < i + 1 implies #[trigger] self.mapped(base + j * 4096) by {
                    if j < i {
                        lemma_distinct_entries(base as int, j, i as int);
                        assert(before.mapped(base + j * 4096));
                        let vj = (base + j * 4096) as usize;
                        assert(before.dir.pte_of(vj) is Some);
                    }
                }
                assert forall|j: int| i + 1 <= j < page_cnt implies #[trigger] unmapped(self.dir, base + j * 4096) by {
                    lemma_distinct_entries(base as int, j, i as int);
                    let vj = (base + j * 4096) as usize;
                    assert(unmapped(before.dir, vj as int));
                }
            }
            i = i + 1;
        }
        base
    }

    /// Takes `page_cnt` pages of kernel memory (see `malloc_page`).
    pub fn malloc_kernel_page(&mut self, page_cnt: usize) -> (vaddr: usize)
        requires
            old(self).wf(),
            page_cnt >= 1,
            !no_free_run(old(self).kernel_addr_pool.used(), page_cnt as int),
            count_free(old(self).kernel_mem_pool.used()) >= 2 * page_cnt,
            forall|k: int, i: int|
                #![trigger first_free_run(old(self).kernel_addr_pool.used(), k, page_cnt as int), unmapped(old(self).dir, old(self).kernel_addr_pool.addr_of(k + i))]
                first_free_run(old(self).kernel_addr_pool.used(), k, page_cnt as int) && 0 <= i < page_cnt
                    ==> unmapped(old(self).dir, old(self).kernel_addr_pool.addr_of(k + i)),
        ensures
            final(self).wf(),
            exists|k: int|
                #![trigger first_free_run(old(self).kernel_addr_pool.used(), k, page_cnt as int)]
                first_free_run(old(self).kernel_addr_pool.used(), k, page_cnt as int) && vaddr
                    == old(self).kernel_addr_pool.addr_of(k) && final(self).kernel_addr_pool.used() == mark_range(
                    old(self).kernel_addr_pool.used(),
                    k,
                    page_cnt as int,
                ),
            forall|i: int| 0 <= i < page_cnt ==> #[trigger] final(self).mapped(vaddr + i * PAGE_SIZE),
            forall|i: int| 0 <= i < page_cnt ==> #[trigger] final(self).page_freeable(vaddr + i * PAGE_SIZE),
    {
        self.malloc_page(page_cnt)
    }

    /// Gives the page of the user stack top `user_stack_top` a frame of the
    /// user pool and maps it.
    pub fn malloc_user_stack_page(&mut self, user_stack_top: usize) -> (phy: usize)
        requires
            old(self).wf(),
            unmapped(old(self).dir, user_stack_top as int),
            !no_free_run(old(self).user_mem_pool.used(), 1),
            !no_free_run(old(self).kernel_mem_pool.used(), 1),
        ensures
            final(self).wf(),
            final(self).dir.pte_of(user_stack_top) == Some(PageTableEntry::spec_new_default(phy)),
            exists|k: int|
                #![trigger first_free_run(old(self).user_mem_pool.used(), k, 1)]
                first_free_run(old(self).user_mem_pool.used(), k, 1) && phy == old(self).user_mem_pool.addr_of(k)
                    && final(self).user_mem_pool.used() == old(self).user_mem_pool.used().update(k, true),
            final(self).kernel_addr_pool == old(self).kernel_addr_pool,
    {
        self.malloc_phy_by_vaddr(user_stack_top, true)
    }

    /// Gives the user page `vaddr` the lowest free frame of the user pool
    /// and maps it.
    pub fn malloc_user_page_by_vaddr(&mut self, vaddr: usize)
        requires
            old(self).wf(),
            unmapped(old(self).dir, vaddr as int),
            !no_free_run(old(self).user_mem_pool.used(), 1),
            !no_free_run(old(self).kernel_mem_pool.used(), 1),
        ensures
            final(self).wf(),
            exists|k: int|
                #![trigger first_free_run(old(self).user_mem_pool.used(), k, 1)]
                first_free_run(old(self).user_mem_pool.used(), k, 1) && final(self).dir.pte_of(vaddr) == Some(
                    PageTableEntry::spec_new_default(old(self).user_mem_pool.addr_of(k) as usize),
                ) && final(self).user_mem_pool.used() == old(self).user_mem_pool.used().update(k, true),
            final(self).kernel_addr_pool == old(self).kernel_addr_pool,
    {
        let _ = self.malloc_phy_by_vaddr(vaddr, true);
    }

    /// The record of the arena at `addr`, if any.
    pub fn find_arena(&self, addr: usize) -> (r: Option<usize>)
        ensures
            match r {
                Some(i) => i < self.arenas@.len() && self.arenas@[i as int].0 == addr && forall|j: int|
                    0 <= j < i ==> (#[trigger] self.arenas@[j]).0 != addr,
                None => forall|j: int| 0 <= j < self.arenas@.len() ==> (#[trigger] self.arenas@[j]).0 != addr,
            },
    {
        let mut i: usize = 0;
        while i < self.arenas.len()
            invariant
                i <= self.arenas@.len(),
                forall|j: int| 0 <= j < i ==> (#[trigger] self.arenas@[j]).0 != addr,
            decreases self.arenas@.len() - i,
        {
            if self.arenas[i].0 == addr {
                return Some(i);
            }
            i = i + 1;
        }
        None
    }

    /// What taking `n` pages needs: a free run of `n` kernel addresses,
    /// two free frames a page (the page's and maybe a table's), and the
    /// pages of the run not mapped yet.
    pub open spec fn room_for_pages(&self, n: int) -> bool {
        &&& n >= 1
        &&& !no_free_run(self.kernel_addr_pool.used(), n)
        &&& count_free(self.kernel_mem_pool.used()) >= 2 * n
        &&& forall|k: int, i: int|
            #![trigger first_free_run(self.kernel_addr_pool.used(), k, n), unmapped(self.dir, self.kernel_addr_pool.addr_of(k + i))]
            first_free_run(self.kernel_addr_pool.used(), k, n) && 0 <= i < n ==> unmapped(
                self.dir,
                self.kernel_addr_pool.addr_of(k + i),
            )
    }

    /// A small allocation of `bytes` finds no free block in its container.
    pub open spec fn needs_new_arena(&self, bytes: int) -> bool {
        self.allocator.containers@[size_class_from(bytes, 0)].free@.len() == 0
    }

    /// Takes `bytes` of kernel memory and gives their address. Beyond the
    /// largest block size, whole pages headed by an arena of one block;
    /// else the first free block of the matching container, after splitting
    /// a new page into blocks when the container has none.
    #[verifier::spinoff_prover]
    pub fn sys_malloc(&mut self, bytes: usize) -> (addr: usize)
        requires
            old(self).wf(),
            bytes + ARENA_SIZE + PAGE_SIZE <= usize::MAX,
            bytes > MAX_BLOCK_SIZE ==> old(self).room_for_pages(pages_for(bytes as int)),
            bytes <= MAX_BLOCK_SIZE && old(self).needs_new_arena(bytes as int) ==> old(self).room_for_pages(1),
        ensures
            final(self).wf(),
            mallocs(*old(self), *final(self), bytes, addr),
    {
        if bytes > MAX_BLOCK_SIZE {
            let pages = (ARENA_SIZE + bytes + PAGE_SIZE - 1) / PAGE_SIZE;
            assert(pages == pages_for(bytes as int));
            let base = self.malloc_page(pages);
            proof {
                let k = choose|k: int|
                    #![trigger first_free_run(old(self).kernel_addr_pool.used(), k, pages as int)]
                    first_free_run(old(self).kernel_addr_pool.used(), k, pages as int) && base
                        == old(self).kernel_addr_pool.addr_of(k) && self.kernel_addr_pool.used() == mark_range(
                        old(self).kernel_addr_pool.used(),
                        k,
                        pages as int,
                    );
                let st = old(self).kernel_addr_pool.start();
                let un = old(self).kernel_addr_pool.units();
                assert(base + pages * PAGE_SIZE <= 0x1_0000_0000) by (nonlinear_arith)
                    requires
                        base == st + k * 4096,
                        k + pages <= un,
                        st + un * 4096 <= 0x1_0000_0000,
                ;
                assert(pages >= 1);
            }
            let block = pages * PAGE_SIZE - ARENA_SIZE;
            let arena = Arena::init(None, pages, block);
            assert(arena.left_block_cnt == 1) by {
                assert(blocks_in(pages as int, block as int) == 1) by (nonlinear_arith)
                    requires
                        block == pages * 4096 - 16,
                        block > 0,
                ;
            }
            let ghost mid = *self;
            self.arenas.push((base, arena));
            proof {
                assert forall|p: int| 0 <= p < pages implies #[trigger] self.page_freeable(base + p * PAGE_SIZE) by {
                    assert(mid.page_freeable(base + p * PAGE_SIZE));
                }
            }
            return base + ARENA_SIZE;
        }
        let ci = self.allocator.match_container(bytes);
        proof {
            lemma_size_class(bytes as int, ci as int);
        }
        let mut container = self.allocator.containers.remove(ci);
        let got = container.apply();
        match got {
            Some(b) => {
                let arena_addr = b - b % PAGE_SIZE;
                let found = self.find_arena(arena_addr);
                if let Some(ai) = found {
                    let (a_addr, mut a) = self.arenas.remove(ai);
                    if a.left_block_cnt > 0 {
                        a.apply_one();
                    }
                    self.arenas.insert(ai, (a_addr, a));
                }
                self.allocator.containers.insert(ci, container);
                proof {
                    assert(self.allocator.containers@ =~= old(self).allocator.containers@.update(ci as int, container));
                }
                b
            },
            None => {
                self.allocator.containers.insert(ci, container);
                let page = self.malloc_page(1);
                let ghost after_page = *self;
                proof {
                    assert(self.page_freeable(page + 0 * PAGE_SIZE));
                    let k = choose|k: int|
                        #![trigger first_free_run(old(self).kernel_addr_pool.used(), k, 1)]
                        first_free_run(old(self).kernel_addr_pool.used(), k, 1) && page
                            == old(self).kernel_addr_pool.addr_of(k) && self.kernel_addr_pool.used() == mark_range(
                            old(self).kernel_addr_pool.used(),
                            k,
                            1,
                        );
                    assert(page + 4096 <= 0x1_0000_0000);
                }
                let bs = self.allocator.containers[ci].block_size;
                let mut arena = Arena::init(Some(ci), 1, bs);
                proof {
                    crate::memory::mem_block::lemma_block_size_range(ci as int);
                    let q = arena.left_block_cnt as int;
                    assert(q >= 3) by (nonlinear_arith)
                        requires
                            16 <= bs <= 1024,
                            q == (4096 - 16) / (bs as int),
                    ;
                    assert(q * bs <= 4080) by (nonlinear_arith)
                        requires
                            q == (4096 - 16) / (bs as int),
                            bs > 0,
                    ;
                    assert((q - 1) * bs == q * bs - bs) by (nonlinear_arith);
                }
                let mut container = self.allocator.containers.remove(ci);
                container.smash(page, &arena);
                let first = container.apply();
                self.allocator.containers.insert(ci, container);
                let b = match first {
                    Some(b) => b,
                    None => {
                        proof {
                            assert(false);
                        }
                        0
                    },
                };
                arena.apply_one();
                let ghost mid = *self;
                self.arenas.push((page, arena));
                proof {
                    assert(self.allocator.containers@ =~= old(self).allocator.containers@.update(ci as int, container));
                    assert(mid.dir == after_page.dir);
                    assert(mid.kernel_mem_pool == after_page.kernel_mem_pool);
                    assert(mid.kernel_addr_pool == after_page.kernel_addr_pool);
                    assert(mid.page_freeable(page as int));
                }
                b
            },
        }
    }

    /// Page `v` can be given back: it is mapped, its frame lies in the
    /// kernel pool and the page in the kernel's address pool.
    pub open spec fn page_freeable(&self, v: int) -> bool {
        &&& self.mapped(v)
        &&& self.kernel_mem_pool.start() <= spec_phy_addr(self.dir.pte_of(v as usize)->0, v as usize)
            < self.kernel_mem_pool.start() + self.kernel_mem_pool.units() * PAGE_SIZE
        &&& self.kernel_addr_pool.start() <= v < self.kernel_addr_pool.start() + self.kernel_addr_pool.units()
            * PAGE_SIZE
    }

    /// Gives back `page_cnt` kernel pages from `vaddr_start`: each page's
    /// entry stops being present and its address returns to the kernel's
    /// address pool; with `phy_free`, its frame returns to the kernel pool.
    #[verifier::spinoff_prover]
    #[verifier::rlimit(40)]
    pub fn free_kernel_page(&mut self, vaddr_start: usize, page_cnt: usize, phy_free: bool)
        requires
            old(self).wf(),
            forall|i: int| 0 <= i < page_cnt ==> #[trigger] old(self).page_freeable(vaddr_start + i * PAGE_SIZE),
        ensures
            final(self).wf(),
            forall|i: int| 0 <= i < page_cnt ==> !#[trigger] final(self).mapped(vaddr_start + i * PAGE_SIZE),
            final(self).kernel_addr_pool.start() == old(self).kernel_addr_pool.start(),
            final(self).kernel_mem_pool.start() == old(self).kernel_mem_pool.start(),
            page_cnt > 0 ==> final(self).kernel_addr_pool.used() == clear_range(
                old(self).kernel_addr_pool.used(),
                (vaddr_start - old(self).kernel_addr_pool.start()) / (PAGE_SIZE as int),
                page_cnt as int,
            ),
            phy_free ==> final(self).kernel_mem_pool.used() == frames_freed(*old(self), vaddr_start as int, page_cnt as int),
            !phy_free ==> final(self).kernel_mem_pool == old(self).kernel_mem_pool,
            final(self).user_mem_pool == old(self).user_mem_pool,
            final(self).allocator == old(self).allocator,
            final(self).arenas == old(self).arenas,
    {
        let ghost base = (vaddr_start - old(self).kernel_addr_pool.start()) / (PAGE_SIZE as int);
        proof {
            assert(old(self).kernel_mem_pool.used() =~= frames_freed(*old(self), vaddr_start as int, 0));
            assert(old(self).kernel_addr_pool.used() =~= clear_range(old(self).kernel_addr_pool.used(), base, 0));
        }
        let mut i: usize = 0;
        while i < page_cnt
            invariant
                self.wf(),
                i <= page_cnt,
                self.kernel_mem_pool.start() == old(self).kernel_mem_pool.start(),
                self.kernel_mem_pool.units() == old(self).kernel_mem_pool.units(),
                self.kernel_addr_pool.start() == old(self).kernel_addr_pool.start(),
                self.kernel_addr_pool.units() == old(self).kernel_addr_pool.units(),
                forall|j: int| 0 <= j < i ==> !#[trigger] self.mapped(vaddr_start + j * PAGE_SIZE),
                forall|j: int| i <= j < page_cnt ==> #[trigger] self.page_freeable(vaddr_start + j * PAGE_SIZE),
                forall|j: int| 0 <= j < page_cnt ==> #[trigger] old(self).page_freeable(vaddr_start + j * PAGE_SIZE),
                forall|j: int| i <= j < page_cnt ==> #[trigger] self.dir.pte_of((vaddr_start + j * PAGE_SIZE) as usize)
                    == old(self).dir.pte_of((vaddr_start + j * PAGE_SIZE) as usize),
                base == (vaddr_start - old(self).kernel_addr_pool.start()) / (PAGE_SIZE as int),
                page_cnt > 0 ==> self.kernel_addr_pool.used() == clear_range(old(self).kernel_addr_pool.used(), base, i as int),
                phy_free ==> self.kernel_mem_pool.used() == frames_freed(*old(self), vaddr_start as int, i as int),
                !phy_free ==> self.kernel_mem_pool == old(self).kernel_mem_pool,
                self.user_mem_pool == old(self).user_mem_pool,
                self.allocator == old(self).allocator,
                self.arenas == old(self).arenas,
            decreases page_cnt - i,
        {
            assert(self.page_freeable(vaddr_start + i * PAGE_SIZE));
            let v = vaddr_start + i * PAGE_SIZE;
            assert((v as int) as usize == v);
            let ghost before = *self;
            let phy = self.dir.get_phy_from_virtual_addr(v);
            if phy_free {
                self.kernel_mem_pool.restore(phy);
            }
            self.dir.unset_pte(v);
            self.kernel_addr_pool.restore(v);
            proof {
                assert forall|j: int| 0 <= j < i + 1 implies !#[trigger] self.mapped(vaddr_start + j * PAGE_SIZE) by {
                    if j < i {
                        assert(old(self).page_freeable(vaddr_start + j * PAGE_SIZE));
                        assert(old(self).page_freeable(vaddr_start + i * PAGE_SIZE));
                        lemma_distinct_entries(vaddr_start as int, j, i as int);
                        let vj = (vaddr_start + j * PAGE_SIZE) as usize;
                        crate::memory::page_util::lemma_locate_bounds(vj);
                        crate::memory::page_util::lemma_locate_bounds(v);
                        assert(!before.mapped(vj as int));
                        let pv = spec_locate_pde(vj) as int;
                        let tv = spec_locate_pte(vj) as int;
                        if pv != spec_locate_pde(v) {
                            assert(self.dir.tables@[pv] == before.dir.tables@[pv]);
                        } else {
                            assert(self.dir.tables@[pv]@[tv] == before.dir.tables@[pv]@[tv]);
                        }
                    }
                }
                assert forall|j: int| i + 1 <= j < page_cnt implies #[trigger] self.page_freeable(vaddr_start + j * PAGE_SIZE)
                    && self.dir.pte_of((vaddr_start + j * PAGE_SIZE) as usize) == before.dir.pte_of((vaddr_start + j * PAGE_SIZE) as usize) by {
                    assert(old(self).page_freeable(vaddr_start + j * PAGE_SIZE));
                    assert(old(self).page_freeable(vaddr_start + i * PAGE_SIZE));
                    assert(before.page_freeable(vaddr_start + j * PAGE_SIZE));
                    lemma_distinct_entries(vaddr_start as int, j, i as int);
                    let vj = (vaddr_start + j * PAGE_SIZE) as usize;
                    assert(vj as int == vaddr_start + j * PAGE_SIZE);
                    crate::memory::page_util::lemma_locate_bounds(vj);
                    crate::memory::page_util::lemma_locate_bounds(v);
                    let pv = spec_locate_pde(vj) as int;
                    let tv = spec_locate_pte(vj) as int;
                    if pv != spec_locate_pde(v) {
                        assert(self.dir.tables@[pv] == before.dir.tables@[pv]);
                    } else {
                        assert(self.dir.tables@[pv]@[tv] == before.dir.tables@[pv]@[tv]);
                    }
                    assert(self.dir.pte_of(vj) == before.dir.pte_of(vj));
                }
                assert forall|j: int| i + 1 <= j < page_cnt implies #[trigger] self.dir.pte_of(
                    (vaddr_start + j * PAGE_SIZE) as usize,
                ) == old(self).dir.pte_of((vaddr_start + j * PAGE_SIZE) as usize) by {
                    assert(self.page_freeable(vaddr_start + j * PAGE_SIZE));
                    assert(before.dir.pte_of((vaddr_start + j * PAGE_SIZE) as usize) == old(self).dir.pte_of(
                        (vaddr_start + j * PAGE_SIZE) as usize,
                    ));
                }
                if phy_free {
                    let fi = frame_index(*old(self), vaddr_start + i * PAGE_SIZE);
                    assert(before.dir.pte_of(v) == old(self).dir.pte_of(v));
                    assert(fi == (phy - self.kernel_mem_pool.start()) / (PAGE_SIZE as int));
                    let ff = frames_freed(*old(self), vaddr_start as int, i + 1);
                    assert forall|j: int| 0 <= j < ff.len() implies #[trigger] self.kernel_mem_pool.used()[j] == ff[j] by {
                        if j == fi {
                            assert(frame_index(*old(self), vaddr_start + i * PAGE_SIZE) == j);
                        } else {
                            if exists|p: int| 0 <= p < i + 1 && #[trigger] frame_index(*old(self), vaddr_start + p * PAGE_SIZE) == j {
                                let p = choose|p: int| 0 <= p < i + 1 && #[trigger] frame_index(*old(self), vaddr_start + p * PAGE_SIZE) == j;
                                assert(p < i);
                            }
                        }
                    }
                    assert(self.kernel_mem_pool.used() =~= ff);
                }
            }
            i = i + 1;
        }
    }

    /// Gives back `page_cnt` pages from `vaddr_start`: each page's frame
    /// returns to the kernel pool, its entry stops being present, and its
    /// address returns to the kernel's address pool.
    pub fn free_page(&mut self, vaddr_start: usize, page_cnt: usize)
        requires
            old(self).wf(),
            forall|i: int| 0 <= i < page_cnt ==> #[trigger] old(self).page_freeable(vaddr_start + i * PAGE_SIZE),
        ensures
            final(self).wf(),
            forall|i: int| 0 <= i < page_cnt ==> !#[trigger] final(self).mapped(vaddr_start + i * PAGE_SIZE),
            final(self).kernel_addr_pool.start() == old(self).kernel_addr_pool.start(),
            final(self).kernel_mem_pool.start() == old(self).kernel_mem_pool.start(),
            page_cnt > 0 ==> final(self).kernel_addr_pool.used() == clear_range(
                old(self).kernel_addr_pool.used(),
                (vaddr_start - old(self).kernel_addr_pool.start()) / (PAGE_SIZE as int),
                page_cnt as int,
            ),
            final(self).kernel_mem_pool.used() == frames_freed(*old(self), vaddr_start as int, page_cnt as int),
            final(self).user_mem_pool == old(self).user_mem_pool,
            final(self).allocator == old(self).allocator,
            final(self).arenas == old(self).arenas,
    {
        self.free_kernel_page(vaddr_start, page_cnt, true)
    }

    /// Record `i` is the first one of the arena at `addr`.
    pub open spec fn arena_at(&self, addr: int, i: int) -> bool {
        &&& 0 <= i < self.arenas@.len()
        &&& self.arenas@[i].0 == addr
        &&& forall|j: int| 0 <= j < i ==> (#[trigger] self.arenas@[j]).0 != addr
    }

    /// Frees the memory at `vaddr` that `sys_malloc` gave: the block goes
    /// back to its container, and an arena left unused gives its blocks up
    /// and its pages back (see `free_page`).
    pub fn sys_free(&mut self, vaddr: usize)
        requires
            old(self).wf(),
            forall|i: int|
                #[trigger] old(self).arena_at(vaddr - vaddr % 4096, i) ==> arena_ok(vaddr - vaddr % 4096, old(self).arenas@[i].1)
                    && (releases(old(self).arenas@[i].1) ==> forall|p: int|
                    0 <= p < old(self).arenas@[i].1.occupy_page_cnt ==> #[trigger] old(self).page_freeable(
                        vaddr - vaddr % 4096 + p * PAGE_SIZE,
                    )),
        ensures
            final(self).wf(),
            frees(*old(self), *final(self), vaddr),
    {
        let arena_addr = vaddr - vaddr % PAGE_SIZE;
        let ai = match self.find_arena(arena_addr) {
            None => {
                return;
            },
            Some(i) => i,
        };
        assert(self.arena_at(vaddr - vaddr % 4096, ai as int));
        assert forall|i: int| #[trigger] old(self).arena_at(vaddr - vaddr % 4096, i) implies i == ai by {
            if i < ai {
                assert(self.arenas@[i].0 != arena_addr);
            } else if i > ai {
                assert(old(self).arenas@[ai as int].0 != arena_addr);
            }
        }
        let a = self.arenas[ai].1;
        let pages = a.occupy_pages();
        match a.supply_for() {
            None => {
                if a.in_use() {
                    return;
                }
                self.free_page(arena_addr, pages);
                let ghost after_free = *self;
                self.arenas.remove(ai);
                assert forall|p: int| 0 <= p < a.occupy_page_cnt implies !#[trigger] self.mapped(
                    vaddr - vaddr % 4096 + p * PAGE_SIZE,
                ) by {
                    assert(!after_free.mapped(arena_addr + p * PAGE_SIZE));
                }
                assert(releases(a));
                assert(self.arenas@ == old(self).arenas@.remove(ai as int));
                assert(forall|p: int|
                    0 <= p < a.occupy_page_cnt ==> !#[trigger] self.mapped(vaddr - vaddr % 4096 + p * PAGE_SIZE));
            },
            Some(ci) => {
                let mut c = self.allocator.containers.remove(ci);
                c.release(vaddr);
                let mut a2 = a;
                a2.release_one();
                if a2.in_use() {
                    self.allocator.containers.insert(ci, c);
                    self.arenas.set(ai, (arena_addr, a2));
                    proof {
                        assert forall|i: int| 0 <= i < MEM_BLOCK_CONTAINER_CNT implies (#[trigger] self.allocator.containers@[i]).block_size
                            == container_block_size(i) by {
                            if i != ci {
                                assert(self.allocator.containers@[i] == old(self).allocator.containers@[i]);
                            }
                        }
                    }
                    return;
                }
                let n = a2.left_blocks();
                let mut idx: usize = 0;
                while idx < n
                    invariant
                        idx <= n == a2.left_block_cnt,
                        arena_addr + ARENA_SIZE + a2.left_block_cnt * a2.block_size <= usize::MAX,
                        c.block_size == old(self).allocator.containers@[ci as int].block_size,
                    decreases n - idx,
                {
                    assert(arena_addr + ARENA_SIZE + idx * a2.block_size <= usize::MAX) by (nonlinear_arith)
                        requires
                            idx < n,
                            arena_addr + ARENA_SIZE + n * a2.block_size <= usize::MAX,
                    ;
                    let b = a2.find_mem_block(arena_addr, idx);
                    c.remove_mem_block(b);
                    idx = idx + 1;
                }
                self.allocator.containers.insert(ci, c);
                proof {
                    assert forall|i: int| 0 <= i < MEM_BLOCK_CONTAINER_CNT implies (#[trigger] self.allocator.containers@[i]).block_size
                        == container_block_size(i) by {
                        if i != ci {
                            assert(self.allocator.containers@[i] == old(self).allocator.containers@[i]);
                        }
                    }
                    assert(releases(a));
                    assert forall|p: int| 0 <= p < pages implies #[trigger] self.page_freeable(arena_addr + p * PAGE_SIZE) by {
                        assert(old(self).page_freeable(vaddr - vaddr % 4096 + p * PAGE_SIZE));
                    }
                }
                let ghost before_free = *self;
                proof {
                    assert(before_free.dir == old(self).dir);
                    assert(before_free.kernel_mem_pool == old(self).kernel_mem_pool);
                    assert forall|v: int| #[trigger] frame_index(before_free, v) == frame_index(*old(self), v) by {}
                    let f0 = frames_freed(before_free, arena_addr as int, pages as int);
                    let f1 = frames_freed(*old(self), arena_addr as int, pages as int);
                    assert forall|j: int| 0 <= j < f0.len() implies f0[j] == f1[j] by {
                        if exists|p: int| 0 <= p < pages && #[trigger] frame_index(before_free, arena_addr + p * PAGE_SIZE) == j {
                            let p = choose|p: int| 0 <= p < pages && #[trigger] frame_index(before_free, arena_addr + p * PAGE_SIZE) == j;
                            assert(frame_index(*old(self), arena_addr + p * PAGE_SIZE) == j);
                        }
                        if exists|p: int| 0 <= p < pages && #[trigger] frame_index(*old(self), arena_addr + p * PAGE_SIZE) == j {
                            let p = choose|p: int| 0 <= p < pages && #[trigger] frame_index(*old(self), arena_addr + p * PAGE_SIZE) == j;
                            assert(frame_index(before_free, arena_addr + p * PAGE_SIZE) == j);
                        }
                    }
                    assert(frames_freed(before_free, arena_addr as int, pages as int) =~= frames_freed(
                        *old(self),
                        arena_addr as int,
                        pages as int,
                    ));
                }
                self.free_page(arena_addr, pages);
                let ghost after_free = *self;
                self.arenas.remove(ai);
                assert forall|p: int| 0 <= p < a.occupy_page_cnt implies !#[trigger] self.mapped(
                    vaddr - vaddr % 4096 + p * PAGE_SIZE,
                ) by {
                    assert(!after_free.mapped(arena_addr + p * PAGE_SIZE));
                }
                assert(self.arenas@ == old(self).arenas@.remove(ai as int));
                assert(forall|p: int|
                    0 <= p < a.occupy_page_cnt ==> !#[trigger] self.mapped(vaddr - vaddr % 4096 + p * PAGE_SIZE));
            },
        }
    }

    /// Takes `bytes` of kernel memory whatever task asks (see `sys_malloc`).
    pub fn malloc_system(&mut self, bytes: usize) -> (addr: usize)
        requires
            old(self).wf(),
            bytes + ARENA_SIZE + PAGE_SIZE <= usize::MAX,
            bytes > MAX_BLOCK_SIZE ==> old(self).room_for_pages(pages_for(bytes as int)),
            bytes <= MAX_BLOCK_SIZE && old(self).needs_new_arena(bytes as int) ==> old(self).room_for_pages(1),
        ensures
            final(self).wf(),
            mallocs(*old(self), *final(self), bytes, addr),
    {
        self.sys_malloc(bytes)
    }

    /// Lays out the pools for `all_mem` bytes of memory: above the memory
    /// taken already, half the whole pages left for the kernel, half for
    /// users; kernel addresses from the high gigabyte past low memory, as
    /// many as kernel pages; each bitmap right after the one before.
    pub fn mem_pool_init(all_mem: u32) -> (m: Self)
        requires
            all_mem >= used_mem(),
            KERNEL_ADDR_START + REAL_MEMORY + pages_for_pool(all_mem) * PAGE_SIZE <= 0xffffffff,
        ensures
            m.wf(),
            m.kernel_mem_pool.start() == used_mem(),
            m.user_mem_pool.start() == used_mem() + pages_for_pool(all_mem) * PAGE_SIZE,
            m.kernel_addr_pool.start() == KERNEL_ADDR_START + REAL_MEMORY,
            m.kernel_mem_pool.used() == Seq::new((pages_for_pool(all_mem) / 8 * 8) as nat, |i: int| false),
            m.user_mem_pool.used() == Seq::new((pages_for_pool(all_mem) / 8 * 8) as nat, |i: int| false),
            m.kernel_addr_pool.used() == Seq::new((pages_for_pool(all_mem) / 8 * 8) as nat, |i: int| false),
            m.bitmap_addrs@ == seq![
                KERNEL_MEM_BITMAP_ADDR,
                (KERNEL_MEM_BITMAP_ADDR + pages_for_pool(all_mem) / 8) as usize,
                (KERNEL_MEM_BITMAP_ADDR + 2 * (pages_for_pool(all_mem) / 8)) as usize,
            ],
            m.arenas@.len() == 0,
            forall|i: int| 0 <= i < 1024 ==> !(#[trigger] m.dir.pdes@[i]).spec_present(),
    {
        let used: u32 = REAL_MEMORY + KERNEL_PAGE_TABLES * (PAGE_SIZE as u32);
        let available = all_mem - used;
        let available_page = available / (PAGE_SIZE as u32);
        let per = available_page / 2;
        let bytes = (per / 8) as usize;
        assert(bytes * 8 <= per);
        let kernel_mem_pool = MemPool::init(used as usize, PAGE_SIZE, BitMap::empty(bytes));
        let user_mem_pool = MemPool::init(used as usize + (per as usize) * PAGE_SIZE, PAGE_SIZE, BitMap::empty(bytes));
        let kernel_addr_pool = MemPool::init(KERNEL_ADDR_START + REAL_MEMORY as usize, PAGE_SIZE, BitMap::empty(bytes));
        let b0 = KERNEL_MEM_BITMAP_ADDR;
        let b1 = b0 + bytes;
        let b2 = b1 + bytes;
        let m = MemoryManager {
            kernel_mem_pool,
            user_mem_pool,
            kernel_addr_pool,
            dir: PageDirectory::new(),
            allocator: MemBlockAllocator::new(),
            arenas: Vec::new(),
            bitmap_addrs: [b0, b1, b2],
        };
        assert(m.bitmap_addrs@ =~= seq![b0, b1, b2]);
        m
    }
}

} // verus!
