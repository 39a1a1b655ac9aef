use lib::memory::mem_block::{Arena, MemBlockAllocator, MemBlockContainer, ARENA_SIZE, PAGE_SIZE};
use lib::memory::memory_management::{MemoryManager, KERNEL_MEM_BITMAP_ADDR};
use lib::memory::page_util::{addr_to_pde, addr_to_pte, locate_pde, locate_pte, PageDirectory, PageTableEntry};
use lib::mem_pool::MemPool;
use lib::bitmap::BitMap;

#[test]
fn page_indices_of_kernel_address() {
    assert_eq!(locate_pde(0xc0100000), 768);
    assert_eq!(locate_pte(0xc0100000), 256);
    assert_eq!(locate_pde(0x0040_1234), 1);
    assert_eq!(locate_pte(0x0040_1234), 1);
    assert_eq!(addr_to_pde(0xc0100000), 0xfffffc00);
    assert_eq!(addr_to_pte(0xc0100000), 0xfff00400);
}

#[test]
fn entry_flags() {
    let e = PageTableEntry::new_default(0x1234_5678);
    assert_eq!(e.get_data(), 0x1234_5007);
    assert!(e.present());
    assert!(!PageTableEntry::empty().present());
}

#[test]
fn directory_maps_and_translates() {
    let mut dir = PageDirectory::new();
    let mut pool = MemPool::init(0x300000, PAGE_SIZE, BitMap::empty(1));
    dir.add_page_connection(0x0804_8000, 0x0050_0000, &mut pool);
    assert_eq!(dir.get_phy_from_virtual_addr(0x0804_8abc), 0x0050_0abc);
    assert_eq!(pool.bitmap().bytes(), &vec![1u8]);
    dir.add_page_connection(0x0804_9000, 0x0060_0000, &mut pool);
    assert_eq!(pool.bitmap().bytes(), &vec![1u8]);
    assert_eq!(dir.get_phy_from_virtual_addr(0x0804_9001), 0x0060_0001);
    dir.unset_pte(0x0804_8000);
    assert_eq!(dir.get_phy_from_virtual_addr(0x0804_9001), 0x0060_0001);
}

#[test]
fn arena_layout() {
    let a = Arena::init(Some(2), 1, 64);
    assert_eq!(a.left_blocks(), (PAGE_SIZE - ARENA_SIZE) / 64);
    assert_eq!(a.find_mem_block(0x1000, 2), 0x1000 + 16 + 128);
    assert_eq!(a.supply_for(), Some(2));
    assert_eq!(a.occupy_pages(), 1);
}

#[test]
fn container_hands_out_in_order() {
    let mut c = MemBlockContainer { block_size: 512, free: Vec::new() };
    assert_eq!(c.apply(), None);
    c.smash(0x2000, &Arena::init(Some(5), 1, 512));
    assert_eq!(c.size(), 7);
    assert_eq!(c.apply(), Some(0x2010));
    assert_eq!(c.apply(), Some(0x2210));
    c.release(0x2010);
    c.remove_mem_block(0x2410);
    assert_eq!(c.size(), 5);
    assert_eq!(c.free.last(), Some(&0x2010));
}

#[test]
fn allocator_matches_smallest_container() {
    let a = MemBlockAllocator::new();
    assert_eq!(a.match_container(1), 0);
    assert_eq!(a.match_container(16), 0);
    assert_eq!(a.match_container(17), 1);
    assert_eq!(a.match_container(33), 2);
    assert_eq!(a.match_container(1024), 6);
}

#[test]
fn pools_for_32_mib() {
    let m = MemoryManager::mem_pool_init(32 * 1024 * 1024);
    assert_eq!(m.kernel_mem_pool.bitmap().bit_len(), 3840);
    assert!(m.kernel_mem_pool.in_pool(0x200000));
    assert!(!m.kernel_mem_pool.in_pool(0x1ff000));
    assert!(!m.kernel_mem_pool.in_pool(0x1100000));
    assert!(m.user_mem_pool.in_pool(0x1100000));
    assert!(m.kernel_addr_pool.in_pool(0xc0100000));
    assert!(!m.kernel_addr_pool.in_pool(0xc00ff000));
}

#[test]
fn malloc_small_and_large() {
    let mut m = MemoryManager::mem_pool_init(32 * 1024 * 1024);
    assert_eq!(m.bitmap_addrs, [KERNEL_MEM_BITMAP_ADDR, KERNEL_MEM_BITMAP_ADDR + 480, KERNEL_MEM_BITMAP_ADDR + 960]);
    assert_eq!(m.sys_malloc(33), 0xc0100010);
    assert_eq!(m.sys_malloc(40), 0xc0100050);
    assert_eq!(m.sys_malloc(2000), 0xc0101010);
    assert_eq!(m.dir.get_phy_from_virtual_addr(0xc0100010), 0x200010);
    assert_eq!(m.find_arena(0xc0100000), Some(0));
    assert_eq!(m.find_arena(0xc0102000), None);
}

#[test]
fn free_returns_the_page() {
    let mut m = MemoryManager::mem_pool_init(32 * 1024 * 1024);
    let a = m.sys_malloc(33);
    let b = m.sys_malloc(33);
    let big = m.sys_malloc(2000);
    m.sys_free(a);
    m.sys_free(b);
    assert_eq!(m.find_arena(0xc0100000), None);
    assert_eq!(m.sys_malloc(20), 0xc0100010);
    m.sys_free(big);
    assert_eq!(m.malloc_kernel_page(1), 0xc0101000);
}

#[test]
fn free_kernel_page_keeps_or_frees_frames() {
    let mut m = MemoryManager::mem_pool_init(32 * 1024 * 1024);
    let a = m.malloc_kernel_page(2);
    assert_eq!(a, 0xc0100000);
    assert_eq!(m.dir.get_phy_from_virtual_addr(a + PAGE_SIZE), 0x202000);
    m.free_kernel_page(a, 2, false);
    let b = m.malloc_kernel_page(1);
    assert_eq!(b, 0xc0100000);
    assert_eq!(m.dir.get_phy_from_virtual_addr(b), 0x203000);
    m.free_kernel_page(b, 1, true);
    let c = m.malloc_kernel_page(1);
    assert_eq!(c, 0xc0100000);
    assert_eq!(m.dir.get_phy_from_virtual_addr(c), 0x203000);
}

#[test]
fn user_page_takes_a_user_frame() {
    let mut m = MemoryManager::mem_pool_init(32 * 1024 * 1024);
    m.malloc_user_page_by_vaddr(0x0804_8000);
    assert_eq!(m.dir.get_phy_from_virtual_addr(0x0804_8123), 0x1100123);
    assert_eq!(m.malloc_user_stack_page(0xbfff_f000), 0x1101000);
}

#[test]
fn unset_pde_drops_the_whole_range() {
    let mut dir = PageDirectory::new();
    let mut pool = MemPool::init(0x300000, PAGE_SIZE, BitMap::empty(1));
    dir.add_page_connection(0x0804_8000, 0x0050_0000, &mut pool);
    dir.add_page_connection(0x0c00_0000, 0x0060_0000, &mut pool);
    dir.unset_pde(0x0804_9000);
    assert!(!dir.pdes[locate_pde(0x0804_8000)].present());
    assert_eq!(dir.pdes[locate_pde(0x0804_8000)].get_data() & !1, 0x300007 & !1);
    assert_eq!(dir.get_phy_from_virtual_addr(0x0c00_0010), 0x0060_0010);
}

#[test]
fn freeing_a_large_allocation_gives_the_address_pool_back() {
    let mut m = MemoryManager::mem_pool_init(32 * 1024 * 1024);
    let before = m.kernel_addr_pool.bitmap().bytes().clone();
    let arenas_before = m.arenas.len();
    let big = m.sys_malloc(5000);
    assert_eq!(big, 0xc0100010);
    assert_ne!(m.kernel_addr_pool.bitmap().bytes().clone(), before);
    m.sys_free(big);
    assert_eq!(m.kernel_addr_pool.bitmap().bytes().clone(), before);
    assert_eq!(m.arenas.len(), arenas_before);
}
