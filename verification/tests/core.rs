use lib::bitmap::{BitMap, MemoryError};
use lib::blocking_queue::{ArrayBlockingQueue, BlockingQueue, PutOutcome, TakeOutcome};
use lib::mem_pool::MemPool;
use lib::pid_allocator::{Pid, PidPool, START_PID};
use lib::queue::{ArrayQueue, QueueError};
use lib::sync::{Lock, Semaphore};

#[test]
fn bitmap_reads_bits_low_first() {
    let map = BitMap::new(vec![0b0000_0101, 0b1000_0000]);
    assert_eq!(map.bit_len(), 16);
    assert!(map.is_set(0));
    assert!(!map.is_set(1));
    assert!(map.is_set(2));
    assert!(map.is_set(15));
    assert!(!map.is_set(8));
}

#[test]
fn bitmap_set_and_clear() {
    let mut map = BitMap::empty(2);
    map.set_bit(9, true);
    assert_eq!(map.bytes(), &vec![0u8, 0b10]);
    map.set_bit(9, false);
    assert_eq!(map.bytes(), &vec![0u8, 0]);
}

#[test]
fn bitmap_first_free_run() {
    let map = BitMap::new(vec![0b0001_1011]);
    assert_eq!(map.apply_bits(1), Ok(2));
    assert_eq!(map.apply_bits(2), Ok(5));
    assert_eq!(map.apply_bits(3), Ok(5));
    assert_eq!(map.apply_bits(4), Err(MemoryError::MemInsufficient));
}

#[test]
fn mem_pool_hands_out_addresses_in_order() {
    let mut pool = MemPool::init(0x1000, 0x100, BitMap::empty(1));
    assert_eq!(pool.apply(3), Ok(0x1000));
    assert_eq!(pool.apply_one(), Ok(0x1300));
    assert_eq!(pool.apply(5), Err(MemoryError::MemInsufficient));
    assert_eq!(pool.apply(4), Ok(0x1400));
    assert!(pool.in_pool(0x17ff));
    assert!(!pool.in_pool(0x1800));
    assert!(!pool.in_pool(0xfff));
}

#[test]
fn mem_pool_restore_frees_the_unit() {
    let mut pool = MemPool::init(0x2000, 0x10, BitMap::empty(1));
    let before = pool.bitmap().bytes().clone();
    let a = pool.apply_one().unwrap();
    assert_eq!(a, 0x2000);
    pool.restore(a);
    assert_eq!(pool.bitmap().bytes(), &before);
    assert_eq!(pool.apply_one(), Ok(0x2000));
}

#[test]
fn pid_pool_allocates_from_start() {
    let mut pool = PidPool::new();
    let a = pool.allocate();
    let b = pool.allocate();
    assert_eq!(a.get_data(), START_PID);
    assert_eq!(a.get_data(), 1);
    assert_eq!(b.get_data(), START_PID + 1);
}

#[test]
fn pid_release_then_allocate_reuses() {
    let mut pool = PidPool::new();
    let a = pool.allocate();
    let _b = pool.allocate();
    pool.release(a);
    assert_eq!(pool.allocate().get_data(), 1);
    assert_eq!(pool.allocate().get_data(), 3);
}

#[test]
fn pid_pool_over_given_bitmap() {
    let mut pool = PidPool::with_bitmap(BitMap::new(vec![0b0000_0111]), 1);
    assert_eq!(pool.allocate().get_data(), 4);
    pool.release(Pid::new(2));
    assert_eq!(pool.allocate().get_data(), 2);
}

#[test]
fn queue_is_first_in_first_out() {
    let mut q = ArrayQueue::new(vec![0u32; 3]);
    assert!(q.is_empty());
    assert_eq!(q.append(1), Ok(true));
    assert_eq!(q.append(2), Ok(true));
    assert_eq!(q.append(3), Ok(true));
    assert!(q.is_full());
    assert_eq!(q.append(4), Err(QueueError::QueueFull));
    assert_eq!(q.poll(), Some(1));
    assert_eq!(q.append(5), Ok(true));
    assert_eq!(q.size(), 3);
    assert_eq!(q.poll(), Some(2));
    assert_eq!(q.poll(), Some(3));
    assert_eq!(q.poll(), Some(5));
    assert_eq!(q.poll(), None);
    assert_eq!(q.get_data().len(), 3);
}

#[test]
fn queue_without_slots_is_full() {
    let mut q: ArrayQueue<u8> = ArrayQueue::new(Vec::new());
    assert!(q.is_full());
    assert_eq!(q.append(1), Err(QueueError::QueueFull));
}

#[test]
fn semaphore_counts_permits() {
    let mut s = Semaphore::new(1);
    assert!(s.down());
    assert_eq!(s.value, 0);
    assert!(!s.down());
    assert_eq!(s.value, 0);
    s.up();
    assert_eq!(s.value, 1);
}

#[test]
fn lock_is_exclusive() {
    let mut l = Lock::new();
    assert!(l.lock());
    assert!(!l.lock());
    l.unlock();
    assert!(!l.locked);
    assert!(l.lock());
}

#[test]
fn blocking_queue_blocks_when_full_or_empty() {
    let mut q = ArrayBlockingQueue::new(vec![0u8; 2]);
    assert_eq!(q.take(), TakeOutcome::Blocked);
    assert_eq!(q.put(7), PutOutcome::Done);
    assert_eq!(q.put(8), PutOutcome::Done);
    assert_eq!(q.put(9), PutOutcome::Blocked);
    assert!(q.is_full());
    assert_eq!(q.take(), TakeOutcome::Taken(Some(7)));
    assert_eq!(q.take(), TakeOutcome::Taken(Some(8)));
    assert!(q.is_empty());
    assert_eq!(q.take(), TakeOutcome::Blocked);
}

#[test]
fn blocking_queue_end_wakes_the_consumer() {
    let mut q = ArrayBlockingQueue::new(vec![0u8; 2]);
    assert_eq!(q.put(1), PutOutcome::Done);
    assert_eq!(q.end(), PutOutcome::Done);
    assert_eq!(q.take(), TakeOutcome::Taken(Some(1)));
    assert_eq!(q.take(), TakeOutcome::Taken(None));
    assert_eq!(q.take(), TakeOutcome::Taken(None));
}

#[test]
fn bitmap_counts_clear_bits() {
    assert_eq!(BitMap::new(vec![0b1010_0001, 0xff]).count_clear(), 5);
    assert_eq!(BitMap::empty(3).count_clear(), 24);
}

#[test]
fn pids_from_equal_numbers_are_equal() {
    assert_eq!(Pid::new(7), Pid::new(7));
    assert_ne!(Pid::new(7), Pid::new(8));
    assert_eq!(Pid::new(200).get_data(), 200);
}
