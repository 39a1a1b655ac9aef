use lib::common::exec_dto::ExecParam;
use lib::common::open_file_dto::OpenFileDto;
use lib::init::{os_memory_size, AddressRangeDescriptor, ARDS_USABLE};
use lib::mutex::Mutex;
use lib::scheduler::{block_thread, check_task_schedule, schedule, SchedTask, TaskStatus, TaskTicks};

#[test]
fn scheduler_counts_down_the_slice() {
    let mut t = TaskTicks { elapsed_ticks: 0, left_ticks: 2 };
    assert!(!check_task_schedule(&mut t));
    assert!(!check_task_schedule(&mut t));
    assert_eq!(t, TaskTicks { elapsed_ticks: 2, left_ticks: 0 });
    assert!(check_task_schedule(&mut t));
    assert_eq!(t, TaskTicks { elapsed_ticks: 3, left_ticks: 0 });
}

#[test]
fn memory_size_is_largest_usable_end() {
    let map = [
        AddressRangeDescriptor { base_addr: 0, len: 0x9f000, region_type: ARDS_USABLE },
        AddressRangeDescriptor { base_addr: 0x100000, len: 0x1f00000, region_type: ARDS_USABLE },
        AddressRangeDescriptor { base_addr: 0xfffc0000, len: 0x40000, region_type: 2 },
    ];
    assert_eq!(os_memory_size(&map), 0x2000000);
}

#[test]
fn memory_size_cuts_to_32_bits() {
    let map = [AddressRangeDescriptor { base_addr: 0xffff_0000, len: 0x2_0000, region_type: ARDS_USABLE }];
    assert_eq!(os_memory_size(&map), 0x1_0000);
}

#[test]
fn mutex_lock_excludes() {
    let mut m = Mutex::new(5u32);
    let g = m.lock().unwrap();
    assert!(m.lock().is_none());
    *m.get_mut(&g) += 1;
    m.unlock(g);
    assert_eq!(*m.get(), 6);
    assert!(m.lock().is_some());
}

#[test]
fn request_values() {
    let p = ExecParam::new("/bin/ls", Some("-l"));
    assert_eq!(p.get_file_path(), "/bin/ls");
    assert_eq!(p.get_args(), Some("-l"));
    let d = OpenFileDto::new("/a", true);
    assert_eq!(d.file_path, "/a");
    assert!(d.append);
}

#[test]
fn schedule_requeues_a_running_task() {
    let mut cur = SchedTask { status: TaskStatus::TaskRunning, ticks: TaskTicks { elapsed_ticks: 7, left_ticks: 0 }, priority: 5 };
    let mut ready = vec![2u32, 3];
    assert_eq!(schedule(&mut cur, 1, &mut ready, 0), 2);
    assert_eq!(ready, vec![3, 1]);
    assert_eq!(cur.status, TaskStatus::TaskReady);
    assert_eq!(cur.ticks, TaskTicks { elapsed_ticks: 7, left_ticks: 5 });
}

#[test]
fn blocking_the_last_task_wakes_idle() {
    let mut cur = SchedTask { status: TaskStatus::TaskRunning, ticks: TaskTicks { elapsed_ticks: 1, left_ticks: 3 }, priority: 5 };
    let mut ready: Vec<u32> = Vec::new();
    assert_eq!(block_thread(&mut cur, 1, TaskStatus::TaskBlocked, &mut ready, 9), 9);
    assert!(ready.is_empty());
    assert_eq!(cur.status, TaskStatus::TaskBlocked);
    assert_eq!(cur.ticks.left_ticks, 3);
}
