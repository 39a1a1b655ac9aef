use lib::blocking_queue::ArrayBlockingQueue;
use lib::filesystem::file_descriptor::{FileDescriptor, FileDescriptorTable, FileDescriptorType, MAX_FILES_PER_PROC};
use lib::pid_allocator::Pid;
use lib::pipe::pipe::{pipe, release_pipe, set_consumer, set_producer};
use lib::pipe::pipe_container::{get_pipe, get_pipe_by_fd, install_pipe, PipeContainer, PipeList, PipeTransfer, PIPE_LIST_SIZE};
use lib::pipe::pipe_holder::{PipeError, PipeReader, PipeWriter};

#[test]
fn descriptor_table_starts_with_standard_slots() {
    let t = FileDescriptorTable::new();
    let slots = t.get_file_descriptors();
    assert_eq!(slots.len(), MAX_FILES_PER_PROC - 3);
    assert!(slots.iter().all(|s| s.is_none()));
    for i in 0..3 {
        let d = t.get_task_file_descriptor(FileDescriptor::new_fd(i)).unwrap();
        assert_eq!(d.get_global_idx(), i);
        assert_eq!(d.get_fd_type(), FileDescriptorType::File);
    }
    assert_eq!(t.get_free_slot(), Some(3));
}

#[test]
fn descriptor_install_and_release() {
    let mut t = FileDescriptorTable::new();
    let fd = t.install_fd(17, FileDescriptorType::File).unwrap();
    assert_eq!(fd.get_value(), 3);
    assert_eq!(t.get_global_idx(fd), Some(17));
    assert_eq!(t.release_fd(fd), Some(17));
    assert_eq!(t.get_global_idx(fd), None);
    assert_eq!(t.get_free_slot(), Some(3));
}

#[test]
fn descriptor_table_runs_out() {
    let mut t = FileDescriptorTable::new();
    for k in 0..(MAX_FILES_PER_PROC - 3) {
        assert_eq!(t.install_fd(k, FileDescriptorType::File).unwrap().get_value(), k + 3);
    }
    assert_eq!(t.install_fd(99, FileDescriptorType::File), None);
}

#[test]
fn pipe_carries_bytes_in_order() {
    let mut t = FileDescriptorTable::new();
    let mut list = PipeList::new();
    let fd = pipe(&mut t, &mut list, Pid::new(10), 4).unwrap();
    assert_eq!(fd.get_value(), 3);
    assert_eq!(fd.get_type(), FileDescriptorType::Pipe);
    assert_eq!(get_pipe_by_fd(&t, &list, fd), Some(0));
    let mut w = PipeWriter::new(fd);
    let mut r = PipeReader::new(fd);
    assert_eq!(w.write(&t, &mut list, b"abc"), Ok(PipeTransfer { count: 3, blocked: false }));
    let mut buf = [0u8; 2];
    assert_eq!(r.read(&t, &mut list, &mut buf), Ok(PipeTransfer { count: 2, blocked: false }));
    assert_eq!(&buf, b"ab");
    assert_eq!(w.write(&t, &mut list, b"defg"), Ok(PipeTransfer { count: 3, blocked: true }));
    let mut big = [0u8; 6];
    assert_eq!(r.read(&t, &mut list, &mut big), Ok(PipeTransfer { count: 4, blocked: true }));
    assert_eq!(&big[..4], b"cdef");
}

#[test]
fn pipe_on_plain_file_descriptor_is_missing() {
    let t = FileDescriptorTable::new();
    let mut list = PipeList::new();
    let mut r = PipeReader::new(FileDescriptor::new_fd(0));
    let mut buf = [0u8; 1];
    assert_eq!(r.read(&t, &mut list, &mut buf), Err(PipeError::PipeNotExist));
    let mut w = PipeWriter::new(FileDescriptor::new(5, FileDescriptorType::Pipe));
    assert_eq!(w.write(&t, &mut list, b"x"), Err(PipeError::PipeNotExist));
}

#[test]
fn pipe_runs_out_of_descriptors() {
    let mut t = FileDescriptorTable::new();
    let mut list = PipeList::new();
    for _ in 0..(MAX_FILES_PER_PROC - 3) {
        assert!(pipe(&mut t, &mut list, Pid::new(10), 1).is_ok());
    }
    assert_eq!(pipe(&mut t, &mut list, Pid::new(10), 1), Err(PipeError::FileDescriptorExhaust));
}

#[test]
fn pipe_list_runs_out_of_slots() {
    let mut list = PipeList::new();
    for k in 0..PIPE_LIST_SIZE {
        assert_eq!(install_pipe(&mut list, ArrayBlockingQueue::new(vec![0u8; 1]), Pid::new(11)), Some(k));
    }
    assert_eq!(install_pipe(&mut list, ArrayBlockingQueue::new(vec![0u8; 1]), Pid::new(11)), None);
    let mut t = FileDescriptorTable::new();
    assert_eq!(pipe(&mut t, &mut list, Pid::new(10), 1), Err(PipeError::PipeExhaust));
}

#[test]
fn release_pipe_frees_slot_and_descriptor() {
    let mut t = FileDescriptorTable::new();
    let mut list = PipeList::new();
    let fd = pipe(&mut t, &mut list, Pid::new(10), 2).unwrap();
    release_pipe(&mut t, &mut list, fd);
    assert!(get_pipe(&list, 0).is_none());
    assert_eq!(t.get_global_idx(fd), None);
}

#[test]
fn consumer_and_producer_redirect_standard_slots() {
    let mut t = FileDescriptorTable::new();
    let mut list = PipeList::new();
    let fd = pipe(&mut t, &mut list, Pid::new(10), 2).unwrap();
    assert_eq!(set_consumer(&mut t, &mut list, Pid::new(20), fd), Ok(()));
    assert_eq!(set_producer(&mut t, &mut list, Pid::new(30), fd), Ok(()));
    let p = get_pipe(&list, 0).as_ref().unwrap();
    assert_eq!(p.get_consumer(), Pid::new(20));
    assert_eq!(p.get_producer(), Pid::new(30));
    let piped = t.get_task_file_descriptor(fd);
    assert!(piped.is_some());
    assert_eq!(t.get_task_file_descriptor(FileDescriptor::new_fd(0)), piped);
    assert_eq!(t.get_task_file_descriptor(FileDescriptor::new_fd(1)), piped);
}

#[test]
fn pipe_end_lets_reader_drain() {
    let mut p: PipeContainer<u8> = PipeContainer::new(ArrayBlockingQueue::new(vec![0u8; 3]), Pid::new(10));
    assert_eq!(p.write(b"hi"), PipeTransfer { count: 2, blocked: false });
    p.write_end();
    let mut buf = [0u8; 5];
    assert_eq!(p.read(&mut buf), PipeTransfer { count: 2, blocked: false });
    assert_eq!(&buf[..2], b"hi");
}
