use vstd::prelude::*;

use crate::blocking_queue::ArrayBlockingQueue;
use crate::filesystem::file_descriptor::{
    FileDescriptor, FileDescriptorTable, FileDescriptorType, StdFileDescriptor,
};
use crate::pid_allocator::Pid;
use crate::pipe::pipe_container::{self, PipeList, get_pipe_by_fd, install_pipe};
use crate::pipe::pipe_holder::{PipeError, pipe_slot};

verus! {

/// Makes `task` the consumer of the pipe that `pipe_fd` refers to (when it
/// refers to one) and points the task's standard input at `pipe_fd`'s slot.
pub fn set_consumer(fd_table: &mut FileDescriptorTable, list: &mut PipeList, task: Pid, pipe_fd: FileDescriptor) -> (r: Result<(), PipeError>)
    requires
        old(fd_table).wf(),
        pipe_fd.value < old(fd_table).view().len(),
    ensures
        r == Ok::<(), PipeError>(()),
        final(fd_table).wf(),
        final(fd_table).view() == old(fd_table).view().update(0, old(fd_table).view()[pipe_fd.value as int]),
        final(list).view().len() == old(list).view().len(),
        match pipe_slot(old(fd_table).view(), old(list).view(), pipe_fd) {
            None => final(list).view() == old(list).view(),
            Some(i) => {
                let p0 = old(list).view()[i as int]->0;
                let p1 = final(list).view()[i as int]->0;
                &&& final(list).view()[i as int] is Some
                &&& forall|k: int| 0 <= k < old(list).view().len() && k != i ==> #[trigger] final(list).view()[k] == old(list).view()[k]
                &&& p1.consumer_task() == task
                &&& p1.producer_task() == p0.producer_task()
                &&& p1.contents() == p0.contents()
                &&& p1.capacity() == p0.capacity()
                &&& p1.ended() == p0.ended()
                &&& p1.producer_permits() == p0.producer_permits()
                &&& p1.wf() == p0.wf()
            },
        },
{
    let slot = get_pipe_by_fd(fd_table, list, pipe_fd);
    if let Some(i) = slot {
        let p = list.take_pipe(i);
        if let Some(mut pipe) = p {
            pipe.set_consumer(task);
            list.put_pipe(i, Some(pipe));
        }
    }
    proof { fd_table.lemma_len(); }
    let stdin = FileDescriptor::new_fd(StdFileDescriptor::StdInputNo.value());
    fd_table.redirect_file_descriptor(stdin, pipe_fd);
    Ok(())
}

/// Makes `task` the producer of the pipe that `pipe_fd` refers to (when it
/// refers to one) and points the task's standard output at `pipe_fd`'s slot.
pub fn set_producer(fd_table: &mut FileDescriptorTable, list: &mut PipeList, task: Pid, pipe_fd: FileDescriptor) -> (r: Result<(), PipeError>)
    requires
        old(fd_table).wf(),
        pipe_fd.value < old(fd_table).view().len(),
    ensures
        r == Ok::<(), PipeError>(()),
        final(fd_table).wf(),
        final(fd_table).view() == old(fd_table).view().update(1, old(fd_table).view()[pipe_fd.value as int]),
        final(list).view().len() == old(list).view().len(),
        match pipe_slot(old(fd_table).view(), old(list).view(), pipe_fd) {
            None => final(list).view() == old(list).view(),
            Some(i) => {
                let p0 = old(list).view()[i as int]->0;
                let p1 = final(list).view()[i as int]->0;
                &&& final(list).view()[i as int] is Some
                &&& forall|k: int| 0 <= k < old(list).view().len() && k != i ==> #[trigger] final(list).view()[k] == old(list).view()[k]
                &&& p1.producer_task() == task
                &&& p1.consumer_task() == p0.consumer_task()
                &&& p1.contents() == p0.contents()
                &&& p1.capacity() == p0.capacity()
                &&& p1.ended() == p0.ended()
                &&& p1.producer_permits() == p0.producer_permits()
                &&& p1.wf() == p0.wf()
            },
        },
{
    let slot = get_pipe_by_fd(fd_table, list, pipe_fd);
    if let Some(i) = slot {
        let p = list.take_pipe(i);
        if let Some(mut pipe) = p {
            pipe.set_producer(task);
            list.put_pipe(i, Some(pipe));
        }
    }
    proof { fd_table.lemma_len(); }
    let stdout = FileDescriptor::new_fd(StdFileDescriptor::StdOutputNo.value());
    fd_table.redirect_file_descriptor(stdout, pipe_fd);
    Ok(())
}

/// Frees the pipe `fd` refers to and the descriptor itself (see
/// `pipe_container::release_pipe`).
pub fn release_pipe(fd_table: &mut FileDescriptorTable, list: &mut PipeList, fd: FileDescriptor)
    requires
        old(fd_table).wf(),
    ensures
        final(fd_table).wf(),
        match (if fd.value < old(fd_table).view().len() { old(fd_table).view()[fd.value as int] } else { None }) {
            Some(d) => if d.fd_type == FileDescriptorType::Pipe {
                &&& final(fd_table).view() == old(fd_table).view().update(fd.value as int, None)
                &&& final(list).view() == (if d.global_idx < old(list).view().len() {
                    old(list).view().update(d.global_idx as int, None)
                } else {
                    old(list).view()
                })
            } else {
                final(fd_table).view() == old(fd_table).view() && final(list).view() == old(list).view()
            },
            None => final(fd_table).view() == old(fd_table).view() && final(list).view() == old(list).view(),
        },
{
    pipe_container::release_pipe(fd_table, list, fd);
}

/// Creates a pipe of `size` bytes owned by `task`: installs it in the first
/// free pipe slot and a descriptor of type `Pipe` for it in the first free
/// descriptor slot of `fd_table`.
pub fn pipe(fd_table: &mut FileDescriptorTable, list: &mut PipeList, task: Pid, size: usize) -> (r: Result<FileDescriptor, PipeError>)
    requires
        old(fd_table).wf(),
        size < u32::MAX,
    ensures
        final(fd_table).wf(),
        final(list).view().len() == old(list).view().len(),
        (forall|k: int| 0 <= k < old(list).view().len() ==> #[trigger] old(list).view()[k] is Some) ==> r == Err::<FileDescriptor, PipeError>(PipeError::PipeExhaust)
            && final(list).view() == old(list).view() && final(fd_table).view() == old(fd_table).view(),
        r == Err::<FileDescriptor, PipeError>(PipeError::FileDescriptorExhaust) ==> forall|k: int|
            0 <= k < old(fd_table).view().len() ==> #[trigger] old(fd_table).view()[k] is Some,
        r is Ok ==> {
            let fd = r->Ok_0;
            exists|i: int| {
                &&& 0 <= i < old(list).view().len()
                &&& #[trigger] old(list).view()[i] is None
                &&& forall|k: int| 0 <= k < i ==> #[trigger] old(list).view()[k] is Some
                &&& final(list).view()[i] matches Some(p) && p.wf() && p.contents().len() == 0 && p.capacity() == size
                    && !p.ended() && p.producer_task() == task && p.consumer_task() == task
                &&& fd.fd_type == FileDescriptorType::Pipe
                &&& crate::filesystem::file_descriptor::first_free_slot(old(fd_table).view(), fd.value as int)
                &&& final(fd_table).view() == old(fd_table).view().update(fd.value as int, Some(
                    crate::filesystem::file_descriptor::TaskFileDescriptor { global_idx: i as usize, fd_type: FileDescriptorType::Pipe },
                ))
            }
        },
        r is Err ==> final(fd_table).view() == old(fd_table).view(),
{
    let mut buff: Vec<u8> = Vec::new();
    let mut k: usize = 0;
    while k < size
        invariant
            k <= size,
            buff@.len() == k,
        decreases size - k,
    {
        buff.push(0u8);
        k = k + 1;
    }
    let queue = ArrayBlockingQueue::new(buff);
    let idx = install_pipe(list, queue, task);
    match idx {
        None => Err(PipeError::PipeExhaust),
        Some(i) => {
            let fd = fd_table.install_fd(i, FileDescriptorType::Pipe);
            match fd {
                None => Err(PipeError::FileDescriptorExhaust),
                Some(fd) => Ok(fd),
            }
        },
    }
}

} // verus!
