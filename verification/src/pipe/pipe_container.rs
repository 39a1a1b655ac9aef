use vstd::prelude::*;

use crate::blocking_queue::{ArrayBlockingQueue, BlockingQueue, PutOutcome, TakeOutcome};
use crate::filesystem::file_descriptor::{FileDescriptor, FileDescriptorTable, FileDescriptorType};
use crate::pid_allocator::Pid;

verus! {

/// How far a pipe transfer got.
#[derive(Debug, Clone, Copy, PartialEq, Eq, Structural)]
pub struct PipeTransfer {
    /// Number of elements moved.
    pub count: usize,
    /// The transfer stopped because the task would have to wait.
    pub blocked: bool,
}

/// A pipe: a blocking queue plus the tasks at either end.
pub struct PipeContainer<T> {
    queue: ArrayBlockingQueue<T>,
    producer: Pid,
    consumer: Pid,
}

impl<T: Copy> PipeContainer<T> {
    /// The elements in the pipe, oldest first.
    pub closed spec fn contents(&self) -> Seq<T> {
        self.queue.view()
    }

    pub closed spec fn capacity(&self) -> nat {
        self.queue.capacity()
    }

    /// Whether the producer has ended the pipe.
    pub closed spec fn ended(&self) -> bool {
        self.queue.ended()
    }

    pub closed spec fn producer_task(&self) -> Pid {
        self.producer
    }

    pub closed spec fn consumer_task(&self) -> Pid {
        self.consumer
    }

    /// Permits the queue has left for producers.
    pub closed spec fn producer_permits(&self) -> nat {
        self.queue.producer_permits()
    }

    pub closed spec fn wf(&self) -> bool {
        self.queue.wf()
    }

    /// A pipe over `queue`, created by `creator`, who is at first both its
    /// producer and its consumer.
    pub fn new(queue: ArrayBlockingQueue<T>, creator: Pid) -> (p: Self)
        requires
            queue.wf(),
        ensures
            p.wf(),
            p.contents() == queue.view(),
            p.capacity() == queue.capacity(),
            p.ended() == queue.ended(),
            p.producer_permits() == queue.producer_permits(),
            p.producer_task() == creator,
            p.consumer_task() == creator,
    {
        PipeContainer { queue, producer: creator, consumer: creator }
    }

    /// Reads into `buff`, one element per slot, from the front of the pipe.
    /// It stops when `buff` is full, when the pipe is drained and ended, or
    /// when the reader would have to wait for the producer (`blocked`).
    pub fn read(&mut self, buff: &mut [T]) -> (r: PipeTransfer)
        requires
            old(self).wf(),
            old(self).producer_permits() + old(buff)@.len() < u32::MAX,
        ensures
            final(self).wf(),
            final(self).capacity() == old(self).capacity(),
            final(self).ended() == old(self).ended(),
            final(self).producer_task() == old(self).producer_task(),
            final(self).consumer_task() == old(self).consumer_task(),
            r.count == (if old(buff)@.len() <= old(self).contents().len() {
                old(buff)@.len()
            } else {
                old(self).contents().len()
            }),
            r.blocked == (!old(self).ended() && r.count < old(buff)@.len()),
            final(buff)@.len() == old(buff)@.len(),
            final(buff)@.subrange(0, r.count as int) == old(self).contents().subrange(0, r.count as int),
            final(buff)@.subrange(r.count as int, final(buff)@.len() as int) == old(buff)@.subrange(
                r.count as int,
                old(buff)@.len() as int,
            ),
            final(self).contents() == old(self).contents().skip(r.count as int),
    {
        let ghost c = self.queue.view();
        let ghost b0 = buff@;
        let ghost p0 = self.queue.producer_permits();
        proof { self.queue.lemma_counts(); }
        let mut idx: usize = 0;
        while idx < buff.len()
            invariant
                self.queue.wf(),
                self.queue.capacity() == old(self).capacity(),
                self.queue.ended() == old(self).ended(),
                self.producer == old(self).producer,
                self.consumer == old(self).consumer,
                idx <= buff@.len(),
                c == old(self).queue.view(),
                b0 == old(buff)@,
                buff@.len() == b0.len(),
                idx <= c.len(),
                self.queue.view() == c.skip(idx as int),
                self.queue.producer_permits() == p0 + idx,
                p0 + b0.len() < u32::MAX,
                buff@.subrange(0, idx as int) == c.subrange(0, idx as int),
                buff@.subrange(idx as int, buff@.len() as int) == b0.subrange(idx as int, b0.len() as int),
            decreases buff@.len() - idx,
        {
            let taken = self.queue.take();
            match taken {
                TakeOutcome::Blocked => {
                    assert(c.skip(idx as int).len() == 0);
                    return PipeTransfer { count: idx, blocked: true };
                },
                TakeOutcome::Taken(None) => {
                    return PipeTransfer { count: idx, blocked: false };
                },
                TakeOutcome::Taken(Some(x)) => {
                    let ghost before = buff@;
                    buff[idx] = x;
                    proof {
                        assert(buff@.subrange(0, idx + 1) =~= c.subrange(0, idx + 1)) by {
                            assert(before.subrange(0, idx as int) == c.subrange(0, idx as int));
                            assert forall|k: int| 0 <= k < idx implies buff@[k] == c[k] by {
                                assert(before.subrange(0, idx as int)[k] == before[k]);
                            }
                        }
                        assert(buff@.subrange(idx + 1, buff@.len() as int) =~= b0.subrange(idx + 1, b0.len() as int)) by {
                            assert forall|k: int| idx + 1 <= k < buff@.len() implies buff@[k] == b0[k] by {
                                assert(before.subrange(idx as int, before.len() as int)[k - idx] == before[k]);
                            }
                        }
                        assert(c.skip(idx as int).drop_first() =~= c.skip(idx + 1));
                    }
                    idx = idx + 1;
                },
            }
        }
        PipeTransfer { count: idx, blocked: false }
    }

    /// Writes the elements of `data`, in order, into the pipe. It stops early
    /// (`blocked`) when the pipe is full and the writer would have to wait.
    pub fn write(&mut self, data: &[T]) -> (r: PipeTransfer)
        requires
            old(self).wf(),
            !old(self).ended(),
        ensures
            final(self).wf(),
            final(self).capacity() == old(self).capacity(),
            !final(self).ended(),
            final(self).producer_task() == old(self).producer_task(),
            final(self).consumer_task() == old(self).consumer_task(),
            r.count == (if data@.len() + old(self).contents().len() <= old(self).capacity() {
                data@.len() as int
            } else {
                old(self).capacity() - old(self).contents().len()
            }),
            r.blocked == (r.count < data@.len()),
            final(self).contents() == old(self).contents() + data@.subrange(0, r.count as int),
    {
        let ghost c = self.queue.view();
        proof { self.queue.lemma_counts(); }
        let mut idx: usize = 0;
        while idx < data.len()
            invariant
                self.queue.wf(),
                self.queue.capacity() == old(self).capacity(),
                !self.queue.ended(),
                self.producer == old(self).producer,
                self.consumer == old(self).consumer,
                idx <= data@.len(),
                c == old(self).queue.view(),
                c.len() + idx <= self.queue.capacity(),
                self.queue.view() == c + data@.subrange(0, idx as int),
            decreases data@.len() - idx,
        {
            let outcome = self.queue.put(data[idx]);
            match outcome {
                PutOutcome::Blocked => {
                    return PipeTransfer { count: idx, blocked: true };
                },
                PutOutcome::Done => {
                    assert(c + data@.subrange(0, idx + 1) =~= (c + data@.subrange(0, idx as int)).push(data@[idx as int]));
                    idx = idx + 1;
                },
            }
        }
        PipeTransfer { count: idx, blocked: false }
    }

    /// Ends the pipe from the producer's side.
    pub fn write_end(&mut self) -> (r: PutOutcome)
        requires
            old(self).wf(),
            !old(self).ended(),
        ensures
            final(self).wf(),
            final(self).contents() == old(self).contents(),
            final(self).capacity() == old(self).capacity(),
            final(self).producer_task() == old(self).producer_task(),
            final(self).consumer_task() == old(self).consumer_task(),
            r == (if old(self).producer_permits() > 0 { PutOutcome::Done } else { PutOutcome::Blocked }),
            final(self).ended() == (r == PutOutcome::Done),
    {
        self.queue.end()
    }

    pub fn get_producer(&self) -> (p: Pid)
        ensures
            p == self.producer_task(),
    {
        self.producer
    }

    pub fn get_consumer(&self) -> (p: Pid)
        ensures
            p == self.consumer_task(),
    {
        self.consumer
    }

    pub fn set_producer(&mut self, producer: Pid)
        ensures
            final(self).producer_task() == producer,
            final(self).consumer_task() == old(self).consumer_task(),
            final(self).contents() == old(self).contents(),
            final(self).capacity() == old(self).capacity(),
            final(self).ended() == old(self).ended(),
            final(self).producer_permits() == old(self).producer_permits(),
            final(self).wf() == old(self).wf(),
    {
        self.producer = producer;
    }

    pub fn set_consumer(&mut self, consumer: Pid)
        ensures
            final(self).consumer_task() == consumer,
            final(self).producer_task() == old(self).producer_task(),
            final(self).contents() == old(self).contents(),
            final(self).capacity() == old(self).capacity(),
            final(self).ended() == old(self).ended(),
            final(self).producer_permits() == old(self).producer_permits(),
            final(self).wf() == old(self).wf(),
    {
        self.consumer = consumer;
    }
}

/// Number of pipes the system can hold at once.
pub const PIPE_LIST_SIZE: usize = 10;

/// Every pipe of the system; a slot is `None` while free.
pub struct PipeList {
    pipes: Vec<Option<PipeContainer<u8>>>,
}

impl PipeList {
    pub closed spec fn view(&self) -> Seq<Option<PipeContainer<u8>>> {
        self.pipes@
    }

    /// A list of `PIPE_LIST_SIZE` free slots.
    pub fn new() -> (l: Self)
        ensures
            l.view().len() == PIPE_LIST_SIZE,
            forall|i: int| 0 <= i < PIPE_LIST_SIZE ==> #[trigger] l.view()[i] is None,
    {
        let mut pipes: Vec<Option<PipeContainer<u8>>> = Vec::new();
        let mut i: usize = 0;
        while i < PIPE_LIST_SIZE
            invariant
                i <= PIPE_LIST_SIZE,
                pipes@.len() == i,
                forall|k: int| 0 <= k < i ==> #[trigger] pipes@[k] is None,
            decreases PIPE_LIST_SIZE - i,
        {
            pipes.push(None);
            i = i + 1;
        }
        PipeList { pipes }
    }
}

impl PipeList {
    /// Takes the pipe out of slot `idx`, leaving the slot free.
    pub fn take_pipe(&mut self, idx: usize) -> (p: Option<PipeContainer<u8>>)
        requires
            idx < old(self).view().len(),
        ensures
            p == old(self).view()[idx as int],
            final(self).view() == old(self).view().update(idx as int, None),
    {
        let p = self.pipes[idx].take();
        p
    }

    /// Puts `p` into slot `idx`.
    pub fn put_pipe(&mut self, idx: usize, p: Option<PipeContainer<u8>>)
        requires
            idx < old(self).view().len(),
        ensures
            final(self).view() == old(self).view().update(idx as int, p),
    {
        self.pipes.set(idx, p);
    }
}

/// The slots of the pipe list.
pub fn get_pipe_list(list: &PipeList) -> (v: &Vec<Option<PipeContainer<u8>>>)
    ensures
        v@ == list.view(),
{
    &list.pipes
}

/// The slot `idx` of the pipe list.
pub fn get_pipe(list: &PipeList, idx: usize) -> (p: &Option<PipeContainer<u8>>)
    requires
        idx < list.view().len(),
    ensures
        *p == list.view()[idx as int],
{
    &list.pipes[idx]
}

/// Frees slot `idx`, dropping the pipe it held.
pub fn free_pipe(list: &mut PipeList, idx: usize)
    requires
        idx < old(list).view().len(),
    ensures
        final(list).view() == old(list).view().update(idx as int, None),
{
    list.pipes.set(idx, None);
}

/// Puts a new pipe over `blocking_queue`, created by `task`, into the first
/// free slot and returns the slot's index; `None` when every slot is taken.
pub fn install_pipe(list: &mut PipeList, blocking_queue: ArrayBlockingQueue<u8>, task: Pid) -> (r: Option<usize>)
    requires
        blocking_queue.wf(),
    ensures
        match r {
            Some(i) => {
                &&& 0 <= i < old(list).view().len()
                &&& old(list).view()[i as int] is None
                &&& forall|k: int| 0 <= k < i ==> #[trigger] old(list).view()[k] is Some
                &&& final(list).view().len() == old(list).view().len()
                &&& forall|k: int| 0 <= k < final(list).view().len() && k != i ==> #[trigger] final(list).view()[k] == old(list).view()[k]
                &&& final(list).view()[i as int] matches Some(p) && p.wf() && p.contents() == blocking_queue.view()
                    && p.capacity() == blocking_queue.capacity() && p.ended() == blocking_queue.ended()
                    && p.producer_permits() == blocking_queue.producer_permits()
                    && p.producer_task() == task && p.consumer_task() == task
            },
            None => (forall|k: int| 0 <= k < old(list).view().len() ==> #[trigger] old(list).view()[k] is Some)
                && final(list).view() == old(list).view(),
        },
{
    let mut idx: usize = 0;
    while idx < list.pipes.len()
        invariant
            idx <= list.pipes@.len(),
            list.pipes@ == old(list).pipes@,
            blocking_queue.wf(),
            forall|k: int| 0 <= k < idx ==> #[trigger] list.pipes@[k] is Some,
        decreases list.pipes@.len() - idx,
    {
        if list.pipes[idx].is_none() {
            list.pipes.set(idx, Some(PipeContainer::new(blocking_queue, task)));
            return Some(idx);
        }
        idx = idx + 1;
    }
    None
}

/// The pipe slot that descriptor `fd` of `fd_table` refers to, when it refers to a pipe.
pub fn get_pipe_by_fd(fd_table: &FileDescriptorTable, list: &PipeList, fd: FileDescriptor) -> (r: Option<usize>)
    requires
        fd_table.wf(),
    ensures
        r == (if fd.value < fd_table.view().len() {
            match fd_table.view()[fd.value as int] {
                Some(d) => if d.fd_type == FileDescriptorType::Pipe && d.global_idx < list.view().len()
                    && list.view()[d.global_idx as int] is Some {
                    Some(d.global_idx)
                } else {
                    None
                },
                None => None,
            }
        } else {
            None
        }),
{
    let task_file_descriptor = fd_table.get_task_file_descriptor(fd);
    match task_file_descriptor {
        None => None,
        Some(d) => {
            if d.get_fd_type() != FileDescriptorType::Pipe {
                return None;
            }
            let global_idx = d.get_global_idx();
            if global_idx < list.pipes.len() && list.pipes[global_idx].is_some() {
                Some(global_idx)
            } else {
                None
            }
        },
    }
}

/// When descriptor `fd` refers to a pipe, frees the descriptor and the pipe;
/// otherwise changes nothing.
pub fn release_pipe(fd_table: &mut FileDescriptorTable, list: &mut PipeList, fd: FileDescriptor)
    requires
        old(fd_table).wf(),
    ensures
        final(fd_table).wf(),
        final(fd_table).first_user_slot() == old(fd_table).first_user_slot(),
        match (if fd.value < old(fd_table).view().len() { old(fd_table).view()[fd.value as int] } else { None }) {
            Some(d) => if d.fd_type == FileDescriptorType::Pipe {
                &&& final(fd_table).view() == old(fd_table).view().update(fd.value as int, None)
                &&& final(list).view() == (if d.global_idx < old(list).view().len() {
                    old(list).view().update(d.global_idx as int, None)
                } else {
                    old(list).view()
                })
            } else {
                final(fd_table).view() == old(fd_table).view() && final(list).view() == old(list).view()
            },
            None => final(fd_table).view() == old(fd_table).view() && final(list).view() == old(list).view(),
        },
{
    let task_file_descriptor = fd_table.get_task_file_descriptor(fd);
    match task_file_descriptor {
        None => {},
        Some(d) => {
            if d.get_fd_type() != FileDescriptorType::Pipe {
                return;
            }
            fd_table.set_task_file_descriptor(fd, None);
            let global_idx = d.get_global_idx();
            if global_idx < list.pipes.len() {
                free_pipe(list, global_idx);
            }
        },
    }
}

} // verus!
