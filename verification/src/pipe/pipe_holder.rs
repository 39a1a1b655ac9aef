use vstd::prelude::*;

use crate::filesystem::file_descriptor::{FileDescriptor, FileDescriptorTable, FileDescriptorType};
use crate::pipe::pipe_container::{PipeList, PipeTransfer, get_pipe_by_fd};

verus! {

/// Why a pipe operation failed.
#[derive(Clone, Copy, Debug, PartialEq, Eq, Structural)]
pub enum PipeError {
    /// Every pipe slot of the system is taken.
    PipeExhaust,
    /// Every descriptor slot of the task is taken.
    FileDescriptorExhaust,
    /// The descriptor does not refer to a pipe.
    PipeNotExist,
}

/// The slot a descriptor names, when it names a live pipe.
pub open spec fn pipe_slot(table: Seq<Option<crate::filesystem::file_descriptor::TaskFileDescriptor>>, pipes: Seq<Option<crate::pipe::pipe_container::PipeContainer<u8>>>, fd: FileDescriptor) -> Option<usize> {
    if fd.value < table.len() {
        match table[fd.value as int] {
            Some(d) => if d.fd_type == FileDescriptorType::Pipe && d.global_idx < pipes.len() && pipes[d.global_idx as int] is Some {
                Some(d.global_idx)
            } else {
                None
            },
            None => None,
        }
    } else {
        None
    }
}

/// The reading end of a pipe, held by a task as a descriptor.
#[derive(Clone, Copy, Debug, PartialEq, Eq, Structural)]
pub struct PipeReader {
    pub fd: FileDescriptor,
}

impl PipeReader {
    pub fn new(fd: FileDescriptor) -> (r: Self)
        ensures
            r.fd == fd,
    {
        Self { fd }
    }

    /// Reads from the pipe the descriptor refers to (see `PipeContainer::read`).
    pub fn read(&mut self, fd_table: &FileDescriptorTable, list: &mut PipeList, buff: &mut [u8]) -> (r: Result<PipeTransfer, PipeError>)
        requires
            fd_table.wf(),
            forall|i: int| #![trigger old(list).view()[i]] 0 <= i < old(list).view().len() && old(list).view()[i] is Some ==> {
                let p = old(list).view()[i]->0;
                p.wf() && p.producer_permits() + old(buff)@.len() < u32::MAX
            },
        ensures
            *final(self) == *old(self),
            final(list).view().len() == old(list).view().len(),
            match pipe_slot(fd_table.view(), old(list).view(), old(self).fd) {
                None => r == Err::<PipeTransfer, PipeError>(PipeError::PipeNotExist) && final(list).view() == old(list).view()
                    && final(buff)@ == old(buff)@,
                Some(i) => r is Ok && {
                    let t = r->Ok_0;
                    let p0 = old(list).view()[i as int]->0;
                    let p1 = final(list).view()[i as int]->0;
                    &&& final(list).view()[i as int] is Some
                    &&& forall|k: int| 0 <= k < old(list).view().len() && k != i ==> #[trigger] final(list).view()[k] == old(list).view()[k]
                    &&& t.count == (if old(buff)@.len() <= p0.contents().len() { old(buff)@.len() } else { p0.contents().len() })
                    &&& t.blocked == (!p0.ended() && t.count < old(buff)@.len())
                    &&& final(buff)@.len() == old(buff)@.len()
                    &&& final(buff)@.subrange(0, t.count as int) == p0.contents().subrange(0, t.count as int)
                    &&& final(buff)@.subrange(t.count as int, final(buff)@.len() as int) == old(buff)@.subrange(t.count as int, old(buff)@.len() as int)
                    &&& p1.contents() == p0.contents().skip(t.count as int)
                    &&& p1.ended() == p0.ended()
                    &&& p1.wf()
                },
            },
    {
        let slot = get_pipe_by_fd(fd_table, list, self.fd);
        match slot {
            None => Err(PipeError::PipeNotExist),
            Some(i) => {
                let p = list.take_pipe(i);
                let mut pipe = match p {
                    Some(pipe) => pipe,
                    None => { return Err(PipeError::PipeNotExist); },
                };
                proof {
                    assert(old(list).view()[i as int] is Some);
                }
                let t = pipe.read(buff);
                list.put_pipe(i, Some(pipe));
                Ok(t)
            },
        }
    }

    pub fn get_fd(&self) -> (fd: FileDescriptor)
        ensures
            fd == self.fd,
    {
        self.fd
    }
}

/// The writing end of a pipe, held by a task as a descriptor.
#[derive(Clone, Copy, Debug, PartialEq, Eq, Structural)]
pub struct PipeWriter {
    pub fd: FileDescriptor,
}

impl PipeWriter {
    pub fn new(fd: FileDescriptor) -> (w: Self)
        ensures
            w.fd == fd,
    {
        Self { fd }
    }

    /// Writes into the pipe the descriptor refers to (see `PipeContainer::write`).
    pub fn write(&mut self, fd_table: &FileDescriptorTable, list: &mut PipeList, buff: &[u8]) -> (r: Result<PipeTransfer, PipeError>)
        requires
            fd_table.wf(),
            forall|i: int| #![trigger old(list).view()[i]] 0 <= i < old(list).view().len() && old(list).view()[i] is Some ==> {
                let p = old(list).view()[i]->0;
                p.wf() && !p.ended()
            },
        ensures
            *final(self) == *old(self),
            final(list).view().len() == old(list).view().len(),
            match pipe_slot(fd_table.view(), old(list).view(), old(self).fd) {
                None => r == Err::<PipeTransfer, PipeError>(PipeError::PipeNotExist) && final(list).view() == old(list).view(),
                Some(i) => r is Ok && {
                    let t = r->Ok_0;
                    let p0 = old(list).view()[i as int]->0;
                    let p1 = final(list).view()[i as int]->0;
                    &&& final(list).view()[i as int] is Some
                    &&& forall|k: int| 0 <= k < old(list).view().len() && k != i ==> #[trigger] final(list).view()[k] == old(list).view()[k]
                    &&& t.count == (if buff@.len() + p0.contents().len() <= p0.capacity() { buff@.len() as int } else { p0.capacity() - p0.contents().len() })
                    &&& t.blocked == (t.count < buff@.len())
                    &&& p1.contents() == p0.contents() + buff@.subrange(0, t.count as int)
                    &&& !p1.ended()
                    &&& p1.wf()
                },
            },
    {
        let slot = get_pipe_by_fd(fd_table, list, self.fd);
        match slot {
            None => Err(PipeError::PipeNotExist),
            Some(i) => {
                let p = list.take_pipe(i);
                let mut pipe = match p {
                    Some(pipe) => pipe,
                    None => { return Err(PipeError::PipeNotExist); },
                };
                proof {
                    assert(old(list).view()[i as int] is Some);
                }
                let t = pipe.write(buff);
                list.put_pipe(i, Some(pipe));
                Ok(t)
            },
        }
    }

    pub fn get_fd(&self) -> (fd: FileDescriptor)
        ensures
            fd == self.fd,
    {
        self.fd
    }
}

} // verus!
