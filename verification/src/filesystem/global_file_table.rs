use vstd::prelude::*;

use crate::filesystem::constant::MAX_OPENED_FILE_IN_SYSTEM;
use crate::filesystem::file_descriptor::{FileDescriptor, FileDescriptorTable, MAX_FILES_PER_PROC};

verus! {

/// A file opened in the system: its inode and the offset that reads and
/// writes start from.
#[derive(Debug, Clone, Copy, PartialEq, Eq, Structural)]
pub struct OpenedFile {
    pub i_no: u32,
    pub file_off: u32,
}

impl OpenedFile {
    /// A file over inode `i_no` of `size` bytes; appending starts at its end.
    pub fn new(i_no: u32, size: u32, append: bool) -> (f: Self)
        ensures
            f.i_no == i_no,
            f.file_off == (if append { size } else { 0 }),
    {
        OpenedFile { i_no, file_off: if append { size } else { 0 } }
    }

    pub fn set_file_off(&mut self, off: u32)
        ensures
            final(self).i_no == old(self).i_no,
            final(self).file_off == off,
    {
        self.file_off = off;
    }
}

/// The files opened in the whole system, `MAX_OPENED_FILE_IN_SYSTEM` slots.
pub struct FileTable {
    table: Vec<Option<OpenedFile>>,
}

impl FileTable {
    pub closed spec fn view(&self) -> Seq<Option<OpenedFile>> {
        self.table@
    }

    pub open spec fn wf(&self) -> bool {
        self.view().len() == MAX_OPENED_FILE_IN_SYSTEM
    }

    /// A table with every slot free.
    pub fn empty() -> (t: Self)
        ensures
            t.wf(),
            forall|i: int| 0 <= i < MAX_OPENED_FILE_IN_SYSTEM ==> #[trigger] t.view()[i] is None,
    {
        let mut table: Vec<Option<OpenedFile>> = Vec::new();
        let mut i: usize = 0;
        while i < MAX_OPENED_FILE_IN_SYSTEM
            invariant
                i <= MAX_OPENED_FILE_IN_SYSTEM,
                table@.len() == i,
                forall|k: int| 0 <= k < i ==> #[trigger] table@[k] is None,
            decreases MAX_OPENED_FILE_IN_SYSTEM - i,
        {
            table.push(None);
            i = i + 1;
        }
        FileTable { table }
    }

    /// The first free slot.
    fn get_free_index(&self) -> (r: Option<usize>)
        ensures
            match r {
                Some(i) => i < self.view().len() && self.view()[i as int] is None && forall|k: int|
                    0 <= k < i ==> #[trigger] self.view()[k] is Some,
                None => forall|k: int| 0 <= k < self.view().len() ==> #[trigger] self.view()[k] is Some,
            },
    {
        let mut i: usize = 0;
        while i < self.table.len()
            invariant
                i <= self.table@.len(),
                forall|k: int| 0 <= k < i ==> #[trigger] self.table@[k] is Some,
            decreases self.table@.len() - i,
        {
            if self.table[i].is_none() {
                return Some(i);
            }
            i = i + 1;
        }
        None
    }

    /// Puts `file` in the first free slot and gives that slot's index;
    /// `None` when every slot is taken.
    pub fn register_file(&mut self, file: OpenedFile) -> (r: Option<usize>)
        ensures
            match r {
                Some(i) => i < old(self).view().len() && old(self).view()[i as int] is None && (forall|k: int|
                    0 <= k < i ==> #[trigger] old(self).view()[k] is Some) && final(self).view()
                    == old(self).view().update(i as int, Some(file)),
                None => (forall|k: int| 0 <= k < old(self).view().len() ==> #[trigger] old(self).view()[k] is Some)
                    && final(self).view() == old(self).view(),
            },
    {
        let idx = self.get_free_index();
        match idx {
            Some(i) => {
                self.table.set(i, Some(file));
                Some(i)
            },
            None => None,
        }
    }

    /// Frees slot `idx`.
    pub fn release_file(&mut self, idx: usize)
        requires
            idx < old(self).view().len(),
        ensures
            final(self).view() == old(self).view().update(idx as int, None),
    {
        self.table.set(idx, None);
    }

    /// The file in slot `idx`.
    pub fn get_opened_file(&self, idx: usize) -> (r: Option<OpenedFile>)
        ensures
            r == (if idx < self.view().len() { self.view()[idx as int] } else { None }),
    {
        if idx < self.table.len() {
            self.table[idx]
        } else {
            None
        }
    }

    /// Stores `file` in slot `idx`.
    pub fn set_opened_file(&mut self, idx: usize, file: OpenedFile)
        requires
            idx < old(self).view().len(),
        ensures
            final(self).view() == old(self).view().update(idx as int, Some(file)),
    {
        self.table.set(idx, Some(file));
    }
}

/// Where a lookup of a descriptor in the file table ends.
#[derive(Debug, Clone, Copy, PartialEq, Eq, Structural)]
pub enum FileLookupError {
    /// The task has no such descriptor.
    FileDescriptorNotFound,
    /// The descriptor's slot of the file table is free.
    GlobalFileStructureNotFound,
}

/// The slot of the file table that descriptor `fd` of a task refers to, and
/// the file there.
pub open spec fn file_by_fd(table: FileTable, fd_table: FileDescriptorTable, fd: FileDescriptor) -> Result<
    (usize, OpenedFile),
    FileLookupError,
> {
    if fd.value >= fd_table.view().len() {
        Err(FileLookupError::FileDescriptorNotFound)
    } else {
        match fd_table.view()[fd.value as int] {
            None => Err(FileLookupError::FileDescriptorNotFound),
            Some(d) => if d.global_idx < table.view().len() {
                match table.view()[d.global_idx as int] {
                    Some(f) => Ok((d.global_idx, f)),
                    None => Err(FileLookupError::GlobalFileStructureNotFound),
                }
            } else {
                Err(FileLookupError::GlobalFileStructureNotFound)
            },
        }
    }
}

/// Looks up descriptor `fd` of a task in the file table.
pub fn get_file_by_fd(table: &FileTable, fd_table: &FileDescriptorTable, fd: FileDescriptor) -> (r: Result<
    (usize, OpenedFile),
    FileLookupError,
>)
    requires
        fd_table.wf(),
    ensures
        r == file_by_fd(*table, *fd_table, fd),
{
    proof {
        fd_table.lemma_len();
    }
    if fd.value >= MAX_FILES_PER_PROC {
        return Err(FileLookupError::FileDescriptorNotFound);
    }
    let idx = fd_table.get_global_idx(fd);
    match idx {
        None => Err(FileLookupError::FileDescriptorNotFound),
        Some(i) => match table.get_opened_file(i) {
            Some(f) => Ok((i, f)),
            None => Err(FileLookupError::GlobalFileStructureNotFound),
        },
    }
}

} // verus!
