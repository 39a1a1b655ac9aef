use vstd::prelude::*;

verus! {

/// Number of descriptor slots in a task's descriptor table.
pub const MAX_FILES_PER_PROC: usize = 8;

/// The standard descriptors every task starts with.
#[derive(Debug, Clone, Copy, PartialEq, Eq, Structural)]
pub enum StdFileDescriptor {
    /// Standard input, descriptor 0.
    StdInputNo,
    /// Standard output, descriptor 1.
    StdOutputNo,
    /// Standard error, descriptor 2.
    StdErrorNo,
}

impl StdFileDescriptor {
    pub open spec fn spec_value(&self) -> usize {
        match self {
            StdFileDescriptor::StdInputNo => 0,
            StdFileDescriptor::StdOutputNo => 1,
            StdFileDescriptor::StdErrorNo => 2,
        }
    }

    /// The descriptor number.
    pub fn value(&self) -> (v: usize)
        ensures
            v == self.spec_value(),
    {
        match self {
            StdFileDescriptor::StdInputNo => 0,
            StdFileDescriptor::StdOutputNo => 1,
            StdFileDescriptor::StdErrorNo => 2,
        }
    }
}

/// What a descriptor refers to.
#[derive(Debug, Clone, Copy, PartialEq, Eq, Structural)]
pub enum FileDescriptorType {
    File,
    Pipe,
}

/// A descriptor as a task sees it: a slot in its descriptor table.
#[derive(Debug, Clone, Copy, PartialEq, Eq, Structural)]
pub struct FileDescriptor {
    pub value: usize,
    pub fd_type: FileDescriptorType,
}

impl FileDescriptor {
    /// A descriptor of a regular file.
    pub fn new_fd(value: usize) -> (fd: Self)
        ensures
            fd.value == value,
            fd.fd_type == FileDescriptorType::File,
    {
        Self { value, fd_type: FileDescriptorType::File }
    }

    pub fn new(value: usize, fd_type: FileDescriptorType) -> (fd: Self)
        ensures
            fd.value == value,
            fd.fd_type == fd_type,
    {
        Self { value, fd_type }
    }

    pub fn get_value(&self) -> (v: usize)
        ensures
            v == self.value,
    {
        self.value
    }

    pub fn get_type(&self) -> (t: FileDescriptorType)
        ensures
            t == self.fd_type,
    {
        self.fd_type
    }
}

/// What a slot of a task's descriptor table holds: an index into a
/// system-wide table (open files or pipes) and which table it is.
#[derive(Debug, Clone, Copy, PartialEq, Eq, Structural)]
pub struct TaskFileDescriptor {
    pub global_idx: usize,
    pub fd_type: FileDescriptorType,
}

impl TaskFileDescriptor {
    pub fn new(global_idx: usize, fd_type: FileDescriptorType) -> (d: Self)
        ensures
            d.global_idx == global_idx,
            d.fd_type == fd_type,
    {
        TaskFileDescriptor { global_idx, fd_type }
    }

    pub fn get_global_idx(&self) -> (i: usize)
        ensures
            i == self.global_idx,
    {
        self.global_idx
    }

    pub fn get_fd_type(&self) -> (t: FileDescriptorType)
        ensures
            t == self.fd_type,
    {
        self.fd_type
    }
}

/// The first slot that holds nothing.
pub open spec fn first_free_slot(s: Seq<Option<TaskFileDescriptor>>, i: int) -> bool {
    &&& 0 <= i < s.len()
    &&& s[i] is None
    &&& forall|k: int| 0 <= k < i ==> #[trigger] s[k] is Some
}

/// A task's descriptor table. Slots 0, 1 and 2 start out holding the
/// standard input, output and error.
pub struct FileDescriptorTable {
    data: Vec<Option<TaskFileDescriptor>>,
    start_idx: usize,
}

impl FileDescriptorTable {
    pub closed spec fn view(&self) -> Seq<Option<TaskFileDescriptor>> {
        self.data@
    }

    /// Index of the first slot that is not a standard descriptor.
    pub closed spec fn first_user_slot(&self) -> nat {
        self.start_idx as nat
    }

    pub closed spec fn wf(&self) -> bool {
        &&& self.data@.len() == MAX_FILES_PER_PROC
        &&& self.start_idx <= self.data@.len()
    }

    /// A well-formed table has `MAX_FILES_PER_PROC` slots.
    pub proof fn lemma_len(&self)
        requires
            self.wf(),
        ensures
            self.view().len() == MAX_FILES_PER_PROC,
    {
    }

    /// A table whose three standard slots refer to the standard files and
    /// whose other slots are free.
    pub fn new() -> (t: Self)
        ensures
            t.wf(),
            t.first_user_slot() == 3,
            t.view().len() == MAX_FILES_PER_PROC,
            forall|i: int| 0 <= i < 3 ==> #[trigger] t.view()[i] == Some(
                TaskFileDescriptor { global_idx: i as usize, fd_type: FileDescriptorType::File },
            ),
            forall|i: int| 3 <= i < MAX_FILES_PER_PROC ==> #[trigger] t.view()[i] is None,
    {
        let mut data: Vec<Option<TaskFileDescriptor>> = Vec::new();
        let mut i: usize = 0;
        while i < MAX_FILES_PER_PROC
            invariant
                i <= MAX_FILES_PER_PROC,
                data@.len() == i,
                forall|k: int| 0 <= k < i && k < 3 ==> #[trigger] data@[k] == Some(
                    TaskFileDescriptor { global_idx: k as usize, fd_type: FileDescriptorType::File },
                ),
                forall|k: int| 3 <= k < i ==> #[trigger] data@[k] is None,
            decreases MAX_FILES_PER_PROC - i,
        {
            if i < 3 {
                data.push(Some(TaskFileDescriptor::new(i, FileDescriptorType::File)));
            } else {
                data.push(None);
            }
            i = i + 1;
        }
        let mut count: usize = 0;
        let mut j: usize = 0;
        while j < data.len()
            invariant
                j <= data@.len(),
                data@.len() == MAX_FILES_PER_PROC,
                count == (if j < 3 { j } else { 3 }),
                forall|k: int| 0 <= k < MAX_FILES_PER_PROC && k < 3 ==> #[trigger] data@[k] is Some,
                forall|k: int| 3 <= k < MAX_FILES_PER_PROC ==> #[trigger] data@[k] is None,
            decreases data@.len() - j,
        {
            if data[j].is_some() {
                count = count + 1;
            }
            j = j + 1;
        }
        FileDescriptorTable { data, start_idx: count }
    }

    /// The slots after the standard ones.
    pub fn get_file_descriptors(&self) -> (s: &[Option<TaskFileDescriptor>])
        requires
            self.wf(),
        ensures
            s@ == self.view().subrange(self.first_user_slot() as int, self.view().len() as int),
    {
        let s = vstd::slice::slice_subrange(self.data.as_slice(), self.start_idx, self.data.len());
        s
    }

    /// The index of the first free slot, if any.
    pub fn get_free_slot(&self) -> (r: Option<usize>)
        ensures
            match r {
                Some(i) => first_free_slot(self.view(), i as int),
                None => forall|k: int| 0 <= k < self.view().len() ==> #[trigger] self.view()[k] is Some,
            },
    {
        let mut idx: usize = 0;
        while idx < self.data.len()
            invariant
                idx <= self.data@.len(),
                forall|k: int| 0 <= k < idx ==> #[trigger] self.data@[k] is Some,
            decreases self.data@.len() - idx,
        {
            if self.data[idx].is_none() {
                return Some(idx);
            }
            idx = idx + 1;
        }
        None
    }

    /// Puts `global_idx` into the first free slot and returns the descriptor
    /// of that slot; `None`, changing nothing, when every slot is taken.
    pub fn install_fd(&mut self, global_idx: usize, fd_type: FileDescriptorType) -> (r: Option<FileDescriptor>)
        requires
            old(self).wf(),
        ensures
            final(self).wf(),
            final(self).first_user_slot() == old(self).first_user_slot(),
            match r {
                Some(fd) => first_free_slot(old(self).view(), fd.value as int)
                    && fd.fd_type == fd_type
                    && final(self).view() == old(self).view().update(
                        fd.value as int,
                        Some(TaskFileDescriptor { global_idx, fd_type }),
                    ),
                None => (forall|k: int| 0 <= k < old(self).view().len() ==> #[trigger] old(self).view()[k] is Some)
                    && final(self).view() == old(self).view(),
            },
    {
        let slot = self.get_free_slot();
        match slot {
            None => None,
            Some(idx) => {
                self.data.set(idx, Some(TaskFileDescriptor::new(global_idx, fd_type)));
                Some(FileDescriptor::new(idx, fd_type))
            },
        }
    }

    /// The slot `fd` names.
    pub fn get_task_file_descriptor(&self, fd: FileDescriptor) -> (r: Option<TaskFileDescriptor>)
        requires
            self.wf(),
        ensures
            r == (if fd.value < self.view().len() { self.view()[fd.value as int] } else { None }),
    {
        if fd.value < self.data.len() {
            self.data[fd.value]
        } else {
            None
        }
    }

    /// Overwrites the slot `fd` names.
    pub fn set_task_file_descriptor(&mut self, fd: FileDescriptor, value: Option<TaskFileDescriptor>)
        requires
            old(self).wf(),
            fd.value < old(self).view().len(),
        ensures
            final(self).wf(),
            final(self).first_user_slot() == old(self).first_user_slot(),
            final(self).view() == old(self).view().update(fd.value as int, value),
    {
        self.data.set(fd.value, value);
    }

    /// The system-wide index that slot `fd` refers to.
    pub fn get_global_idx(&self, fd: FileDescriptor) -> (r: Option<usize>)
        requires
            self.wf(),
            fd.value < self.view().len(),
        ensures
            r == (match self.view()[fd.value as int] {
                Some(d) => Some(d.global_idx),
                None => None::<usize>,
            }),
    {
        match self.data[fd.value] {
            Some(d) => Some(d.global_idx),
            None => None,
        }
    }

    /// Frees slot `fd` and returns the system-wide index it referred to.
    pub fn release_fd(&mut self, fd: FileDescriptor) -> (r: Option<usize>)
        requires
            old(self).wf(),
            fd.value < old(self).view().len(),
        ensures
            final(self).wf(),
            final(self).first_user_slot() == old(self).first_user_slot(),
            r == (match old(self).view()[fd.value as int] {
                Some(d) => Some(d.global_idx),
                None => None::<usize>,
            }),
            final(self).view() == old(self).view().update(fd.value as int, None),
    {
        let global_idx = self.get_global_idx(fd);
        self.data.set(fd.value, None);
        global_idx
    }

    /// Makes slot `to` refer to what slot `from` refers to.
    pub fn redirect_file_descriptor(&mut self, to: FileDescriptor, from: FileDescriptor)
        requires
            old(self).wf(),
            to.value < old(self).view().len(),
            from.value < old(self).view().len(),
        ensures
            final(self).wf(),
            final(self).first_user_slot() == old(self).first_user_slot(),
            final(self).view() == old(self).view().update(to.value as int, old(self).view()[from.value as int]),
    {
        let v = self.data[from.value];
        self.data.set(to.value, v);
    }
}

/// A descriptor just installed refers to the index it was installed with,
/// and releasing it frees the slot again and hands that index back.
pub proof fn lemma_install_then_release(
    table: Seq<Option<TaskFileDescriptor>>,
    slot: int,
    global_idx: usize,
    fd_type: FileDescriptorType,
)
    requires
        first_free_slot(table, slot),
    ensures
        table.update(slot, Some(TaskFileDescriptor { global_idx, fd_type }))[slot] == Some(
            TaskFileDescriptor { global_idx, fd_type },
        ),
        table.update(slot, Some(TaskFileDescriptor { global_idx, fd_type })).update(slot, None) == table,
{
    assert(table.update(slot, Some(TaskFileDescriptor { global_idx, fd_type })).update(slot, None) =~= table);
}

} // verus!
