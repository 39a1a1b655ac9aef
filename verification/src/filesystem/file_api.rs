use vstd::prelude::*;
use vstd::string::StringSliceAdditionalSpecFns;

use crate::filesystem::constant::{DISK_SECTOR_SIZE, INODE_BLOCK_SLOTS, MAX_FILE_PER_FS};
use crate::filesystem::file::{FileError, create_file, create_file_plan, create_split, installs, open_file, read_file, write_file};
use crate::filesystem::dir_entry::FileType;
use crate::filesystem::file_descriptor::{FileDescriptor, FileDescriptorTable};
use crate::filesystem::fs::{FileSystem, read_count, write_blocks_needed, written};
use crate::filesystem::global_file_table::{FileLookupError, FileTable, OpenedFile, file_by_fd, get_file_by_fd};

verus! {

/// How a file is to be opened: for writing, appending, reading.
#[derive(Debug, Clone, Copy, PartialEq, Eq, Structural)]
pub struct OpenOptions {
    pub write: bool,
    pub append: bool,
    pub read: bool,
}

impl OpenOptions {
    /// No access asked for.
    pub fn new() -> (o: Self)
        ensures
            o == (OpenOptions { write: false, append: false, read: false }),
    {
        OpenOptions { write: false, append: false, read: false }
    }

    /// Sets appending, and gives the options as they now are.
    pub fn append(&mut self, append: bool) -> (o: Self)
        ensures
            *final(self) == (OpenOptions { append, ..*old(self) }),
            o == *final(self),
    {
        self.append = append;
        *self
    }

    /// Sets writing, and gives the options as they now are.
    pub fn write(&mut self, write: bool) -> (o: Self)
        ensures
            *final(self) == (OpenOptions { write, ..*old(self) }),
            o == *final(self),
    {
        self.write = write;
        *self
    }

    /// Sets reading, and gives the options as they now are.
    pub fn read(&mut self, read: bool) -> (o: Self)
        ensures
            *final(self) == (OpenOptions { read, ..*old(self) }),
            o == *final(self),
    {
        self.read = read;
        *self
    }

    /// Opens the file at `path` with these options (see `open_file`).
    pub fn open(
        &self,
        fs: &FileSystem,
        table: &mut FileTable,
        fd_table: &mut FileDescriptorTable,
        path: &str,
    ) -> (r: Result<File, FileError>)
        requires
            fs.wf(),
            old(fd_table).wf(),
        ensures
            final(fd_table).wf(),
            match r {
                Ok(f) => f.write == self.write && f.read == self.read && f.path@ == path.spec_bytes(),
                Err(_) => true,
            },
            opens_as(fs, *old(table), *final(table), *old(fd_table), *final(fd_table), path, self.append, fd_of(r)),
    {
        let fd = match open_file(fs, table, fd_table, path, self.append) {
            Ok(fd) => fd,
            Err(e) => {
                return Err(e);
            },
        };
        Ok(File::new(fd, path, self.write, self.read))
    }
}

/// The descriptor of an opened file, or the refusal.
pub open spec fn fd_of(r: Result<File, FileError>) -> Result<FileDescriptor, FileError> {
    match r {
        Ok(f) => Ok(f.fd),
        Err(e) => Err(e),
    }
}

/// What `open_file` does to the tables and gives, for `path` and `append`.
pub open spec fn opens_as(
    fs: &FileSystem,
    t0: FileTable,
    t1: FileTable,
    d0: FileDescriptorTable,
    d1: FileDescriptorTable,
    path: &str,
    append: bool,
    r: Result<FileDescriptor, FileError>,
) -> bool {
    let b = path.spec_bytes();
    if b.len() == 0 || b[0] != crate::filesystem::file_util::SLASH {
        r == Err::<FileDescriptor, FileError>(FileError::FilePathIllegal) && t1.view() == t0.view() && d1.view()
            == d0.view()
    } else {
        match fs.path_target(b) {
            None => r == Err::<FileDescriptor, FileError>(FileError::NotFound) && t1.view() == t0.view() && d1.view()
                == d0.view(),
            Some((t, i)) => if t == crate::filesystem::dir_entry::FileType::Directory {
                r == Err::<FileDescriptor, FileError>(FileError::IsADirectory) && t1.view() == t0.view()
                    && d1.view() == d0.view()
            } else {
                installs(
                    t0.view(),
                    t1.view(),
                    d0.view(),
                    d1.view(),
                    OpenedFile { i_no: i, file_off: if append { fs.node(i as int).i_size } else { 0 } },
                    r,
                )
            },
        }
    }
}

/// Where a file operation starts from.
#[derive(Debug, Clone, Copy, PartialEq, Eq, Structural)]
pub enum SeekFrom {
    /// This many bytes from the start of the file.
    Start(u32),
}

/// An opened file: its descriptor, the path it was opened by, and what it
/// was opened for.
#[derive(Debug)]
pub struct File {
    pub fd: FileDescriptor,
    pub path: Vec<u8>,
    pub write: bool,
    pub read: bool,
}

impl File {
    fn new(fd: FileDescriptor, path: &str, write: bool, read: bool) -> (f: Self)
        ensures
            f.fd == fd,
            f.path@ == path.spec_bytes(),
            f.write == write,
            f.read == read,
    {
        let b = path.as_bytes();
        let p = vstd::slice::slice_to_vec(b);
        File { fd, path: p, write, read }
    }

    /// Opens the file at `path` for reading, at offset 0.
    pub fn open(fs: &FileSystem, table: &mut FileTable, fd_table: &mut FileDescriptorTable, path: &str) -> (r:
        Result<Self, FileError>)
        requires
            fs.wf(),
            old(fd_table).wf(),
        ensures
            final(fd_table).wf(),
            match r {
                Ok(f) => !f.write && f.read && f.path@ == path.spec_bytes(),
                Err(_) => true,
            },
            opens_as(fs, *old(table), *final(table), *old(fd_table), *final(fd_table), path, false, fd_of(r)),
    {
        let fd = match open_file(fs, table, fd_table, path, false) {
            Ok(fd) => fd,
            Err(e) => {
                return Err(e);
            },
        };
        Ok(File::new(fd, path, false, true))
    }

    /// Creates the file at `path` (see `create_file`) and opens it for writing.
    pub fn create(fs: &mut FileSystem, table: &mut FileTable, fd_table: &mut FileDescriptorTable, path: &str) -> (r:
        Result<Self, FileError>)
        requires
            old(fs).wf(),
            old(fd_table).wf(),
            create_file_plan(*old(fs), path.spec_bytes()) matches Ok(d) ==> old(fs).room_for_entry(d as int, 0),
        ensures
            final(fs).wf(),
            final(fd_table).wf(),
            r matches Ok(f) ==> f.write && !f.read && f.path@ == path.spec_bytes(),
            match create_file_plan(*old(fs), path.spec_bytes()) {
                Err(e) => r is Err && fd_of(r) == Err::<FileDescriptor, FileError>(e) && *final(fs) == *old(fs)
                    && final(table).view() == old(table).view() && final(fd_table).view() == old(fd_table).view(),
                Ok(d) => exists|i: u32|
                    {
                        &&& final(fs).has(i as int)
                        &&& !old(fs).has(i as int)
                        &&& final(fs).node(i as int).is_fresh(i)
                        &&& final(fs).node(d as int).lookup(create_split(path.spec_bytes()).1) matches Some(e)
                            && e.i_no == i && e.file_type == FileType::Regular
                        &&& final(fs).path_target(path.spec_bytes()) == Some((FileType::Regular, i))
                        &&& forall|q: Seq<u8>|
                            old(fs).path_target(q) is Some ==> #[trigger] final(fs).path_target(q)
                                == old(fs).path_target(q)
                        &&& forall|x: Seq<u8>|
                            x != create_split(path.spec_bytes()).1 ==> #[trigger] final(fs).node(d as int).lookup(x)
                                == old(fs).node(d as int).lookup(x)
                        &&& forall|j: int|
                            0 <= j < MAX_FILE_PER_FS && j != d && j != i ==> #[trigger] final(fs).inodes@[j]
                                == old(fs).inodes@[j]
                        &&& installs(
                            old(table).view(),
                            final(table).view(),
                            old(fd_table).view(),
                            final(fd_table).view(),
                            OpenedFile { i_no: i, file_off: 0 },
                            fd_of(r),
                        )
                    },
            },
    {
        let fd = match create_file(fs, table, fd_table, path) {
            Ok(fd) => fd,
            Err(e) => {
                return Err(e);
            },
        };
        Ok(File::new(fd, path, true, false))
    }

    /// The slot of the file table this file's descriptor refers to, and the
    /// file there.
    fn get_opened_file(&self, table: &FileTable, fd_table: &FileDescriptorTable) -> (r: Result<
        (usize, OpenedFile),
        FileError,
    >)
        requires
            fd_table.wf(),
        ensures
            match file_by_fd(*table, *fd_table, self.fd) {
                Ok(p) => r == Ok::<(usize, OpenedFile), FileError>(p),
                Err(FileLookupError::FileDescriptorNotFound) => r == Err::<(usize, OpenedFile), FileError>(
                    FileError::FileDescriptorNotFound,
                ),
                Err(FileLookupError::GlobalFileStructureNotFound) => r == Err::<(usize, OpenedFile), FileError>(
                    FileError::GlobalFileStructureNotFound,
                ),
            },
            r matches Ok((idx, f)) ==> idx < table.view().len() && table.view()[idx as int] == Some(f),
    {
        match get_file_by_fd(table, fd_table, self.fd) {
            Ok(p) => Ok(p),
            Err(FileLookupError::FileDescriptorNotFound) => Err(FileError::FileDescriptorNotFound),
            Err(FileLookupError::GlobalFileStructureNotFound) => Err(FileError::GlobalFileStructureNotFound),
        }
    }

    /// Moves the offset of the opened file to `from`.
    pub fn seek(&mut self, table: &mut FileTable, fd_table: &FileDescriptorTable, from: SeekFrom) -> (r: Result<
        (),
        FileError,
    >)
        requires
            fd_table.wf(),
        ensures
            *final(self) == *old(self),
            match file_by_fd(*old(table), *fd_table, old(self).fd) {
                Ok((idx, f)) => r is Ok && final(table).view() == old(table).view().update(
                    idx as int,
                    Some(OpenedFile { i_no: f.i_no, file_off: match from { SeekFrom::Start(o) => o } }),
                ),
                Err(FileLookupError::FileDescriptorNotFound) => r == Err::<(), FileError>(FileError::FileDescriptorNotFound)
                    && final(table).view() == old(table).view(),
                Err(FileLookupError::GlobalFileStructureNotFound) => r == Err::<(), FileError>(
                    FileError::GlobalFileStructureNotFound,
                ) && final(table).view() == old(table).view(),
            },
    {
        let (idx, mut f) = match get_file_by_fd(table, fd_table, self.fd) {
            Ok(p) => p,
            Err(FileLookupError::FileDescriptorNotFound) => {
                return Err(FileError::FileDescriptorNotFound);
            },
            Err(FileLookupError::GlobalFileStructureNotFound) => {
                return Err(FileError::GlobalFileStructureNotFound);
            },
        };
        let off = match from {
            SeekFrom::Start(o) => o,
        };
        f.set_file_off(off);
        table.set_opened_file(idx, f);
        Ok(())
    }

    /// Reads from the opened file at its offset into `buff` (see `read_file`).
    pub fn read(&self, fs: &FileSystem, table: &FileTable, fd_table: &FileDescriptorTable, buff: &mut [u8]) -> (r:
        Result<usize, FileError>)
        requires
            fs.wf(),
            fd_table.wf(),
        ensures
            final(buff)@.len() == old(buff)@.len(),
            !self.read ==> r == Err::<usize, FileError>(FileError::PermissionDenied) && final(buff)@ == old(buff)@,
            self.read ==> match file_by_fd(*table, *fd_table, self.fd) {
                Ok((_, f)) => if fs.has(f.i_no as int) {
                    r matches Ok(n) && n == read_count(fs.node(f.i_no as int).i_size as int, f.file_off as int, old(buff)@.len() as int)
                        && (forall|t: int| 0 <= t < n ==> #[trigger] final(buff)@[t] == fs.node(f.i_no as int).content()[f.file_off + t])
                        && (forall|t: int| n <= t < old(buff)@.len() ==> #[trigger] final(buff)@[t] == old(buff)@[t])
                } else {
                    r == Err::<usize, FileError>(FileError::GlobalFileStructureNotFound) && final(buff)@ == old(buff)@
                },
                Err(FileLookupError::FileDescriptorNotFound) => r == Err::<usize, FileError>(FileError::FileDescriptorNotFound)
                    && final(buff)@ == old(buff)@,
                Err(FileLookupError::GlobalFileStructureNotFound) => r == Err::<usize, FileError>(
                    FileError::GlobalFileStructureNotFound,
                ) && final(buff)@ == old(buff)@,
            },
    {
        if !self.read {
            return Err(FileError::PermissionDenied);
        }
        let (_, f) = match self.get_opened_file(table, fd_table) {
            Ok(p) => p,
            Err(e) => {
                return Err(e);
            },
        };
        if f.i_no >= MAX_FILE_PER_FS || fs.inodes[f.i_no as usize].is_none() {
            return Err(FileError::GlobalFileStructureNotFound);
        }
        read_file(fs, &f, buff)
    }

    /// Writes `buff` into the opened file at its offset, which moves past what
    /// was written (see `write_file`).
    pub fn write(&mut self, fs: &mut FileSystem, table: &mut FileTable, fd_table: &FileDescriptorTable, buff: &[u8]) -> (r:
        Result<usize, FileError>)
        requires
            old(fs).wf(),
            fd_table.wf(),
            old(self).write ==> match file_by_fd(*old(table), *fd_table, old(self).fd) {
                Ok((_, f)) => old(fs).has(f.i_no as int) ==> f.file_off + buff@.len() <= INODE_BLOCK_SLOTS
                    * DISK_SECTOR_SIZE && old(fs).free_blocks() >= write_blocks_needed(
                    old(fs).node(f.i_no as int),
                    f.file_off as int,
                    buff@.len() as int,
                ),
                Err(_) => true,
            },
        ensures
            *final(self) == *old(self),
            final(fs).wf(),
            !old(self).write ==> r == Err::<usize, FileError>(FileError::PermissionDenied) && *final(fs) == *old(fs)
                && final(table).view() == old(table).view(),
            old(self).write ==> match file_by_fd(*old(table), *fd_table, old(self).fd) {
                Ok((idx, f)) => if old(fs).has(f.i_no as int) {
                    &&& r == Ok::<usize, FileError>(buff@.len() as usize)
                    &&& final(fs).node(f.i_no as int).content() == written(old(fs).node(f.i_no as int).content(), f.file_off as int, buff@)
                    &&& final(table).view() == old(table).view().update(
                        idx as int,
                        Some(OpenedFile { i_no: f.i_no, file_off: (f.file_off + buff@.len()) as u32 }),
                    )
                    &&& forall|i: int| 0 <= i < MAX_FILE_PER_FS && i != f.i_no ==> #[trigger] final(fs).inodes@[i] == old(fs).inodes@[i]
                    &&& forall|q: Seq<u8>| #[trigger] final(fs).path_target(q) == old(fs).path_target(q)
                } else {
                    r == Err::<usize, FileError>(FileError::GlobalFileStructureNotFound) && *final(fs) == *old(fs)
                        && final(table).view() == old(table).view()
                },
                Err(FileLookupError::FileDescriptorNotFound) => r == Err::<usize, FileError>(FileError::FileDescriptorNotFound)
                    && *final(fs) == *old(fs) && final(table).view() == old(table).view(),
                Err(FileLookupError::GlobalFileStructureNotFound) => r == Err::<usize, FileError>(
                    FileError::GlobalFileStructureNotFound,
                ) && *final(fs) == *old(fs) && final(table).view() == old(table).view(),
            },
    {
        if !self.write {
            return Err(FileError::PermissionDenied);
        }
        let (idx, mut f) = match self.get_opened_file(table, fd_table) {
            Ok(p) => p,
            Err(e) => {
                return Err(e);
            },
        };
        if f.i_no >= MAX_FILE_PER_FS || fs.inodes[f.i_no as usize].is_none() {
            return Err(FileError::GlobalFileStructureNotFound);
        }
        let r = write_file(fs, &mut f, buff);
        table.set_opened_file(idx, f);
        r
    }

    /// Closes the file: frees its descriptor and its slot of the file table.
    pub fn close(&self, table: &mut FileTable, fd_table: &mut FileDescriptorTable) -> (r: Result<(), FileError>)
        requires
            old(fd_table).wf(),
        ensures
            final(fd_table).wf(),
            match file_by_fd(*old(table), *old(fd_table), self.fd) {
                Ok((idx, _)) => r is Ok && final(table).view() == old(table).view().update(idx as int, None)
                    && final(fd_table).view() == old(fd_table).view().update(self.fd.value as int, None),
                Err(FileLookupError::FileDescriptorNotFound) => r == Err::<(), FileError>(FileError::FileDescriptorNotFound)
                    && final(table).view() == old(table).view() && final(fd_table).view() == old(fd_table).view(),
                Err(FileLookupError::GlobalFileStructureNotFound) => r == Err::<(), FileError>(
                    FileError::GlobalFileStructureNotFound,
                ) && final(table).view() == old(table).view() && final(fd_table).view() == old(fd_table).view().update(
                    self.fd.value as int,
                    None,
                ),
            },
    {
        let (idx, _) = match get_file_by_fd(table, fd_table, self.fd) {
            Ok(p) => p,
            Err(FileLookupError::FileDescriptorNotFound) => {
                return Err(FileError::FileDescriptorNotFound);
            },
            Err(FileLookupError::GlobalFileStructureNotFound) => {
                fd_table.release_fd(self.fd);
                return Err(FileError::GlobalFileStructureNotFound);
            },
        };
        fd_table.release_fd(self.fd);
        table.release_file(idx);
        Ok(())
    }

    /// The path the file was opened by.
    pub fn get_path(&self) -> (p: &[u8])
        ensures
            p@ == self.path@,
    {
        self.path.as_slice()
    }
}

} // verus!
