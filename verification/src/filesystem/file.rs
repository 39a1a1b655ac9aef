use vstd::prelude::*;
use vstd::string::StringSliceAdditionalSpecFns;

use crate::filesystem::constant::{DIR_ENTRY_SIZE, DISK_SECTOR_SIZE, INODE_BLOCK_SLOTS, MAX_FILE_NAME, MAX_FILE_PER_FS};
use crate::filesystem::dir_entry::{FileType, valid_name};
use crate::filesystem::file_descriptor::{
    FileDescriptor, FileDescriptorTable, FileDescriptorType, TaskFileDescriptor, first_free_slot,
};
use crate::filesystem::dir_api::lemma_walk_after_new_entry;
use crate::filesystem::file_util::{
    SLASH, last_slash, lemma_last_slash, lemma_pieces_push, lemma_pieces_trailing, path_pieces, rfind_slash, spec_split_path,
    split_file_path,
};
use crate::filesystem::fs::{DIR_SLOTS, FileSystem, lemma_lookup_after_grow, read_count, write_blocks_needed, written};
use crate::filesystem::global_file_table::{FileTable, OpenedFile};

verus! {

/// Why a file operation was refused.
#[derive(Debug, Clone, Copy, PartialEq, Eq, Structural)]
pub enum FileError {
    /// The path is not absolute, or its name does not fit an entry.
    FilePathIllegal,
    /// An entry of that name exists already.
    AlreadyExists,
    /// The parent directory does not exist.
    ParentDirNotExists,
    /// Nothing exists at that path.
    NotFound,
    /// The operation is not possible.
    Uncategorized,
    /// The path names a directory.
    IsADirectory,
    /// The task has no free descriptor.
    FileExceedTask,
    /// The system has no free slot for an opened file.
    FileExceedSystem,
    /// The file was not opened for this.
    PermissionDenied,
    /// The task has no such descriptor.
    FileDescriptorNotFound,
    /// The descriptor refers to a free slot of the file table.
    GlobalFileStructureNotFound,
}

/// What registering the file `f` and installing a descriptor for it does:
/// `Err(FileExceedSystem)` with the tables unchanged when the file table is
/// full; `Err(FileExceedTask)` when the task has no free descriptor (the file
/// stays registered); else the descriptor of the first free slot, referring
/// to the first free slot of the file table.
pub open spec fn installs(
    t0: Seq<Option<OpenedFile>>,
    t1: Seq<Option<OpenedFile>>,
    d0: Seq<Option<TaskFileDescriptor>>,
    d1: Seq<Option<TaskFileDescriptor>>,
    f: OpenedFile,
    r: Result<FileDescriptor, FileError>,
) -> bool {
    if forall|k: int| 0 <= k < t0.len() ==> #[trigger] t0[k] is Some {
        r == Err::<FileDescriptor, FileError>(FileError::FileExceedSystem) && t1 == t0 && d1 == d0
    } else {
        exists|g: int|
            {
                &&& 0 <= g < t0.len()
                &&& t0[g] is None
                &&& (forall|k: int| 0 <= k < g ==> #[trigger] t0[k] is Some)
                &&& t1 == t0.update(g, Some(f))
                &&& if forall|k: int| 0 <= k < d0.len() ==> #[trigger] d0[k] is Some {
                    r == Err::<FileDescriptor, FileError>(FileError::FileExceedTask) && d1 == d0
                } else {
                    r matches Ok(fd) && first_free_slot(d0, fd.value as int) && fd.fd_type == FileDescriptorType::File
                        && d1 == d0.update(
                        fd.value as int,
                        Some(TaskFileDescriptor { global_idx: g as usize, fd_type: FileDescriptorType::File }),
                    )
                }
            }
    }
}

/// Registers `f` in the file table and installs a descriptor for it.
fn install_file(table: &mut FileTable, fd_table: &mut FileDescriptorTable, f: OpenedFile) -> (r: Result<
    FileDescriptor,
    FileError,
>)
    requires
        old(fd_table).wf(),
    ensures
        final(fd_table).wf(),
        final(fd_table).first_user_slot() == old(fd_table).first_user_slot(),
        installs(old(table).view(), final(table).view(), old(fd_table).view(), final(fd_table).view(), f, r),
{
    let g = table.register_file(f);
    match g {
        None => Err(FileError::FileExceedSystem),
        Some(g) => {
            let fd = fd_table.install_fd(g, FileDescriptorType::File);
            match fd {
                None => Err(FileError::FileExceedTask),
                Some(fd) => Ok(fd),
            }
        },
    }
}

/// Opens the file at `path`: its descriptor, over a new entry of the file
/// table at offset 0, or at the file's end to append.
pub fn open_file(
    fs: &FileSystem,
    table: &mut FileTable,
    fd_table: &mut FileDescriptorTable,
    path: &str,
    append: bool,
) -> (r: Result<FileDescriptor, FileError>)
    requires
        fs.wf(),
        old(fd_table).wf(),
    ensures
        final(fd_table).wf(),
        final(fd_table).first_user_slot() == old(fd_table).first_user_slot(),
        ({
            let b = path.spec_bytes();
            if b.len() == 0 || b[0] != SLASH {
                r == Err::<FileDescriptor, FileError>(FileError::FilePathIllegal) && final(table).view() == old(
                    table,
                ).view() && final(fd_table).view() == old(fd_table).view()
            } else {
                match fs.path_target(b) {
                    None => r == Err::<FileDescriptor, FileError>(FileError::NotFound) && final(table).view()
                        == old(table).view() && final(fd_table).view() == old(fd_table).view(),
                    Some((t, i)) => if t == FileType::Directory {
                        r == Err::<FileDescriptor, FileError>(FileError::IsADirectory) && final(table).view()
                            == old(table).view() && final(fd_table).view() == old(fd_table).view()
                    } else {
                        installs(
                            old(table).view(),
                            final(table).view(),
                            old(fd_table).view(),
                            final(fd_table).view(),
                            OpenedFile { i_no: i, file_off: if append { fs.node(i as int).i_size } else { 0 } },
                            r,
                        )
                    },
                }
            }
        }),
{
    let b = path.as_bytes();
    if b.len() == 0 || b[0] != SLASH {
        return Err(FileError::FilePathIllegal);
    }
    let searched = fs.search_dir_entry(path);
    match searched {
        None => Err(FileError::NotFound),
        Some((e, i)) => {
            if e.file_type == FileType::Directory {
                return Err(FileError::IsADirectory);
            }
            let size = match &fs.inodes[i as usize] {
                Some(n) => n.i_size,
                None => {
                    proof {
                        assert(false);
                    }
                    0
                },
            };
            let f = OpenedFile::new(i, size, append);
            install_file(table, fd_table, f)
        },
    }
}

/// The parent directory and the name of the file that a path to create
/// names: split at the last `/`; the parent of a top-level name is `/`.
pub open spec fn create_split(b: Seq<u8>) -> (Seq<u8>, Seq<u8>) {
    let k = last_slash(b);
    (if k == 0 {
        seq![SLASH]
    } else {
        b.subrange(0, k)
    }, b.subrange(k + 1, b.len() as int))
}

/// How creating a file at the path with bytes `b` goes up to the creation
/// itself: the refusal, or the directory that receives the entry.
pub open spec fn create_file_plan(fs: FileSystem, b: Seq<u8>) -> Result<u32, FileError> {
    if b.len() == 0 || b[0] != SLASH {
        Err(FileError::FilePathIllegal)
    } else if last_slash(b) == b.len() - 1 {
        Err(FileError::IsADirectory)
    } else {
        match fs.path_target(create_split(b).0) {
            None => Err(FileError::ParentDirNotExists),
            Some((_, d)) => if fs.node(d as int).lookup(create_split(b).1) is Some {
                Err(FileError::AlreadyExists)
            } else if !valid_name(create_split(b).1) {
                Err(FileError::FilePathIllegal)
            } else {
                Ok(d)
            },
        }
    }
}

/// The names of a path to create are those of its parent, then its own
/// name, which is not empty.
pub proof fn lemma_create_split_pieces(b: Seq<u8>)
    requires
        b.len() > 0,
        b[0] == SLASH,
        last_slash(b) != b.len() - 1,
    ensures
        create_split(b).1.len() > 0,
        path_pieces(b) == path_pieces(create_split(b).0).push(create_split(b).1),
        create_split(b).0.len() > 0,
{
    lemma_last_slash(b);
    let k = last_slash(b);
    let name = create_split(b).1;
    assert forall|j: int| 0 <= j < name.len() implies #[trigger] name[j] != SLASH by {
        assert(name[j] == b[k + 1 + j]);
    }
    lemma_pieces_push(b.subrange(0, k), SLASH, seq![], name);
    assert(b.subrange(0, k) + seq![SLASH] + name =~= b);
    if k == 0 {
        assert(b.subrange(0, 0) =~= Seq::<u8>::empty());
        lemma_pieces_trailing(Seq::<u8>::empty(), SLASH, seq![]);
        assert(Seq::<u8>::empty().push(SLASH) =~= seq![SLASH]);
    }
}

/// Carries out the checks of `create_file` without creating anything: the
/// refusal, or the directory that would receive the entry.
pub fn plan_create_file(fs: &FileSystem, path: &str) -> (r: Result<u32, FileError>)
    requires
        fs.wf(),
    ensures
        r == create_file_plan(*fs, path.spec_bytes()),
        r matches Ok(d) ==> fs.has(d as int),
{
    let b = path.as_bytes();
    if b.len() == 0 || b[0] != SLASH {
        return Err(FileError::FilePathIllegal);
    }
    proof {
        lemma_last_slash(b@);
        assert(b@.subrange(0, b@.len() as int) =~= b@);
    }
    let k = match rfind_slash(b, b.len()) {
        Some(k) => k,
        None => {
            return Err(FileError::FilePathIllegal);
        },
    };
    if k == b.len() - 1 {
        return Err(FileError::IsADirectory);
    }
    let name = vstd::slice::slice_subrange(b, k + 1, b.len());
    let root: [u8; 1] = [SLASH];
    let dir_b: &[u8] = if k == 0 {
        &root
    } else {
        vstd::slice::slice_subrange(b, 0, k)
    };
    proof {
        lemma_last_slash(b@);
        if k == 0 {
            assert(dir_b@ =~= seq![SLASH]);
        }
        assert(dir_b@ == create_split(b@).0);
        assert(name@ == create_split(b@).1);
    }
    let d = match fs.search_path(dir_b) {
        None => {
            return Err(FileError::ParentDirNotExists);
        },
        Some((_, d)) => d,
    };
    let exists_already = match &fs.inodes[d as usize] {
        Some(n) => n.lookup_entry(name).is_some(),
        None => {
            proof {
                assert(false);
            }
            false
        },
    };
    if exists_already {
        return Err(FileError::AlreadyExists);
    }
    if name.len() >= MAX_FILE_NAME || !no_zero_byte(name) {
        return Err(FileError::FilePathIllegal);
    }
    Ok(d)
}

/// Creates a regular file at `path` (its entry placed as `create_dir_entry`
/// places it) and opens it at offset 0.
pub fn create_file(
    fs: &mut FileSystem,
    table: &mut FileTable,
    fd_table: &mut FileDescriptorTable,
    path: &str,
) -> (r: Result<FileDescriptor, FileError>)
    requires
        old(fs).wf(),
        old(fd_table).wf(),
        create_file_plan(*old(fs), path.spec_bytes()) matches Ok(d) ==> old(fs).room_for_entry(d as int, 0),
    ensures
        final(fs).wf(),
        final(fd_table).wf(),
        final(fd_table).first_user_slot() == old(fd_table).first_user_slot(),
        match create_file_plan(*old(fs), path.spec_bytes()) {
            Err(e) => r == Err::<FileDescriptor, FileError>(e) && *final(fs) == *old(fs) && final(table).view()
                == old(table).view() && final(fd_table).view() == old(fd_table).view(),
            Ok(d) => exists|i: u32|
                {
                    &&& final(fs).has(i as int)
                    &&& !old(fs).has(i as int)
                    &&& final(fs).node(i as int).is_fresh(i)
                    &&& final(fs).node(d as int).lookup(create_split(path.spec_bytes()).1) matches Some(e)
                        && e.i_no == i && e.file_type == FileType::Regular
                    &&& final(fs).path_target(path.spec_bytes()) == Some((FileType::Regular, i))
                    &&& forall|q: Seq<u8>|
                        old(fs).path_target(q) is Some ==> #[trigger] final(fs).path_target(q) == old(fs).path_target(q)
                    &&& forall|x: Seq<u8>|
                        x != create_split(path.spec_bytes()).1 ==> #[trigger] final(fs).node(d as int).lookup(x)
                            == old(fs).node(d as int).lookup(x)
                    &&& forall|j: int|
                        0 <= j < MAX_FILE_PER_FS && j != d && j != i ==> #[trigger] final(fs).inodes@[j]
                            == old(fs).inodes@[j]
                    &&& installs(
                        old(table).view(),
                        final(table).view(),
                        old(fd_table).view(),
                        final(fd_table).view(),
                        OpenedFile { i_no: i, file_off: 0 },
                        r,
                    )
                },
        },
{
    let d = match plan_create_file(fs, path) {
        Err(e) => {
            return Err(e);
        },
        Ok(d) => d,
    };
    let b = path.as_bytes();
    proof {
        lemma_last_slash(b@);
        assert(b@.subrange(0, b@.len() as int) =~= b@);
    }
    let k = match rfind_slash(b, b.len()) {
        Some(k) => k,
        None => {
            return Err(FileError::FilePathIllegal);
        },
    };
    let name = vstd::slice::slice_subrange(b, k + 1, b.len());
    proof {
        assert(name@ == create_split(b@).1);
    }
    let i = fs.create_dir_entry(d, name, FileType::Regular);
    proof {
        lemma_create_split_pieces(b@);
        let ps = path_pieces(create_split(b@).0);
        lemma_walk_after_new_entry(*old(fs), *fs, ps, d, name@, i);
        assert(path_pieces(b@) == ps.push(name@));
        assert forall|q: Seq<u8>| old(fs).path_target(q) is Some implies #[trigger] fs.path_target(q) == old(fs).path_target(
            q,
        ) by {
            if q.len() > 0 && path_pieces(q).len() > 0 {
                assert(old(fs).walk(0, path_pieces(q)) is Some);
            }
        }
        let n = fs.node(d as int);
        let o = old(fs).node(d as int);
        let s = old(fs).next_slot(d as int);
        assert(n.slots@[s].name_view() == name@);
        assert(!o.has_named(name@));
        assert(n.first_named(name@, s)) by {
            assert forall|t: int| 0 <= t < s implies !(#[trigger] n.slot_live(t) && n.slots@[t].name_view() == name@) by {
                assert(n.slots@[t] == o.slots@[t]);
                if n.slot_live(t) && n.slots@[t].name_view() == name@ {
                    if !o.slot_live(t) {
                        assert(o.slots@[t].is_blank());
                        assert(o.slots@[t].name_view() == seq![0u8; 0]);
                    }
                }
            }
        }
        let c = choose|x: int| n.first_named(name@, x);
        assert(n.first_named(name@, c));
        assert(c == s);
    }
    let f = OpenedFile::new(i, 0, false);
    install_file(table, fd_table, f)
}

/// Writes `buff` into `file` at its offset, which then moves past what was
/// written; the file grows to cover it. Gives the number of bytes written.
pub fn write_file(fs: &mut FileSystem, file: &mut OpenedFile, buff: &[u8]) -> (r: Result<usize, FileError>)
    requires
        old(fs).wf(),
        old(fs).has(old(file).i_no as int),
        old(file).file_off + buff@.len() <= INODE_BLOCK_SLOTS * DISK_SECTOR_SIZE,
        old(fs).free_blocks() >= write_blocks_needed(
            old(fs).node(old(file).i_no as int),
            old(file).file_off as int,
            buff@.len() as int,
        ),
    ensures
        r == Ok::<usize, FileError>(buff@.len() as usize),
        final(file).i_no == old(file).i_no,
        final(file).file_off == old(file).file_off + buff@.len(),
        final(fs).wf(),
        final(fs).has(old(file).i_no as int),
        final(fs).node(old(file).i_no as int).content() == written(
            old(fs).node(old(file).i_no as int).content(),
            old(file).file_off as int,
            buff@,
        ),
        final(fs).free_blocks() + write_blocks_needed(
            old(fs).node(old(file).i_no as int),
            old(file).file_off as int,
            buff@.len() as int,
        ) == old(fs).free_blocks(),
        forall|i: int| 0 <= i < old(fs).inodes@.len() && i != old(file).i_no ==> #[trigger] final(fs).inodes@[i] == old(fs).inodes@[i],
        forall|q: Seq<u8>| #[trigger] final(fs).path_target(q) == old(fs).path_target(q),
{
    fs.write_at(file.i_no, file.file_off, buff);
    proof {
        let ino = file.i_no as int;
        let o = old(fs).node(ino);
        let n = fs.node(ino);
        assert forall|t: int| 0 <= t < DIR_SLOTS && #[trigger] o.slot_live(t) implies n.slot_live(t) by {
            assert(0 <= t / 18 < INODE_BLOCK_SLOTS);
            assert(n.blocks@[t / 18] != 0);
        }
        assert forall|j: int| #[trigger] fs.has(j) == old(fs).has(j) by {
            if 0 <= j < MAX_FILE_PER_FS && j != ino {
                assert(fs.inodes@[j] == old(fs).inodes@[j]);
            }
        }
        assert forall|j: int, x: Seq<u8>| old(fs).has(j) implies #[trigger] fs.node(j).lookup(x) == old(fs).node(j).lookup(
            x,
        ) by {
            if j == ino {
                lemma_lookup_after_grow(o, n, x);
            } else {
                assert(fs.inodes@[j] == old(fs).inodes@[j]);
            }
        }
        assert forall|q: Seq<u8>| #[trigger] fs.path_target(q) == old(fs).path_target(q) by {
            old(fs).lemma_walk_same_lookups(*fs, 0, path_pieces(q));
        }
    }
    file.file_off = file.file_off + buff.len() as u32;
    Ok(buff.len())
}

/// Reads from `file` at its offset into `buff`, up to the end of the file;
/// gives the number of bytes read. The offset does not move.
pub fn read_file(fs: &FileSystem, file: &OpenedFile, buff: &mut [u8]) -> (r: Result<usize, FileError>)
    requires
        fs.wf(),
        fs.has(file.i_no as int),
    ensures
        r matches Ok(n) && n == read_count(fs.node(file.i_no as int).i_size as int, file.file_off as int, old(buff)@.len() as int)
            && (forall|t: int| 0 <= t < n ==> #[trigger] final(buff)@[t] == fs.node(file.i_no as int).content()[file.file_off + t])
            && (forall|t: int| n <= t < old(buff)@.len() ==> #[trigger] final(buff)@[t] == old(buff)@[t]),
        final(buff)@.len() == old(buff)@.len(),
{
    let n = fs.read_at(file.i_no, file.file_off, buff);
    Ok(n)
}

/// How removing the file at the path with bytes `b` goes: the refusal, or
/// its directory, the slot there that names it, and its inode.
pub open spec fn remove_file_plan(fs: FileSystem, b: Seq<u8>) -> Result<(u32, int, u32), FileError> {
    match spec_split_path(b) {
        None => Err(FileError::FilePathIllegal),
        Some((dir, name)) => match fs.path_target(dir) {
            None => Err(FileError::ParentDirNotExists),
            Some((_, d)) => match fs.node(d as int).lookup(name) {
                None => Err(FileError::NotFound),
                Some(e) => if e.file_type == FileType::Directory {
                    Err(FileError::IsADirectory)
                } else if e.i_no == 0 || e.i_no == d || !fs.has(e.i_no as int) {
                    Err(FileError::NotFound)
                } else {
                    Ok((d, choose|s: int| fs.node(d as int).first_named(name, s), e.i_no))
                },
            },
        },
    }
}

/// Removes the file at `path`: its entry leaves its directory and its inode
/// and blocks are freed.
pub fn remove_file(fs: &mut FileSystem, path: &str) -> (r: Result<(), FileError>)
    requires
        old(fs).wf(),
        remove_file_plan(*old(fs), path.spec_bytes()) matches Ok((d, _, _)) ==> old(fs).node(d as int).i_size
            >= DIR_ENTRY_SIZE,
    ensures
        final(fs).wf(),
        match remove_file_plan(*old(fs), path.spec_bytes()) {
            Err(e) => r == Err::<(), FileError>(e) && *final(fs) == *old(fs),
            Ok((d, s, i)) => {
                &&& r is Ok
                &&& !final(fs).has(i as int)
                &&& final(fs).has(d as int)
                &&& final(fs).node(d as int).slots@[s].is_blank()
                &&& final(fs).node(d as int).lookup((spec_split_path(path.spec_bytes())->0).1) is None
                &&& forall|t: int| 0 <= t < DIR_SLOTS && t != s ==> #[trigger] final(fs).node(d as int).slots@[t] == old(
                    fs,
                ).node(d as int).slots@[t]
                &&& final(fs).node(d as int).i_size == old(fs).node(d as int).i_size - DIR_ENTRY_SIZE
                &&& final(fs).inode_bitmap@ == old(fs).inode_bitmap@.update(i as int, false)
                &&& forall|j: int| 0 <= j < MAX_FILE_PER_FS && j != i && j != d ==> #[trigger] final(fs).inodes@[j] == old(
                    fs,
                ).inodes@[j]
            },
        },
{
    let (dir, name) = match split_file_path(path) {
        None => {
            return Err(FileError::FilePathIllegal);
        },
        Some(p) => p,
    };
    let nb = name.as_bytes();
    let d = match fs.search_dir_entry(dir) {
        None => {
            return Err(FileError::ParentDirNotExists);
        },
        Some((_, d)) => d,
    };
    let (slot, e) = match &fs.inodes[d as usize] {
        Some(n) => (n.find_named(nb), n.lookup_entry(nb)),
        None => {
            proof {
                assert(false);
            }
            return Err(FileError::NotFound);
        },
    };
    let e = match e {
        None => {
            return Err(FileError::NotFound);
        },
        Some(e) => e,
    };
    if e.file_type == FileType::Directory {
        return Err(FileError::IsADirectory);
    }
    if e.i_no == 0 || e.i_no == d || e.i_no >= MAX_FILE_PER_FS || fs.inodes[e.i_no as usize].is_none() {
        return Err(FileError::NotFound);
    }
    let s = match slot {
        Some(s) => s,
        None => {
            proof {
                assert(false);
            }
            return Err(FileError::NotFound);
        },
    };
    proof {
        let c = choose|x: int| fs.node(d as int).first_named(nb@, x);
        assert(fs.node(d as int).first_named(nb@, c));
        assert(c == s as int);
    }
    let ghost before = *fs;
    fs.remove_slot(d, s);
    proof {
        crate::filesystem::fs::lemma_lookup_after_blank(before.node(d as int), fs.node(d as int), s as int);
    }
    fs.release_inode(e.i_no);
    Ok(())
}

/// No byte of `b` is zero.
fn no_zero_byte(b: &[u8]) -> (r: bool)
    ensures
        r == (forall|i: int| 0 <= i < b@.len() ==> #[trigger] b@[i] != 0),
{
    let mut i: usize = 0;
    while i < b.len()
        invariant
            i <= b@.len(),
            forall|k: int| 0 <= k < i ==> #[trigger] b@[k] != 0,
        decreases b@.len() - i,
    {
        if b[i] == 0 {
            return false;
        }
        i = i + 1;
    }
    true
}

} // verus!
