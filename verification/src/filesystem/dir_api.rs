use vstd::prelude::*;
use vstd::string::StringSliceAdditionalSpecFns;

use crate::filesystem::constant::{DIR_ENTRY_SIZE, MAX_FILE_NAME, MAX_FILE_PER_FS};
use crate::filesystem::dir_entry::{DirEntry, FileType, valid_name};
use crate::filesystem::file_util::{
    SLASH, last_slash, lemma_last_slash, lemma_pieces_push, lemma_pieces_trailing, path_pieces, spec_split_path,
    split_file_path,
};
use crate::filesystem::fs::{DIR_SLOTS, FileSystem, OpenedInode, lemma_lookup_after_add};

verus! {

/// Why a directory operation was refused.
#[derive(Debug, Clone, Copy, PartialEq, Eq, Structural)]
pub enum DirError {
    /// The path is not absolute, is `/`, or its name does not fit an entry.
    DirPathIllegal,
    /// Nothing exists at that path.
    NotFound,
    /// The parent directory does not exist.
    ParentDirNotExists,
    /// An entry of that name exists already.
    AlreadyExists,
    /// The directory holds more than `.` and `..`.
    DirectoryNotEmpty,
}

/// How creating a directory at the path with bytes `b` goes up to the
/// creation itself: the refusal, or the directory that receives the entry.
pub open spec fn create_dir_plan(fs: FileSystem, b: Seq<u8>) -> Result<u32, DirError> {
    if b.len() == 0 || b[0] != SLASH || b =~= seq![SLASH] {
        Err(DirError::DirPathIllegal)
    } else {
        match spec_split_path(b) {
            None => Err(DirError::DirPathIllegal),
            Some((dir, name)) => match fs.path_target(dir) {
                None => Err(DirError::ParentDirNotExists),
                Some((_, d)) => if fs.node(d as int).lookup(name) is Some {
                    Err(DirError::AlreadyExists)
                } else if name.len() == 0 || !valid_name(name) {
                    Err(DirError::DirPathIllegal)
                } else {
                    Ok(d)
                },
            },
        }
    }
}

/// The last name of the path with bytes `b`.
pub open spec fn split_name(b: Seq<u8>) -> Seq<u8> {
    match spec_split_path(b) {
        Some((_, name)) => name,
        None => Seq::empty(),
    }
}

/// A directory `i` made by `mkdir` in `d`: `d` names it `name`, and it holds
/// `..` (naming `d`) and `.` (naming itself).
pub open spec fn made_dir(fs: FileSystem, d: int, i: u32, name: Seq<u8>) -> bool {
    &&& fs.has(i as int)
    &&& fs.node(d).lookup(name) matches Some(e) && e.i_no == i && e.file_type == FileType::Directory
    &&& fs.node(i as int).slots@[0].i_no == d
    &&& fs.node(i as int).slots@[0].name_view() == seq![0x2eu8, 0x2eu8]
    &&& fs.node(i as int).slots@[1].i_no == i
    &&& fs.node(i as int).slots@[1].name_view() == seq![0x2eu8]
    &&& forall|t: int| 2 <= t < DIR_SLOTS ==> (#[trigger] fs.node(i as int).slots@[t]).is_blank()
    &&& fs.node(i as int).i_size == 2 * DIR_ENTRY_SIZE
}

/// The names of a path that splits into `dir` and a non-empty `name` are
/// those of `dir`, then `name`.
pub proof fn lemma_split_path_pieces(b: Seq<u8>)
    requires
        spec_split_path(b) matches Some((_, name)) && name.len() > 0,
    ensures
        path_pieces(b) == path_pieces((spec_split_path(b)->0).0).push((spec_split_path(b)->0).1),
{
    let t = if b.last() == SLASH { b.drop_last() } else { b };
    if b.last() == SLASH {
        lemma_pieces_trailing(t, SLASH, seq![]);
        assert(t.push(SLASH) =~= b);
    }
    lemma_last_slash(t);
    let k = last_slash(t);
    let name = t.subrange(k + 1, t.len() as int);
    assert(k >= 0) by {
        if b.last() == SLASH {
            assert(t[0] == b[0]);
        }
    }
    assert forall|j: int| 0 <= j < name.len() implies #[trigger] name[j] != SLASH by {
        assert(name[j] == t[k + 1 + j]);
    }
    lemma_pieces_push(t.subrange(0, k), SLASH, seq![], name);
    assert(t.subrange(0, k) + seq![SLASH] + name =~= t);
    if k == 0 {
        assert(t.subrange(0, 0) =~= Seq::<u8>::empty());
        lemma_pieces_trailing(Seq::<u8>::empty(), SLASH, seq![]);
        assert(Seq::<u8>::empty().push(SLASH) =~= seq![SLASH]);
        assert(t.subrange(1, t.len() as int) =~= name);
    }
}

/// Creates the directory at `path`; its parent must exist.
pub fn create_dir(fs: &mut FileSystem, path: &str) -> (r: Result<(), DirError>)
    requires
        old(fs).wf(),
        create_dir_plan(*old(fs), path.spec_bytes()) matches Ok(d) ==> old(fs).room_for_entry(d as int, 1),
    ensures
        final(fs).wf(),
        match create_dir_plan(*old(fs), path.spec_bytes()) {
            Err(e) => r == Err::<(), DirError>(e) && *final(fs) == *old(fs),
            Ok(d) => r is Ok && exists|i: u32|
                {
                    &&& !old(fs).has(i as int)
                    &&& made_dir(*final(fs), d as int, i, split_name(path.spec_bytes()))
                    &&& final(fs).path_target(path.spec_bytes()) == Some((FileType::Directory, i))
                    &&& forall|q: Seq<u8>|
                        old(fs).path_target(q) is Some ==> #[trigger] final(fs).path_target(q) == old(fs).path_target(q)
                    &&& forall|x: Seq<u8>|
                        x != split_name(path.spec_bytes()) ==> #[trigger] final(fs).node(d as int).lookup(x)
                            == old(fs).node(d as int).lookup(x)
                    &&& forall|j: int|
                        0 <= j < MAX_FILE_PER_FS && j != d && j != i ==> #[trigger] final(fs).inodes@[j]
                            == old(fs).inodes@[j]
                },
        },
{
    let b = path.as_bytes();
    if b.len() == 0 || b[0] != SLASH {
        return Err(DirError::DirPathIllegal);
    }
    if b.len() == 1 {
        assert(b@ =~= seq![SLASH]);
        return Err(DirError::DirPathIllegal);
    }
    assert(!(b@ =~= seq![SLASH]));
    let (dir, name) = match split_file_path(path) {
        None => {
            return Err(DirError::DirPathIllegal);
        },
        Some(p) => p,
    };
    let nb = name.as_bytes();
    let d = match fs.search_dir_entry(dir) {
        None => {
            return Err(DirError::ParentDirNotExists);
        },
        Some((_, d)) => d,
    };
    let found = match &fs.inodes[d as usize] {
        Some(n) => n.lookup_entry(nb).is_some(),
        None => {
            proof {
                assert(false);
            }
            false
        },
    };
    if found {
        return Err(DirError::AlreadyExists);
    }
    if nb.len() == 0 || nb.len() >= MAX_FILE_NAME || !no_zero(nb) {
        return Err(DirError::DirPathIllegal);
    }
    let ghost o = fs.node(d as int);
    let ghost s = fs.next_slot(d as int);
    let i = fs.mkdir(d, nb);
    proof {
        lemma_lookup_after_add(o, fs.node(d as int), s, nb@);
        assert(!old(fs).has(i as int) && made_dir(*fs, d as int, i, split_name(path.spec_bytes())));
        lemma_split_path_pieces(b@);
        let ps = path_pieces(dir.spec_bytes());
        lemma_walk_after_new_entry(*old(fs), *fs, ps, d, nb@, i);
        assert(path_pieces(b@) == ps.push(nb@));
        assert forall|q: Seq<u8>| old(fs).path_target(q) is Some implies #[trigger] fs.path_target(q) == old(fs).path_target(
            q,
        ) by {
            if q.len() > 0 && path_pieces(q).len() > 0 {
                assert(old(fs).walk(0, path_pieces(q)) is Some);
            }
        }
    }
    Ok(())
}

/// The inode of the parent of directory `i`: what its `..` entry names.
pub open spec fn parent_of(fs: FileSystem, i: int) -> Option<u32> {
    match fs.node(i).lookup(seq![0x2eu8, 0x2eu8]) {
        Some(e) => Some(e.i_no),
        None => None,
    }
}

/// How removing the directory at the path with bytes `b` goes: the
/// refusal, or the directory, its parent and the slot of the parent that
/// names it.
pub open spec fn remove_dir_plan(fs: FileSystem, b: Seq<u8>) -> Result<(u32, u32, int), DirError> {
    if b.len() == 0 || b[0] != SLASH {
        Err(DirError::DirPathIllegal)
    } else {
        match fs.path_target(b) {
            None => Err(DirError::NotFound),
            Some((_, i)) => if fs.node(i as int).i_size > 2 * DIR_ENTRY_SIZE {
                Err(DirError::DirectoryNotEmpty)
            } else if i == 0 {
                Err(DirError::DirPathIllegal)
            } else {
                match parent_of(fs, i as int) {
                    None => Err(DirError::NotFound),
                    Some(p) => if !fs.has(p as int) || p == i {
                        Err(DirError::NotFound)
                    } else if exists|s: int| fs.node(p as int).first_with_ino(i, s) {
                        Ok((i, p, choose|s: int| fs.node(p as int).first_with_ino(i, s)))
                    } else {
                        Err(DirError::NotFound)
                    },
                }
            },
        }
    }
}

/// Removes the directory at `path`, which must hold no more than `.` and
/// `..`: its entry leaves its parent and its inode and blocks are freed.
pub fn remove_dir(fs: &mut FileSystem, path: &str) -> (r: Result<(), DirError>)
    requires
        old(fs).wf(),
        remove_dir_plan(*old(fs), path.spec_bytes()) matches Ok((_, p, _)) ==> old(fs).node(p as int).i_size
            >= DIR_ENTRY_SIZE,
    ensures
        final(fs).wf(),
        match remove_dir_plan(*old(fs), path.spec_bytes()) {
            Err(e) => r == Err::<(), DirError>(e) && *final(fs) == *old(fs),
            Ok((i, p, s)) => {
                &&& r is Ok
                &&& !final(fs).has(i as int)
                &&& final(fs).has(p as int)
                &&& final(fs).node(p as int).slots@[s].is_blank()
                &&& final(fs).node(p as int).lookup(old(fs).node(p as int).slots@[s].name_view()) is None
                &&& forall|t: int| 0 <= t < DIR_SLOTS && t != s ==> #[trigger] final(fs).node(p as int).slots@[t] == old(
                    fs,
                ).node(p as int).slots@[t]
                &&& final(fs).node(p as int).i_size == old(fs).node(p as int).i_size - DIR_ENTRY_SIZE
                &&& final(fs).inode_bitmap@ == old(fs).inode_bitmap@.update(i as int, false)
                &&& forall|j: int| 0 <= j < MAX_FILE_PER_FS && j != i && j != p ==> #[trigger] final(fs).inodes@[j] == old(
                    fs,
                ).inodes@[j]
            },
        },
{
    let b = path.as_bytes();
    if b.len() == 0 || b[0] != SLASH {
        return Err(DirError::DirPathIllegal);
    }
    let i = match fs.search_dir_entry(path) {
        None => {
            return Err(DirError::NotFound);
        },
        Some((_, i)) => i,
    };
    let dotdot: [u8; 2] = [0x2e, 0x2e];
    assert(dotdot@ =~= seq![0x2eu8, 0x2eu8]);
    let (size, up) = match &fs.inodes[i as usize] {
        Some(n) => (n.i_size, n.lookup_entry(&dotdot)),
        None => {
            proof {
                assert(false);
            }
            return Err(DirError::NotFound);
        },
    };
    if size > 2 * DIR_ENTRY_SIZE {
        return Err(DirError::DirectoryNotEmpty);
    }
    if i == 0 {
        return Err(DirError::DirPathIllegal);
    }
    let p = match up {
        None => {
            return Err(DirError::NotFound);
        },
        Some(e) => e.i_no,
    };
    if p >= MAX_FILE_PER_FS || p == i {
        return Err(DirError::NotFound);
    }
    let slot = match &fs.inodes[p as usize] {
        Some(n) => n.find_by_ino(i),
        None => {
            return Err(DirError::NotFound);
        },
    };
    let s = match slot {
        None => {
            return Err(DirError::NotFound);
        },
        Some(s) => s,
    };
    proof {
        let c = choose|x: int| fs.node(p as int).first_with_ino(i, x);
        assert(fs.node(p as int).first_with_ino(i, c));
        assert(c == s as int);
    }
    let ghost before = *fs;
    fs.remove_slot(p, s);
    proof {
        crate::filesystem::fs::lemma_lookup_after_blank(before.node(p as int), fs.node(p as int), s as int);
    }
    fs.release_inode(i);
    Ok(())
}

/// The names `.` and `..`.
pub open spec fn is_dot_name(n: Seq<u8>) -> bool {
    n == seq![0x2eu8] || n == seq![0x2eu8, 0x2eu8]
}

/// Where creating the directories of the names `ps` from directory `d`
/// begins: the directory that lacks the first missing name and how many
/// names are left from there; None when every name exists or one of them
/// names an inode that does not exist.
pub open spec fn first_missing(fs: FileSystem, d: int, ps: Seq<Seq<u8>>) -> Option<(int, nat)>
    decreases ps.len(),
{
    if ps.len() == 0 || !fs.has(d) {
        None
    } else {
        match fs.node(d).lookup(ps[0]) {
            None => Some((d, ps.len())),
            Some(e) => if !fs.has(e.i_no as int) {
                None
            } else {
                first_missing(fs, e.i_no as int, ps.drop_first())
            },
        }
    }
}

/// Enough to create the missing directories of the path with bytes `b`:
/// from the first missing name on, names that fit an entry and are not `.`
/// or `..`, a free inode and three free blocks per name, and room for one
/// more entry in the directory that lacks the first of them.
pub open spec fn room_for_path(fs: FileSystem, b: Seq<u8>) -> bool {
    let ps = crate::filesystem::file_util::path_pieces(b);
    first_missing(fs, 0, ps) matches Some((d, m)) ==> {
        &&& forall|i: int| ps.len() - m <= i < ps.len() ==> valid_name(#[trigger] ps[i]) && !is_dot_name(ps[i])
        &&& crate::bitmap::count_free(fs.inode_bitmap@) >= m
        &&& fs.free_blocks() >= 3 * m
        &&& crate::filesystem::fs::available_slot(fs.node(d)) is Some
        &&& fs.node(d).i_size + DIR_ENTRY_SIZE <= crate::filesystem::constant::INODE_BLOCK_SLOTS
            * crate::filesystem::constant::DISK_SECTOR_SIZE
    }
}

/// A directory as `mkdir` leaves it: `..` and `.` in its first block.
pub open spec fn just_made(n: OpenedInode) -> bool {
    &&& n.slots@[0].name_view() == seq![0x2eu8, 0x2eu8]
    &&& n.slots@[0].file_type == FileType::Directory
    &&& n.slots@[1].name_view() == seq![0x2eu8]
    &&& n.slots@[1].file_type == FileType::Directory
    &&& forall|t: int| 2 <= t < DIR_SLOTS ==> (#[trigger] n.slots@[t]).is_blank()
    &&& n.i_size == 2 * DIR_ENTRY_SIZE
    &&& n.blocks@[0] != 0
    &&& forall|k: int| 1 <= k < crate::filesystem::constant::INODE_BLOCK_SLOTS ==> #[trigger] n.blocks@[k] == 0
    &&& n.indirect_block == 0
}

proof fn lemma_just_made_lookup(n: OpenedInode, name: Seq<u8>)
    requires
        n.wf(),
        just_made(n),
        name.len() > 0,
        !is_dot_name(name),
    ensures
        n.lookup(name) is None,
{
    assert forall|s: int| 0 <= s < DIR_SLOTS && #[trigger] n.slot_live(s) implies n.slots@[s].name_view() != name by {
        if s >= 2 {
            assert(n.slots@[s].is_blank());
            assert(n.slots@[s].name_view() =~= Seq::<u8>::empty()) by {
                assert(n.slots@[s].name@ =~= Seq::new(20, |i: int| 0u8));
                assert(n.slots@[s].name@[0] == 0);
            }
        }
    }
}

proof fn lemma_just_made_slot(n: OpenedInode)
    requires
        n.wf(),
        just_made(n),
    ensures
        crate::filesystem::fs::available_slot(n) == Some(2int),
        crate::filesystem::fs::blocks_needed(n, 2) == 0,
{
    reveal_with_fuel(crate::filesystem::fs::first_unused_block, 2);
    reveal_with_fuel(crate::filesystem::fs::first_empty_entry, 3);
    assert(n.blocks@[1] == 0);
    assert(crate::filesystem::fs::first_unused_block(n.blocks@, 0, 12) == 1);
    assert(!n.slots@[0].spec_is_empty());
    assert(!n.slots@[1].spec_is_empty());
    assert(n.slots@[2].spec_is_empty());
    assert(crate::filesystem::fs::first_empty_entry(n.slots@, 0, 0) == 2);
}

/// A walk along `ps` that ends in `cur` (the empty walk ends in the root)
/// goes on through the entry `i` just added to `cur` under `name`; every
/// walk that succeeded before ends where it did.
pub proof fn lemma_walk_after_new_entry(before: FileSystem, after: FileSystem, ps: Seq<Seq<u8>>, cur: u32, name: Seq<u8>, i: u32)
    requires
        before.wf(),
        after.wf(),
        before.has(cur as int),
        name.len() > 0,
        before.node(cur as int).lookup(name) is None,
        ps.len() == 0 ==> cur == 0,
        ps.len() > 0 ==> (before.walk(0, ps) matches Some((_, c)) && c == cur),
        crate::filesystem::fs::available_slot(before.node(cur as int)) is Some,
        crate::bitmap::first_free_run(before.inode_bitmap@, i as int, 1),
        after.has(cur as int),
        after.has(i as int),
        ({
            let s = before.next_slot(cur as int);
            let o = before.node(cur as int);
            let n = after.node(cur as int);
            &&& 0 <= s < DIR_SLOTS
            &&& n.slot_live(s)
            &&& n.slots@[s].i_no == i
            &&& n.slots@[s].name_view() == name
            &&& forall|t: int| 0 <= t < DIR_SLOTS && t != s ==> #[trigger] n.slots@[t] == o.slots@[t]
            &&& forall|t: int| 0 <= t < DIR_SLOTS && o.slot_live(t) ==> #[trigger] n.slot_live(t)
        }),
        forall|j: int| 0 <= j < MAX_FILE_PER_FS && j != cur && j != i ==> #[trigger] after.inodes@[j] == before.inodes@[j],
    ensures
        after.walk(0, ps.push(name)) == Some((after.node(cur as int).slots@[before.next_slot(cur as int)], i)),
        forall|q: Seq<Seq<u8>>| before.walk(0, q) is Some ==> #[trigger] after.walk(0, q) == before.walk(0, q),
        forall|x: Seq<u8>| x != name ==> #[trigger] after.node(cur as int).lookup(x) == before.node(cur as int).lookup(x),
{
    let s = before.next_slot(cur as int);
    let o = before.node(cur as int);
    let n = after.node(cur as int);
    assert(!before.has(i as int)) by {
        assert(!before.inode_bitmap@[i as int]);
    }
    crate::filesystem::fs::lemma_available_slot_free(o);
    lemma_lookup_after_add(o, n, s, name);
    assert forall|x: Seq<u8>| x != name implies #[trigger] n.lookup(x) == o.lookup(x) by {
        crate::filesystem::fs::lemma_lookup_other_after_add(o, n, s, name, x);
    }
    assert forall|q: Seq<Seq<u8>>| before.walk(0, q) is Some implies #[trigger] after.walk(0, q) == before.walk(0, q) by {
        before.lemma_walk_frame(after, 0, q, cur as int, name, i as int);
    }
    if ps.len() == 0 {
        assert(ps.push(name) =~= seq![name]);
    } else {
        before.lemma_walk_frame(after, 0, ps, cur as int, name, i as int);
        after.lemma_walk_push(0, ps, name, cur);
    }
}

/// No name of `ps`, followed from directory `d`, leads to an entry whose
/// inode does not exist.
pub open spec fn no_dangling(fs: FileSystem, d: int, ps: Seq<Seq<u8>>) -> bool
    decreases ps.len(),
{
    if ps.len() == 0 || !fs.has(d) {
        true
    } else {
        match fs.node(d).lookup(ps[0]) {
            None => true,
            Some(e) => fs.has(e.i_no as int) && no_dangling(fs, e.i_no as int, ps.drop_first()),
        }
    }
}

proof fn lemma_first_missing_bound(fs: FileSystem, d: int, ps: Seq<Seq<u8>>)
    ensures
        first_missing(fs, d, ps) matches Some((_, m)) ==> 0 < m <= ps.len(),
    decreases ps.len(),
{
    if ps.len() > 0 && fs.has(d) {
        if let Some(e) = fs.node(d).lookup(ps[0]) {
            lemma_first_missing_bound(fs, e.i_no as int, ps.drop_first());
        }
    }
}

/// A walk that succeeds passes no missing name and no entry of an inode
/// that does not exist.
proof fn lemma_walk_nothing_missing(fs: FileSystem, d: int, ps: Seq<Seq<u8>>)
    requires
        fs.walk(d, ps) is Some,
    ensures
        first_missing(fs, d, ps) is None,
        no_dangling(fs, d, ps),
    decreases ps.len(),
{
    assert(fs.has(d) && fs.node(d).lookup(ps[0]) is Some);
    let e = fs.node(d).lookup(ps[0])->0;
    assert(fs.has(e.i_no as int));
    if ps.len() > 1 {
        lemma_walk_nothing_missing(fs, e.i_no as int, ps.drop_first());
    } else {
        assert(first_missing(fs, e.i_no as int, ps.drop_first()) is None);
        assert(no_dangling(fs, e.i_no as int, ps.drop_first()));
    }
}

/// Creating the directories of a path that already leads somewhere (as it
/// does once `create_dir_all` has succeeded on it) is owed success and
/// changes nothing: none of its names is missing, none leads to an inode
/// that does not exist, and so no room is needed.
pub proof fn lemma_create_dir_all_again(fs: FileSystem, b: Seq<u8>)
    requires
        fs.path_target(b) is Some,
    ensures
        first_missing(fs, 0, path_pieces(b)) is None,
        no_dangling(fs, 0, path_pieces(b)),
        room_for_path(fs, b),
{
    if path_pieces(b).len() > 0 {
        lemma_walk_nothing_missing(fs, 0, path_pieces(b));
    }
}

/// The inode that the first `i` names of `ps` lead to from the root (the
/// root itself for none).
pub open spec fn prefix_ino(fs: FileSystem, ps: Seq<Seq<u8>>, i: int) -> int {
    if i <= 0 {
        0
    } else {
        (fs.walk(0, ps.take(i))->0).1 as int
    }
}

/// Directory `n`, inode `c`, holds in its first two slots, both in use, its
/// `..` entry naming `parent` and its `.` entry naming itself.
pub open spec fn has_dot_entries(n: OpenedInode, c: int, parent: int) -> bool {
    &&& n.slot_live(0)
    &&& n.slot_live(1)
    &&& n.slots@[0].name_view() == seq![0x2eu8, 0x2eu8]
    &&& n.slots@[0].i_no == parent
    &&& n.slots@[0].file_type == FileType::Directory
    &&& n.slots@[1].name_view() == seq![0x2eu8]
    &&& n.slots@[1].i_no == c
    &&& n.slots@[1].file_type == FileType::Directory
}

/// The first `i` names of `ps` lead somewhere; when `i` is past `lo` (the
/// names that existed before), to a directory with its `.` and `..` entries.
pub open spec fn prefix_made(fs: FileSystem, ps: Seq<Seq<u8>>, i: int, lo: int) -> bool {
    &&& fs.walk(0, ps.take(i)) is Some
    &&& i > lo ==> {
        &&& (fs.walk(0, ps.take(i))->0).0.file_type == FileType::Directory
        &&& has_dot_entries(fs.node(prefix_ino(fs, ps, i)), prefix_ino(fs, ps, i), prefix_ino(fs, ps, i - 1))
    }
}

/// How many names of `ps`, from the root, exist already.
pub open spec fn existing_prefix(fs: FileSystem, ps: Seq<Seq<u8>>) -> int {
    match first_missing(fs, 0, ps) {
        Some((_, m)) => ps.len() - m,
        None => ps.len() as int,
    }
}

/// Creates every directory of `path` that does not exist yet, one level
/// below the other. Afterwards every prefix of the path leads somewhere, and
/// each one that was missing is a new directory with its `.` and `..`
/// entries; when nothing was missing, nothing changes.
pub fn create_dir_all(fs: &mut FileSystem, path: &str) -> (r: Result<(), DirError>)
    requires
        old(fs).wf(),
        path.spec_bytes().len() > 0 && path.spec_bytes()[0] == SLASH ==> room_for_path(*old(fs), path.spec_bytes()),
    ensures
        final(fs).wf(),
        final(fs).super_block == old(fs).super_block,
        (r == Err::<(), DirError>(DirError::DirPathIllegal)) == (path.spec_bytes().len() == 0
            || path.spec_bytes()[0] != SLASH),
        r is Err ==> r == Err::<(), DirError>(DirError::DirPathIllegal) || r == Err::<(), DirError>(DirError::NotFound),
        r == Err::<(), DirError>(DirError::DirPathIllegal) ==> *final(fs) == *old(fs),
        path.spec_bytes().len() > 0 && path.spec_bytes()[0] == SLASH && no_dangling(
            *old(fs),
            0,
            crate::filesystem::file_util::path_pieces(path.spec_bytes()),
        ) ==> r is Ok,
        first_missing(*old(fs), 0, crate::filesystem::file_util::path_pieces(path.spec_bytes())) is None ==> *final(fs)
            == *old(fs),
        r is Ok ==> final(fs).path_target(path.spec_bytes()) is Some,
        r is Ok ==> forall|i: int|
            1 <= i <= crate::filesystem::file_util::path_pieces(path.spec_bytes()).len() ==> #[trigger] prefix_made(
                *final(fs),
                crate::filesystem::file_util::path_pieces(path.spec_bytes()),
                i,
                existing_prefix(*old(fs), crate::filesystem::file_util::path_pieces(path.spec_bytes())),
            ),
{
    let b = path.as_bytes();
    if b.len() == 0 || b[0] != SLASH {
        return Err(DirError::DirPathIllegal);
    }
    let ps = crate::filesystem::file_util::split_pieces(b, SLASH);
    let ghost pv = ps@.map_values(|v: Vec<u8>| v@);
    let ghost lo = existing_prefix(*old(fs), pv);
    proof {
        crate::filesystem::file_util::lemma_pieces_nonempty(b@, SLASH, seq![]);
        lemma_first_missing_bound(*old(fs), 0, pv);
    }
    let mut cur: u32 = 0;
    let mut created = false;
    let mut k: usize = 0;
    assert(pv.skip(0) =~= pv);
    while k < ps.len()
        invariant
            fs.wf(),
            fs.super_block == old(fs).super_block,
            pv == ps@.map_values(|v: Vec<u8>| v@),
            pv == crate::filesystem::file_util::path_pieces(b@),
            forall|i: int| 0 <= i < pv.len() ==> #[trigger] pv[i].len() > 0,
            lo == existing_prefix(*old(fs), pv),
            0 <= lo <= pv.len(),
            room_for_path(*old(fs), b@),
            b@ == path.spec_bytes(),
            b@.len() > 0 && b@[0] == SLASH,
            k <= ps@.len(),
            fs.has(cur as int),
            k == 0 ==> cur == 0,
            k > 0 ==> (fs.walk(0, pv.take(k as int)) matches Some((_, c)) && c == cur),
            !created ==> *fs == *old(fs),
            !created ==> first_missing(*fs, cur as int, pv.skip(k as int)) == first_missing(*old(fs), 0, pv),
            !created ==> no_dangling(*fs, cur as int, pv.skip(k as int)) == no_dangling(*old(fs), 0, pv),
            !created ==> k <= lo,
            created ==> just_made(fs.node(cur as int)),
            created ==> (first_missing(*old(fs), 0, pv) matches Some((_, m)) && k >= pv.len() - m),
            created ==> k > lo,
            created ==> crate::bitmap::count_free(fs.inode_bitmap@) >= ps@.len() - k,
            created ==> fs.free_blocks() >= 3 * (ps@.len() - k),
            forall|i: int| 1 <= i <= k ==> #[trigger] prefix_made(*fs, pv, i, lo),
        decreases ps@.len() - k,
    {
        let name = ps[k].as_slice();
        assert(name@ == pv[k as int]);
        assert(pv.skip(k as int)[0] == pv[k as int]);
        assert(pv.skip(k as int).drop_first() =~= pv.skip(k + 1));
        assert(pv.take(k + 1) =~= pv.take(k as int).push(pv[k as int]));
        assert(pv.take(k + 1).take(k as int) =~= pv.take(k as int));
        let found = match &fs.inodes[cur as usize] {
            Some(n) => n.lookup_entry(name),
            None => {
                proof {
                    assert(false);
                }
                None
            },
        };
        proof {
            if created && name@.len() > 0 {
                assert(valid_name(pv[k as int]) && !is_dot_name(pv[k as int]));
                lemma_just_made_lookup(fs.node(cur as int), name@);
            }
        }
        match found {
            Some(e) => {
                if e.i_no >= MAX_FILE_PER_FS || fs.inodes[e.i_no as usize].is_none() {
                    return Err(DirError::NotFound);
                }
                proof {
                    if k == 0 {
                        assert(pv.take(1) =~= seq![pv[0]]);
                    } else {
                        fs.lemma_walk_push(0, pv.take(k as int), pv[k as int], cur);
                    }
                    lemma_first_missing_bound(*fs, e.i_no as int, pv.skip(k + 1));
                    assert(prefix_made(*fs, pv, k + 1, lo));
                }
                cur = e.i_no;
            },
            None => {
                if name.len() == 0 {
                    return Err(DirError::NotFound);
                }
                proof {
                    if created {
                        lemma_just_made_slot(fs.node(cur as int));
                    } else {
                        assert(first_missing(*fs, cur as int, pv.skip(k as int)) == Some((cur as int, (pv.len() - k) as nat)));
                        assert(lo == k);
                    }
                    assert(valid_name(pv[k as int]) && !is_dot_name(pv[k as int]));
                    crate::bitmap::lemma_count_free_nonzero(fs.inode_bitmap@);
                }
                let ghost before = *fs;
                let ghost was_created = created;
                let i = fs.mkdir(cur, name);
                proof {
                    crate::bitmap::lemma_count_free_set(before.inode_bitmap@, i as int);
                    lemma_walk_after_new_entry(before, *fs, pv.take(k as int), cur, name@, i);
                    let s = before.next_slot(cur as int);
                    assert(!before.has(i as int)) by {
                        assert(!before.inode_bitmap@[i as int]);
                    }
                    assert forall|j: int| 1 <= j <= k implies #[trigger] prefix_made(*fs, pv, j, lo) by {
                        assert(prefix_made(before, pv, j, lo));
                        assert(fs.walk(0, pv.take(j)) == before.walk(0, pv.take(j)));
                        if j > 1 {
                            assert(prefix_made(before, pv, j - 1, lo));
                            assert(fs.walk(0, pv.take(j - 1)) == before.walk(0, pv.take(j - 1)));
                        }
                        if j > lo {
                            let c = prefix_ino(before, pv, j);
                            before.lemma_walk_has(0, pv.take(j));
                            assert(before.has(c));
                            if c == cur as int {
                                assert(was_created);
                                assert(s == 2);
                                assert(fs.node(c).slots@[0] == before.node(c).slots@[0]);
                                assert(fs.node(c).slots@[1] == before.node(c).slots@[1]);
                            } else {
                                assert(c != i as int);
                                assert(fs.inodes@[c] == before.inodes@[c]);
                            }
                        }
                    }
                    assert(prefix_ino(*fs, pv, k as int) == cur as int);
                    assert(prefix_made(*fs, pv, k + 1, lo));
                }
                cur = i;
                created = true;
            },
        }
        k = k + 1;
    }
    proof {
        assert(pv.take(pv.len() as int) =~= pv);
    }
    Ok(())
}

/// An opened directory: its inode and the path it was opened by.
pub struct ReadDir {
    pub i_no: u32,
    pub path: Vec<u8>,
}

/// Walks the entries of a directory in slot order, block by block, up to
/// the first block without an address; `pos` is the next slot to look at.
pub struct ReadDirIterator {
    pub i_no: u32,
    pub pos: usize,
}

/// The slots a walk over `n` covers: those of the blocks before its first
/// block without an address.
pub open spec fn walk_end(n: OpenedInode) -> int {
    18 * crate::filesystem::fs::first_unused_block(n.blocks@, 0, crate::filesystem::constant::INODE_BLOCK_SLOTS as int)
}

/// Opens the directory at `path`.
pub fn read_dir(fs: &FileSystem, path: &str) -> (r: Result<ReadDir, DirError>)
    requires
        fs.wf(),
    ensures
        path.spec_bytes().len() == 0 || path.spec_bytes()[0] != SLASH ==> r is Err && r == Err::<ReadDir, DirError>(
            DirError::DirPathIllegal,
        ),
        path.spec_bytes().len() > 0 && path.spec_bytes()[0] == SLASH ==> match fs.path_target(path.spec_bytes()) {
            None => r is Err && r == Err::<ReadDir, DirError>(DirError::NotFound),
            Some((_, i)) => r matches Ok(d) && d.i_no == i && d.path@ == path.spec_bytes(),
        },
{
    let b = path.as_bytes();
    if b.len() == 0 || b[0] != SLASH {
        return Err(DirError::DirPathIllegal);
    }
    match fs.search_dir_entry(path) {
        None => Err(DirError::NotFound),
        Some((_, i)) => Ok(ReadDir { i_no: i, path: vstd::slice::slice_to_vec(b) }),
    }
}

impl ReadDir {
    /// The path the directory was opened by.
    pub fn get_path(&self) -> (p: &[u8])
        ensures
            p@ == self.path@,
    {
        self.path.as_slice()
    }

    /// A walk over the entries from the first slot.
    pub fn iter(&self) -> (it: ReadDirIterator)
        ensures
            it.i_no == self.i_no,
            it.pos == 0,
    {
        ReadDirIterator { i_no: self.i_no, pos: 0 }
    }

    /// The directory holds no more than `.` and `..`.
    pub fn is_empty(&self, fs: &FileSystem) -> (r: bool)
        requires
            fs.wf(),
            fs.has(self.i_no as int),
        ensures
            r == (fs.node(self.i_no as int).i_size <= 2 * DIR_ENTRY_SIZE),
    {
        match &fs.inodes[self.i_no as usize] {
            Some(n) => n.i_size <= 2 * DIR_ENTRY_SIZE,
            None => false,
        }
    }

    /// The size of the directory's data.
    pub fn get_file_size(&self, fs: &FileSystem) -> (r: usize)
        requires
            fs.wf(),
            fs.has(self.i_no as int),
        ensures
            r == fs.node(self.i_no as int).i_size,
    {
        match &fs.inodes[self.i_no as usize] {
            Some(n) => n.i_size as usize,
            None => 0,
        }
    }
}

impl ReadDirIterator {
    /// The next entry that is not empty, from slot `pos` on and before the
    /// end of the walk; the walk then goes on after it.
    pub fn next(&mut self, fs: &FileSystem) -> (r: Option<DirEntry>)
        requires
            fs.wf(),
            fs.has(old(self).i_no as int),
        ensures
            final(self).i_no == old(self).i_no,
            ({
                let n = fs.node(old(self).i_no as int);
                match r {
                    Some(e) => {
                        &&& old(self).pos < final(self).pos <= walk_end(n)
                        &&& e == n.slots@[final(self).pos - 1]
                        &&& !e.spec_is_empty()
                        &&& forall|t: int| old(self).pos <= t < final(self).pos - 1 ==> (#[trigger] n.slots@[t]).spec_is_empty()
                    },
                    None => forall|t: int| old(self).pos <= t < walk_end(n) ==> (#[trigger] n.slots@[t]).spec_is_empty(),
                }
            }),
    {
        let node = match &fs.inodes[self.i_no as usize] {
            Some(n) => n,
            None => {
                proof {
                    assert(false);
                }
                return None;
            },
        };
        assert(*node == fs.node(old(self).i_no as int));
        let end_block = crate::filesystem::fs::first_unused_block_exec(&node.blocks, 0, crate::filesystem::constant::INODE_BLOCK_SLOTS);
        let end = 18 * end_block;
        let start = self.pos;
        while self.pos < end
            invariant
                node.wf(),
                *node == fs.node(old(self).i_no as int),
                end == walk_end(*node),
                end <= DIR_SLOTS,
                start <= self.pos,
                self.i_no == old(self).i_no,
                start == old(self).pos,
                forall|t: int| start <= t < self.pos ==> (#[trigger] node.slots@[t]).spec_is_empty(),
            decreases end - self.pos,
        {
            let e = node.slots[self.pos];
            self.pos = self.pos + 1;
            if !e.is_empty() {
                return Some(e);
            }
        }
        None
    }
}

/// No byte of `b` is zero.
fn no_zero(b: &[u8]) -> (r: bool)
    ensures
        r == (forall|i: int| 0 <= i < b@.len() ==> #[trigger] b@[i] != 0),
{
    let mut i: usize = 0;
    while i < b.len()
        invariant
            i <= b@.len(),
            forall|k: int| 0 <= k < i ==> #[trigger] b@[k] != 0,
        decreases b@.len() - i,
    {
        if b[i] == 0 {
            return false;
        }
        i = i + 1;
    }
    true
}

} // verus!
