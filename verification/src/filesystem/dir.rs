use vstd::prelude::*;
use vstd::string::StringSliceAdditionalSpecFns;

use crate::filesystem::constant::{MAX_FILE_PATH_LEN, MAX_FILE_PER_FS};
use crate::filesystem::file_util::{
    SLASH, lemma_reverse_plain, plain_path, reverse_path_bytes, reversed_path, spec_reverse_path, trim, trim_bytes,
};
use crate::filesystem::fs::FileSystem;

verus! {

/// The inode number of the root directory, after checking that it exists.
pub fn load_root_dir(fs: &FileSystem) -> (root: u32)
    requires
        fs.wf(),
    ensures
        root == fs.super_block.root_inode_no,
        fs.has(root as int),
{
    fs.super_block.root_inode_no as u32
}

/// Makes the root directory the working directory of every task.
pub fn init_root_dir(fs: &FileSystem, cwds: &mut Vec<Option<u32>>)
    requires
        fs.wf(),
    ensures
        final(cwds)@.len() == old(cwds)@.len(),
        forall|i: int| 0 <= i < final(cwds)@.len() ==> #[trigger] final(cwds)@[i] == Some(0u32),
{
    let root = load_root_dir(fs);
    let mut i: usize = 0;
    while i < cwds.len()
        invariant
            i <= cwds@.len() == old(cwds)@.len(),
            root == 0,
            forall|k: int| 0 <= k < i ==> #[trigger] cwds@[k] == Some(0u32),
        decreases cwds@.len() - i,
    {
        cwds.set(i, Some(root));
        i = i + 1;
    }
}

/// Makes the entry at `path` the working directory `cwd`; None, with `cwd`
/// unchanged, when nothing exists there.
pub fn change_dir(fs: &FileSystem, cwd: &mut Option<u32>, path: &str) -> (r: Option<()>)
    requires
        fs.wf(),
    ensures
        match fs.path_target(path.spec_bytes()) {
            None => r is None && *final(cwd) == *old(cwd),
            Some((_, i)) => r is Some && *final(cwd) == Some(i),
        },
{
    match fs.search_dir_entry(path) {
        None => None,
        Some((e, i)) => {
            *cwd = Some(e.i_no);
            Some(())
        },
    }
}

/// The directory that the `..` entry of directory `i` names.
pub open spec fn parent_ino(fs: FileSystem, i: int) -> Option<u32> {
    match fs.node(i).lookup(seq![0x2eu8, 0x2eu8]) {
        Some(e) => Some(e.i_no),
        None => None,
    }
}

/// The names of directory `base` and of the directories above it, up to
/// the root (at most `fuel` of them): each found in its parent by inode
/// number. The climb stops at a directory that is its own parent, or where
/// a parent or an entry is missing.
pub open spec fn up_names(fs: FileSystem, base: u32, fuel: nat) -> Seq<Seq<u8>>
    decreases fuel,
{
    if fuel == 0 || !fs.has(base as int) {
        seq![]
    } else {
        match parent_ino(fs, base as int) {
            None => seq![],
            Some(p) => if p == base || !fs.has(p as int) {
                seq![]
            } else if exists|s: int| fs.node(p as int).first_with_ino(base, s) {
                seq![fs.node(p as int).slots@[choose|s: int| fs.node(p as int).first_with_ino(base, s)].name_view()]
                    + up_names(fs, p, (fuel - 1) as nat)
            } else {
                seq![]
            },
        }
    }
}

/// Each name preceded by `/`, in order.
pub open spec fn joined(ns: Seq<Seq<u8>>) -> Seq<u8>
    decreases ns.len(),
{
    if ns.len() == 0 {
        seq![]
    } else {
        seq![SLASH] + ns[0] + joined(ns.drop_first())
    }
}

/// The names from `cwd` up to the root, each after a `/`, innermost first;
/// `/` for the root itself.
pub open spec fn cwd_bytes(fs: FileSystem, cwd: u32) -> Seq<u8> {
    let j = joined(up_names(fs, cwd, MAX_FILE_PER_FS as nat));
    if j.len() == 0 {
        seq![SLASH]
    } else {
        j
    }
}

/// How many bytes of the working directory `get_cwd` gives for a buffer of
/// `len` bytes: no more than the path, the buffer, or `MAX_FILE_PATH_LEN`.
pub open spec fn cwd_len(fs: FileSystem, cwd: u32, len: int) -> int {
    let n = cwd_bytes(fs, cwd).len() as int;
    let m = if len < MAX_FILE_PATH_LEN { len } else { MAX_FILE_PATH_LEN as int };
    if m < n {
        m
    } else {
        n
    }
}

/// Writes the path of the working directory `cwd` into `path`: the names
/// from `cwd` up to the root are gathered innermost first, then put in
/// order by `reverse_path`. Gives the number of bytes of `path` it covers.
pub fn get_cwd(fs: &FileSystem, cwd: Option<u32>, path: &mut [u8]) -> (r: Option<usize>)
    requires
        fs.wf(),
        cwd matches Some(c) ==> {
            &&& joined(up_names(*fs, c, MAX_FILE_PER_FS as nat)).len() <= MAX_FILE_PATH_LEN
            &&& plain_path(trim(cwd_bytes(*fs, c).subrange(0, cwd_len(*fs, c, old(path)@.len() as int))), SLASH)
                || spec_reverse_path(
                trim(cwd_bytes(*fs, c).subrange(0, cwd_len(*fs, c, old(path)@.len() as int))),
                SLASH,
                old(path)@,
            ) is Some
        },
    ensures
        final(path)@.len() == old(path)@.len(),
        match cwd {
            None => r is None && final(path)@ == old(path)@,
            Some(c) => {
                let t = trim(cwd_bytes(*fs, c).subrange(0, cwd_len(*fs, c, old(path)@.len() as int)));
                &&& r == Some(cwd_len(*fs, c, old(path)@.len() as int) as usize)
                &&& final(path)@.subrange(0, t.len() as int) == spec_reverse_path(t, SLASH, old(path)@)->0
                &&& plain_path(t, SLASH) ==> final(path)@.subrange(0, t.len() as int) == reversed_path(t, SLASH)
                &&& final(path)@.subrange(t.len() as int, old(path)@.len() as int) == old(path)@.subrange(
                    t.len() as int,
                    old(path)@.len() as int,
                )
            },
        },
{
    let c = match cwd {
        None => {
            return None;
        },
        Some(c) => c,
    };
    let mut buf: Vec<u8> = Vec::new();
    let mut base: u32 = c;
    let mut fuel: u32 = MAX_FILE_PER_FS;
    let ghost all = up_names(*fs, c, MAX_FILE_PER_FS as nat);
    assert(buf@ + joined(all) =~= joined(all));
    while fuel > 0
        invariant
            fs.wf(),
            all == up_names(*fs, c, MAX_FILE_PER_FS as nat),
            joined(all).len() <= MAX_FILE_PATH_LEN,
            buf@ + joined(up_names(*fs, base, fuel as nat)) == joined(all),
        ensures
            buf@ == joined(all),
        decreases fuel,
    {
        let ghost rest = up_names(*fs, base, fuel as nat);
        assert(fuel - 1 < fuel);
        if base >= MAX_FILE_PER_FS || fs.inodes[base as usize].is_none() {
            assert(rest =~= Seq::<Seq<u8>>::empty());
            assert(buf@ + joined(rest) =~= buf@);
            break;
        }
        let dotdot: [u8; 2] = [0x2e, 0x2e];
        assert(dotdot@ =~= seq![0x2eu8, 0x2eu8]);
        let up = match &fs.inodes[base as usize] {
            Some(n) => n.lookup_entry(&dotdot),
            None => None,
        };
        let p = match up {
            None => {
                assert(rest =~= Seq::<Seq<u8>>::empty());
                assert(buf@ + joined(rest) =~= buf@);
                break;
            },
            Some(e) => e.i_no,
        };
        if p == base || p >= MAX_FILE_PER_FS || fs.inodes[p as usize].is_none() {
            assert(rest =~= Seq::<Seq<u8>>::empty());
            assert(buf@ + joined(rest) =~= buf@);
            break;
        }
        let slot = match &fs.inodes[p as usize] {
            Some(n) => n.find_by_ino(base),
            None => None,
        };
        let s = match slot {
            None => {
                assert(rest =~= Seq::<Seq<u8>>::empty());
                assert(buf@ + joined(rest) =~= buf@);
                break;
            },
            Some(s) => s,
        };
        let name = match &fs.inodes[p as usize] {
            Some(n) => n.slots[s].get_name(),
            None => Vec::new(),
        };
        proof {
            assert(fs.node(p as int).first_with_ino(base, s as int));
            let ch = choose|x: int| fs.node(p as int).first_with_ino(base, x);
            assert(fs.node(p as int).first_with_ino(base, ch));
            assert(ch == s as int);
            let tail = up_names(*fs, p, (fuel - 1) as nat);
            assert(rest == seq![name@] + tail);
            assert((seq![name@] + tail).drop_first() =~= tail);
            assert(joined(rest) == seq![SLASH] + name@ + joined(tail));
        }
        let ghost before = buf@;
        buf.push(SLASH);
        let mut q: usize = 0;
        while q < name.len()
            invariant
                q <= name@.len(),
                buf@ == before.push(SLASH) + name@.subrange(0, q as int),
            decreases name@.len() - q,
        {
            buf.push(name[q]);
            q = q + 1;
            assert(buf@ =~= before.push(SLASH) + name@.subrange(0, q as int));
        }
        proof {
            let tail = up_names(*fs, p, (fuel - 1) as nat);
            assert(name@.subrange(0, name@.len() as int) =~= name@);
            assert(buf@ + joined(tail) =~= before + (seq![SLASH] + name@ + joined(tail)));
        }
        base = p;
        fuel = fuel - 1;
    }
    if buf.len() == 0 {
        buf.push(SLASH);
    }
    assert(buf@ == cwd_bytes(*fs, c));
    let lim: usize = if path.len() < MAX_FILE_PATH_LEN { path.len() } else { MAX_FILE_PATH_LEN };
    let min_len: usize = if lim < buf.len() { lim } else { buf.len() };
    let src = trim_bytes(vstd::slice::slice_subrange(buf.as_slice(), 0, min_len));
    proof {
        crate::filesystem::file_util::lemma_trim_len(buf@.subrange(0, min_len as int));
        if plain_path(src@, SLASH) {
            lemma_reverse_plain(src@, SLASH, path@);
        }
    }
    reverse_path_bytes(src, SLASH, path);
    Some(min_len)
}

} // verus!
