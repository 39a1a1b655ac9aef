use vstd::prelude::*;

use crate::filesystem::constant::MAX_FILE_NAME;

verus! {

/// What a directory entry names.
#[derive(Debug, PartialEq, Eq, Copy, Clone, Structural)]
pub enum FileType {
    Regular,
    Directory,
    Unknown,
}

/// The bytes of `a` before its first zero byte.
pub open spec fn cstr(a: Seq<u8>) -> Seq<u8>
    decreases a.len(),
{
    if a.len() == 0 {
        a
    } else if a[0] == 0 {
        Seq::empty()
    } else {
        seq![a[0]] + cstr(a.drop_first())
    }
}

/// A name that fits a directory entry: shorter than the field (room for the
/// terminating zero) and without zero bytes.
pub open spec fn valid_name(name: Seq<u8>) -> bool {
    &&& name.len() < MAX_FILE_NAME
    &&& forall|i: int| 0 <= i < name.len() ==> #[trigger] name[i] != 0
}

proof fn lemma_cstr_prefix(name: Seq<u8>, a: Seq<u8>)
    requires
        forall|i: int| 0 <= i < name.len() ==> #[trigger] name[i] != 0,
        name.len() < a.len(),
        forall|i: int| 0 <= i < name.len() ==> #[trigger] a[i] == name[i],
        a[name.len() as int] == 0,
    ensures
        cstr(a) == name,
    decreases name.len(),
{
    if name.len() == 0 {
        assert(cstr(a) =~= Seq::<u8>::empty());
    } else {
        lemma_cstr_prefix(name.drop_first(), a.drop_first());
        assert(cstr(a) =~= seq![a[0]] + cstr(a.drop_first()));
        assert(seq![name[0]] + name.drop_first() =~= name);
    }
}

/// A directory entry: an inode number, a zero-terminated name and a type.
#[derive(Debug, Copy, Clone)]
pub struct DirEntry {
    pub i_no: u32,
    pub name: [u8; 20],
    pub file_type: FileType,
}

impl DirEntry {
    /// The entry's name.
    pub open spec fn name_view(&self) -> Seq<u8> {
        cstr(self.name@)
    }

    /// An entry counts as empty when its inode number is 0, except for the
    /// root directory's own entry (inode 0, a directory).
    pub open spec fn spec_is_empty(&self) -> bool {
        self.i_no == 0 && self.file_type != FileType::Directory
    }

    /// The entry of an unused slot: inode 0, a name of zeros, no type.
    pub open spec fn is_blank(&self) -> bool {
        &&& self.i_no == 0
        &&& self.name@ == Seq::new(20, |i: int| 0u8)
        &&& self.file_type == FileType::Unknown
    }

    pub fn empty() -> (e: Self)
        ensures
            e.is_blank(),
            e.name_view() == Seq::<u8>::empty(),
            e.spec_is_empty(),
    {
        let e = DirEntry { i_no: 0, name: [0u8; 20], file_type: FileType::Unknown };
        assert(e.name@ =~= Seq::new(20, |i: int| 0u8));
        assert(cstr(e.name@) =~= Seq::<u8>::empty());
        e
    }

    pub fn new(i_no: u32, file_name: &[u8], file_type: FileType) -> (e: Self)
        requires
            valid_name(file_name@),
        ensures
            e.i_no == i_no,
            e.file_type == file_type,
            e.name_view() == file_name@,
    {
        let mut name = [0u8; 20];
        let mut i: usize = 0;
        while i < file_name.len()
            invariant
                i <= file_name@.len(),
                file_name@.len() < 20,
                name@.len() == 20,
                forall|k: int| 0 <= k < i ==> #[trigger] name@[k] == file_name@[k],
                forall|k: int| i <= k < 20 ==> #[trigger] name@[k] == 0,
            decreases file_name@.len() - i,
        {
            name[i] = file_name[i];
            i = i + 1;
        }
        proof {
            lemma_cstr_prefix(file_name@, name@);
        }
        DirEntry { i_no, name, file_type }
    }

    /// The entry's name (the bytes before the terminating zero).
    pub fn get_name(&self) -> (n: Vec<u8>)
        ensures
            n@ == self.name_view(),
    {
        let mut n: Vec<u8> = Vec::new();
        let mut i: usize = 0;
        while i < 20 && self.name[i] != 0
            invariant
                i <= 20,
                forall|k: int| 0 <= k < i ==> #[trigger] self.name@[k] != 0,
                n@ == self.name@.subrange(0, i as int),
            decreases 20 - i,
        {
            n.push(self.name[i]);
            assert(n@ =~= self.name@.subrange(0, i + 1));
            i = i + 1;
        }
        proof {
            lemma_cstr_subrange(self.name@, i as int);
        }
        n
    }

    pub fn is_empty(&self) -> (r: bool)
        ensures
            r == self.spec_is_empty(),
    {
        if self.i_no == 0 && self.file_type == FileType::Directory {
            return false;
        }
        self.i_no == 0
    }
}

proof fn lemma_cstr_subrange(a: Seq<u8>, i: int)
    requires
        0 <= i <= a.len(),
        forall|k: int| 0 <= k < i ==> #[trigger] a[k] != 0,
        i == a.len() || a[i] == 0,
    ensures
        cstr(a) == a.subrange(0, i),
    decreases i,
{
    if i == 0 {
        if a.len() == 0 {
            assert(a =~= a.subrange(0, 0));
        } else {
            assert(cstr(a) =~= a.subrange(0, 0));
        }
    } else {
        lemma_cstr_subrange(a.drop_first(), i - 1);
        assert(cstr(a) =~= seq![a[0]] + cstr(a.drop_first()));
        assert(a.subrange(0, i) =~= seq![a[0]] + a.drop_first().subrange(0, i - 1));
    }
}

} // verus!
