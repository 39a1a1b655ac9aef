use vstd::prelude::*;

verus! {

/// A request to open the file at `file_path`, appending or not.
#[derive(Debug)]
pub struct OpenFileDto<'a> {
    pub file_path: &'a str,
    pub append: bool,
}

impl<'a> OpenFileDto<'a> {
    pub fn new(path: &'a str, append: bool) -> (d: Self)
        ensures
            d.file_path == path,
            d.append == append,
    {
        OpenFileDto { file_path: path, append }
    }
}

} // verus!
