use vstd::prelude::*;

verus! {

/// What to run: the absolute path of a file and its arguments.
pub struct ExecParam<'a> {
    file_path: &'a str,
    args: Option<&'a str>,
}

impl<'a> ExecParam<'a> {
    pub closed spec fn spec_file_path(&self) -> &'a str {
        self.file_path
    }

    pub closed spec fn spec_args(&self) -> Option<&'a str> {
        self.args
    }

    pub fn new(file_path: &'a str, args: Option<&'a str>) -> (p: Self)
        ensures
            p.spec_file_path() == file_path,
            p.spec_args() == args,
    {
        ExecParam { file_path, args }
    }

    pub fn get_file_path(&self) -> (p: &'a str)
        ensures
            p == self.spec_file_path(),
    {
        self.file_path
    }

    pub fn get_args(&self) -> (a: Option<&'a str>)
        ensures
            a == self.spec_args(),
    {
        self.args
    }
}

} // verus!
