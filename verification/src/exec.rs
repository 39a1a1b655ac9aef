use vstd::prelude::*;

use crate::filesystem::file::FileError;

verus! {

/// Why running a file failed.
#[derive(Debug, Clone, Copy, PartialEq, Eq, Structural)]
pub enum ExecError {
    /// The task could not be set up.
    Init,
    /// The file could not be opened.
    OpenFileError(FileError),
}

} // verus!
