use vstd::prelude::*;

verus! {

/// A buffer for the working directory, and how much of it holds the path
/// once filled.
pub struct CwdDto {
    pub buff: Vec<u8>,
    pub len: Option<usize>,
}

} // verus!
