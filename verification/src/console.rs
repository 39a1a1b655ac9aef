use vstd::prelude::*;

verus! {

/// The text console; what it shows is kept by the screen.
#[derive(Debug, Clone, Copy, PartialEq, Eq, Structural)]
pub struct Console {}

impl Console {
    pub fn new() -> (c: Self)
        ensures
            c == (Console {}),
    {
        Console {}
    }
}

} // verus!
