use vstd::prelude::*;

verus! {

/// A counting semaphore. `down` takes a permit when one is left and reports
/// that the caller must block otherwise; `up` hands a permit back.
#[derive(Debug, Clone, Copy, PartialEq, Eq, Structural)]
pub struct Semaphore {
    pub value: u32,
}

impl Semaphore {
    pub fn new(value: u32) -> (s: Self)
        ensures
            s.value == value,
    {
        Semaphore { value }
    }

    /// Takes a permit. Returns `false`, leaving the count alone, when none is left.
    pub fn down(&mut self) -> (acquired: bool)
        ensures
            acquired == (old(self).value > 0),
            acquired ==> final(self).value == old(self).value - 1,
            !acquired ==> final(self).value == old(self).value,
    {
        if self.value == 0 {
            false
        } else {
            self.value = self.value - 1;
            true
        }
    }

    /// Gives a permit back.
    pub fn up(&mut self)
        requires
            old(self).value < u32::MAX,
        ensures
            final(self).value == old(self).value + 1,
    {
        self.value = self.value + 1;
    }
}

/// A lock that a task either takes at once or must wait for.
#[derive(Debug, Clone, Copy, PartialEq, Eq, Structural)]
pub struct Lock {
    pub locked: bool,
}

impl Lock {
    pub fn new() -> (l: Self)
        ensures
            !l.locked,
    {
        Lock { locked: false }
    }

    /// Takes the lock. Returns `false`, changing nothing, when it is held already.
    pub fn lock(&mut self) -> (acquired: bool)
        ensures
            acquired == !old(self).locked,
            final(self).locked,
    {
        if self.locked {
            false
        } else {
            self.locked = true;
            true
        }
    }

    /// Releases the lock.
    pub fn unlock(&mut self)
        ensures
            !final(self).locked,
    {
        self.locked = false;
    }
}

} // verus!
