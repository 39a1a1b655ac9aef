use vstd::prelude::*;

use crate::sync::Lock;

verus! {

/// Data behind a lock.
pub struct Mutex<T> {
    pub lock: Lock,
    pub data: T,
}

/// Proof of holding a mutex's lock, handed back to release it.
pub struct MutexGuard {
    _held: (),
}

impl<T> Mutex<T> {
    /// `data` behind a free lock.
    pub fn new(data: T) -> (m: Self)
        ensures
            !m.lock.locked,
            m.data == data,
    {
        Mutex { lock: Lock::new(), data }
    }

    /// Takes the lock when it is free: the guard, or None when another
    /// holder has it.
    pub fn lock(&mut self) -> (g: Option<MutexGuard>)
        ensures
            final(self).lock.locked,
            final(self).data == old(self).data,
            g is Some == !old(self).lock.locked,
    {
        if self.lock.lock() {
            Some(MutexGuard { _held: () })
        } else {
            None
        }
    }

    /// Releases the lock that `guard` shows is held.
    pub fn unlock(&mut self, guard: MutexGuard)
        ensures
            !final(self).lock.locked,
            final(self).data == old(self).data,
    {
        self.lock.unlock();
    }

    /// The data.
    pub fn get(&self) -> (d: &T)
        ensures
            *d == self.data,
    {
        &self.data
    }

    /// The data, to change while the lock is held.
    pub fn get_mut(&mut self, guard: &MutexGuard) -> (d: &mut T)
        ensures
            *d == old(self).data,
            final(self).data == *final(d),
            final(self).lock == old(self).lock,
    {
        &mut self.data
    }
}

} // verus!
