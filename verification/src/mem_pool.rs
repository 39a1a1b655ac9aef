use vstd::prelude::*;

use crate::bitmap::{BitMap, MemoryError, first_free_run, no_free_run, run_free};

verus! {

/// A pool of equally sized units (pages) starting at `addr_start`; bit `i` of
/// the bitmap says whether the unit at `addr_start + i * granularity` is taken.
pub struct MemPool {
    addr_start: usize,
    granularity: usize,
    bitmap: BitMap,
}

/// Bits `start .. start + cnt` of `s` set, the others as they were.
pub open spec fn mark_range(s: Seq<bool>, start: int, cnt: int) -> Seq<bool> {
    Seq::new(s.len(), |j: int| if start <= j < start + cnt { true } else { s[j] })
}

impl MemPool {
    /// The address of the first unit.
    pub closed spec fn start(&self) -> nat {
        self.addr_start as nat
    }

    /// The size of one unit in bytes.
    pub closed spec fn unit(&self) -> nat {
        self.granularity as nat
    }

    /// Which units are taken.
    pub closed spec fn used(&self) -> Seq<bool> {
        self.bitmap.view()
    }

    /// The pool's internal invariant.
    pub closed spec fn wf(&self) -> bool {
        &&& self.granularity > 0
        &&& self.bitmap.byte_len() * 8 <= usize::MAX
        &&& self.addr_start + self.bitmap.view().len() * self.granularity <= usize::MAX
    }

    /// Number of units described by the pool.
    pub open spec fn units(&self) -> nat {
        self.used().len()
    }

    /// Address of unit `i`.
    pub open spec fn addr_of(&self, i: int) -> int {
        self.start() + i * self.unit()
    }

    /// A pool over `bitmap` describing units of `granularity` bytes from `addr_start`.
    pub fn init(addr_start: usize, granularity: usize, bitmap: BitMap) -> (pool: Self)
        requires
            granularity > 0,
            bitmap.byte_len() * 8 <= usize::MAX,
            addr_start + bitmap.view().len() * granularity <= usize::MAX,
        ensures
            pool.wf(),
            pool.start() == addr_start,
            pool.unit() == granularity,
            pool.used() == bitmap.view(),
    {
        MemPool { addr_start, granularity, bitmap }
    }

    /// The bitmap of the pool.
    pub fn bitmap(&self) -> (b: &BitMap)
        ensures
            b.view() == self.used(),
    {
        &self.bitmap
    }

    /// Whether `addr` falls inside the range the pool describes.
    pub fn in_pool(&self, addr: usize) -> (r: bool)
        requires
            self.wf(),
        ensures
            r == (self.start() <= addr < self.start() + self.units() * self.unit()),
    {
        let len = self.bitmap.bit_len();
        addr >= self.addr_start && addr - self.addr_start < len * self.granularity
    }

    /// Takes `cnt` consecutive free units, the lowest such run, and returns the
    /// address of the first one.
    pub fn apply(&mut self, cnt: usize) -> (r: Result<usize, MemoryError>)
        requires
            old(self).wf(),
        ensures
            final(self).wf(),
            final(self).start() == old(self).start(),
            final(self).unit() == old(self).unit(),
            match r {
                Ok(addr) => exists|i: int|
                    #![trigger first_free_run(old(self).used(), i, cnt as int)]
                    first_free_run(old(self).used(), i, cnt as int)
                        && addr == old(self).addr_of(i)
                        && final(self).used() == mark_range(old(self).used(), i, cnt as int),
                Err(e) => e == MemoryError::MemInsufficient
                    && no_free_run(old(self).used(), cnt as int)
                    && final(self).used() == old(self).used(),
            },
    {
        let ghost before = self.bitmap.view();
        proof { self.bitmap.lemma_len(); }
        let res = self.bitmap.apply_bits(cnt);
        match res {
            Err(e) => Err(e),
            Ok(start) => {
                let mut k: usize = 0;
                while k < cnt
                    invariant
                        self.wf(),
                        self.addr_start == old(self).addr_start,
                        self.granularity == old(self).granularity,
                        first_free_run(before, start as int, cnt as int),
                        k <= cnt,
                        self.bitmap.view() == mark_range(before, start as int, k as int),
                        before.len() <= usize::MAX,
                    decreases cnt - k,
                {
                    self.bitmap.set_bit(start + k, true);
                    assert(self.bitmap.view() =~= mark_range(before, start as int, k + 1));
                    k = k + 1;
                }
                proof {
                    assert(start * self.granularity <= before.len() * self.granularity) by (nonlinear_arith)
                        requires
                            start <= before.len(),
                    ;
                }
                assert(first_free_run(old(self).used(), start as int, cnt as int));
                Ok(self.addr_start + start * self.granularity)
            },
        }
    }

    /// Takes the lowest free unit and returns its address.
    pub fn apply_one(&mut self) -> (r: Result<usize, MemoryError>)
        requires
            old(self).wf(),
        ensures
            final(self).wf(),
            final(self).start() == old(self).start(),
            final(self).unit() == old(self).unit(),
            match r {
                Ok(addr) => exists|i: int|
                    #![trigger first_free_run(old(self).used(), i, 1)]
                    first_free_run(old(self).used(), i, 1)
                        && addr == old(self).addr_of(i)
                        && final(self).used() == old(self).used().update(i, true),
                Err(e) => e == MemoryError::MemInsufficient
                    && no_free_run(old(self).used(), 1)
                    && final(self).used() == old(self).used(),
            },
    {
        let r = self.apply(1);
        proof {
            if let Ok(addr) = r {
                let i = choose|i: int|
                    #![trigger first_free_run(old(self).used(), i, 1)]
                    first_free_run(old(self).used(), i, 1) && addr == old(self).addr_of(i)
                        && self.used() == mark_range(old(self).used(), i, 1);
                assert(self.used() =~= old(self).used().update(i, true));
            }
        }
        r
    }

    /// Gives back the unit that holds `addr`.
    pub fn restore(&mut self, addr: usize)
        requires
            old(self).wf(),
            old(self).start() <= addr < old(self).start() + old(self).units() * old(self).unit(),
        ensures
            final(self).wf(),
            final(self).start() == old(self).start(),
            final(self).unit() == old(self).unit(),
            final(self).used() == old(self).used().update(
                (addr - old(self).start()) / (old(self).unit() as int),
                false,
            ),
    {
        let off = addr - self.addr_start;
        let idx = off / self.granularity;
        proof {
            let n = self.bitmap.view().len();
            assert(idx < n) by (nonlinear_arith)
                requires
                    off < n * self.granularity,
                    idx == off / self.granularity,
                    self.granularity > 0,
            ;
        }
        self.bitmap.set_bit(idx, false);
    }
}

/// Taking one unit and giving its address back leaves the pool as it was.
pub proof fn lemma_apply_one_then_restore(before: Seq<bool>, i: int, start: nat, unit: nat)
    requires
        unit > 0,
        first_free_run(before, i, 1),
    ensures
        before.update(i, true).update(((start + i * unit) - start) / (unit as int), false) == before,
{
    assert((i * unit) / (unit as int) == i) by (nonlinear_arith)
        requires
            unit > 0,
            i >= 0,
    ;
    assert(!before[i]);
    assert(before.update(i, true).update(i, false) =~= before);
}

} // verus!
