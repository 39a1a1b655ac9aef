use vstd::prelude::*;

use crate::bitmap::{BitMap, first_free_run};

verus! {

/// A process id.
#[derive(Clone, Copy, Debug, PartialEq, Eq, Structural)]
pub struct Pid {
    data: u8,
}

impl Pid {
    /// The numeric value of the pid.
    pub closed spec fn value(&self) -> u8 {
        self.data
    }

    pub fn new(data: u8) -> (pid: Self)
        ensures
            pid.value() == data,
    {
        Self { data }
    }

    pub fn get_data(&self) -> (d: u8)
        ensures
            d == self.value(),
    {
        self.data
    }
}

/// Number of bytes in the bitmap of the kernel's pid pool.
pub const PID_BITMAP_BYTES: usize = 128;

/// The first pid handed out by the kernel's pid pool.
pub const START_PID: u8 = 1;

/// A pool of pids: bit `i` of the bitmap is set while pid `start_pid + i` is in use.
pub struct PidPool {
    bitmap: BitMap,
    start_pid: u8,
}

impl PidPool {
    /// Which pid slots are in use.
    pub closed spec fn used(&self) -> Seq<bool> {
        self.bitmap.view()
    }

    /// The pid of slot 0.
    pub closed spec fn start(&self) -> u8 {
        self.start_pid
    }

    /// The pool's invariant.
    pub closed spec fn wf(&self) -> bool {
        self.bitmap.byte_len() * 8 <= usize::MAX
    }

    /// The kernel's pid pool: 128 bytes of bitmap, pids counted from
    /// `START_PID`.
    pub fn new() -> (pool: Self)
        ensures
            pool.wf(),
            pool.start() == START_PID,
            pool.used() == Seq::new((PID_BITMAP_BYTES * 8) as nat, |i: int| false),
    {
        let bitmap = BitMap::empty(PID_BITMAP_BYTES);
        PidPool { bitmap, start_pid: START_PID }
    }

    /// A pool over `bitmap` whose slot 0 is pid `start_pid`.
    pub fn with_bitmap(bitmap: BitMap, start_pid: u8) -> (pool: Self)
        requires
            bitmap.byte_len() * 8 <= usize::MAX,
        ensures
            pool.wf(),
            pool.start() == start_pid,
            pool.used() == bitmap.view(),
    {
        PidPool { bitmap, start_pid }
    }

    /// Hands out the pid of the lowest free slot and marks it in use.
    pub fn allocate(&mut self) -> (pid: Pid)
        requires
            old(self).wf(),
            exists|i: int| #[trigger] first_free_run(old(self).used(), i, 1) && old(self).start() + i <= u8::MAX,
        ensures
            final(self).wf(),
            final(self).start() == old(self).start(),
            exists|i: int|
                #[trigger] first_free_run(old(self).used(), i, 1) && pid.value() == old(self).start() + i
                    && final(self).used() == old(self).used().update(i, true),
    {
        proof { self.bitmap.lemma_len(); }
        let res = self.bitmap.apply_bits(1);
        let bit_idx = match res {
            Ok(i) => i,
            Err(_) => {
                proof {
                    let i = choose|i: int| #[trigger] first_free_run(old(self).used(), i, 1) && old(self).start() + i <= u8::MAX;
                    assert(crate::bitmap::run_free(old(self).used(), i, 1));
                }
                0
            },
        };
        proof {
            let i = choose|i: int| #[trigger] first_free_run(old(self).used(), i, 1) && old(self).start() + i <= u8::MAX;
            // the lowest free slot is unique
            if bit_idx < i {
                assert(crate::bitmap::run_free(old(self).used(), bit_idx as int, 1));
            } else if bit_idx > i {
                assert(crate::bitmap::run_free(old(self).used(), i, 1));
            }
        }
        self.bitmap.set_bit(bit_idx, true);
        Pid::new(self.start_pid + bit_idx as u8)
    }

    /// Marks `pid` free again.
    pub fn release(&mut self, pid_to_release: Pid)
        requires
            old(self).wf(),
            old(self).start() <= pid_to_release.value(),
            pid_to_release.value() - old(self).start() < old(self).used().len(),
        ensures
            final(self).wf(),
            final(self).start() == old(self).start(),
            final(self).used() == old(self).used().update(pid_to_release.value() - old(self).start(), false),
    {
        let data = pid_to_release.data;
        let bit_idx = data - self.start_pid;
        self.bitmap.set_bit(bit_idx as usize, false);
    }
}

/// Two pids are the same exactly when their values are.
pub proof fn lemma_pid_eq(a: Pid, b: Pid)
    ensures
        (a == b) <==> (a.value() == b.value()),
{
}

/// Pids made from two numbers (as `Pid::new` makes them) are equal exactly
/// when the numbers are.
pub proof fn lemma_pid_new_eq(p: Pid, q: Pid, a: u8, b: u8)
    requires
        p.value() == a,
        q.value() == b,
    ensures
        (p == q) <==> (a == b),
{
}

/// Releasing a freshly allocated pid gives the pool back its earlier state.
pub proof fn lemma_release_undoes_allocate(used: Seq<bool>, start: u8, i: int)
    requires
        first_free_run(used, i, 1),
        start + i <= u8::MAX,
    ensures
        used.update(i, true).update((start + i) - start, false) == used,
        !used[i],
{
    assert(!used[i]);
    assert(used.update(i, true).update(i, false) =~= used);
}

/// An allocated pid is never the pid of a slot that was already in use.
pub proof fn lemma_allocate_fresh(used: Seq<bool>, start: u8, i: int, j: int)
    requires
        first_free_run(used, i, 1),
        0 <= j < used.len(),
        used[j],
    ensures
        start + i != start + j,
{
}

} // verus!
