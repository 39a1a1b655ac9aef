use vstd::prelude::*;

verus! {

/// Error returned when a bitmap cannot satisfy an allocation request.
#[derive(Debug, Clone, Copy, PartialEq, Eq, Structural)]
pub enum MemoryError {
    /// No run of free bits of the requested length exists.
    MemInsufficient,
}

/// Whether bit `k` (0..8) of byte `b` is set.
pub open spec fn bit_of(b: u8, k: int) -> bool {
    ((b >> (k as u8)) & 1u8) == 1u8
}

/// `cnt` consecutive clear bits start at `start` in `s`.
pub open spec fn run_free(s: Seq<bool>, start: int, cnt: int) -> bool {
    &&& 0 <= start
    &&& start + cnt <= s.len()
    &&& forall|j: int| start <= j < start + cnt ==> !#[trigger] s[j]
}

/// `start` is the lowest position at which `cnt` clear bits begin.
pub open spec fn first_free_run(s: Seq<bool>, start: int, cnt: int) -> bool {
    &&& run_free(s, start, cnt)
    &&& forall|k: int| 0 <= k < start ==> !#[trigger] run_free(s, k, cnt)
}

/// No run of `cnt` clear bits exists anywhere in `s`.
pub open spec fn no_free_run(s: Seq<bool>, cnt: int) -> bool {
    forall|k: int| !#[trigger] run_free(s, k, cnt)
}

/// A bitmap over a byte buffer; bit `i` lives in byte `i / 8` at position `i % 8`.
pub struct BitMap {
    bits: Vec<u8>,
}

proof fn lemma_bit_set_clear(b: u8, k: u8, j: u8)
    requires
        k < 8,
        j < 8,
    ensures
        (((b | (1u8 << k)) >> j) & 1u8 == 1u8) == (j == k || ((b >> j) & 1u8 == 1u8)),
        (((b & !(1u8 << k)) >> j) & 1u8 == 1u8) == (j != k && ((b >> j) & 1u8 == 1u8)),
{
    assert((((b | (1u8 << k)) >> j) & 1u8 == 1u8) == (j == k || ((b >> j) & 1u8 == 1u8)))
        by (bit_vector)
        requires
            k < 8,
            j < 8,
    ;
    assert((((b & !(1u8 << k)) >> j) & 1u8 == 1u8) == (j != k && ((b >> j) & 1u8 == 1u8)))
        by (bit_vector)
        requires
            k < 8,
            j < 8,
    ;
}

proof fn lemma_zero_byte(j: u8)
    requires
        j < 8,
    ensures
        ((0u8 >> j) & 1u8) != 1u8,
{
    assert(((0u8 >> j) & 1u8) != 1u8) by (bit_vector);
}

impl BitMap {
    /// The bits as a sequence of booleans (`true` = taken).
    pub closed spec fn view(&self) -> Seq<bool> {
        Seq::new((self.bits@.len() * 8) as nat, |i: int| bit_of(self.bits@[i / 8], i % 8))
    }

    /// Number of bytes backing the bitmap.
    pub closed spec fn byte_len(&self) -> nat {
        self.bits@.len()
    }

    /// The bitmap holds eight bits per byte.
    pub proof fn lemma_len(&self)
        ensures
            self.view().len() == self.byte_len() * 8,
    {
    }

    /// A bitmap over `bytes`, taking the buffer as it is.
    pub fn new(bytes: Vec<u8>) -> (map: Self)
        requires
            bytes.len() * 8 <= usize::MAX,
        ensures
            map.byte_len() == bytes.len(),
            map.view().len() == bytes.len() * 8,
            forall|i: int| 0 <= i < bytes.len() * 8 ==> #[trigger] map.view()[i] == bit_of(bytes@[i / 8], i % 8),
    {
        BitMap { bits: bytes }
    }

    /// A bitmap of `byte_cnt` bytes with every bit clear.
    pub fn empty(byte_cnt: usize) -> (map: Self)
        requires
            byte_cnt * 8 <= usize::MAX,
        ensures
            map.byte_len() == byte_cnt,
            map.view() == Seq::new((byte_cnt * 8) as nat, |i: int| false),
    {
        let mut bits: Vec<u8> = Vec::new();
        let mut i: usize = 0;
        while i < byte_cnt
            invariant
                i <= byte_cnt,
                bits@.len() == i,
                forall|j: int| 0 <= j < i ==> bits@[j] == 0u8,
            decreases byte_cnt - i,
        {
            bits.push(0u8);
            i = i + 1;
        }
        let map = BitMap { bits };
        proof {
            assert forall|j: int| 0 <= j < byte_cnt * 8 implies !#[trigger] map.view()[j] by {
                lemma_zero_byte((j % 8) as u8);
            }
            assert(map.view() =~= Seq::new((byte_cnt * 8) as nat, |i: int| false));
        }
        map
    }

    /// The number of bits the map holds.
    pub fn bit_len(&self) -> (n: usize)
        requires
            self.byte_len() * 8 <= usize::MAX,
        ensures
            n == self.view().len(),
    {
        self.bits.len() * 8
    }

    /// The bytes backing the bitmap.
    pub fn bytes(&self) -> (b: &Vec<u8>)
        ensures
            b@.len() == self.byte_len(),
            b@.len() * 8 == self.view().len(),
            forall|i: int| 0 <= i < self.view().len() ==> #[trigger] self.view()[i] == bit_of(b@[i / 8], i % 8),
    {
        &self.bits
    }

    /// Whether bit `idx` is set.
    pub fn is_set(&self, idx: usize) -> (r: bool)
        requires
            idx < self.view().len(),
        ensures
            r == self.view()[idx as int],
    {
        let k = (idx % 8) as u8;
        (self.bits[idx / 8] >> k) & 1u8 == 1u8
    }

    /// Sets bit `idx` to `value`; every other bit stays as it was.
    pub fn set_bit(&mut self, idx: usize, value: bool)
        requires
            idx < old(self).view().len(),
        ensures
            final(self).byte_len() == old(self).byte_len(),
            final(self).view() == old(self).view().update(idx as int, value),
    {
        let ghost before = self.view();
        let byte_idx = idx / 8;
        let k = (idx % 8) as u8;
        let old_byte = self.bits[byte_idx];
        let new_byte = if value { old_byte | (1u8 << k) } else { old_byte & !(1u8 << k) };
        self.bits.set(byte_idx, new_byte);
        proof {
            let after = self.view();
            assert forall|j: int| 0 <= j < after.len() implies #[trigger] after[j] == before.update(idx as int, value)[j] by {
                if j / 8 == byte_idx as int {
                    lemma_bit_set_clear(old_byte, k, (j % 8) as u8);
                }
            }
            assert(after =~= before.update(idx as int, value));
        }
    }

    /// Finds the lowest position at which `cnt` consecutive bits are clear.
    /// The bits themselves are left unchanged.
    pub fn apply_bits(&self, cnt: usize) -> (r: Result<usize, MemoryError>)
        requires
            self.byte_len() * 8 <= usize::MAX,
        ensures
            match r {
                Ok(start) => first_free_run(self.view(), start as int, cnt as int),
                Err(e) => e == MemoryError::MemInsufficient && no_free_run(self.view(), cnt as int),
            },
    {
        let len = self.bits.len() * 8;
        let ghost s = self.view();
        if cnt == 0 {
            assert(run_free(s, 0, 0));
            return Ok(0);
        }
        let mut i: usize = 0;
        let mut run: usize = 0;
        while i < len
            invariant
                len == s.len(),
                s == self.view(),
                cnt >= 1,
                i <= len,
                run <= i,
                run < cnt,
                forall|j: int| i - run <= j < i ==> !#[trigger] s[j],
                i - run == 0 || s[i - run - 1],
                forall|k: int| 0 <= k && k + cnt <= i ==> !#[trigger] run_free(s, k, cnt as int),
            decreases len - i,
        {
            let taken = self.is_set(i);
            if taken {
                proof {
                    assert forall|k: int| 0 <= k && k + cnt <= i + 1 implies !#[trigger] run_free(s, k, cnt as int) by {
                        if k + cnt == i + 1 {
                            assert(s[i as int]);
                        }
                    }
                }
                run = 0;
                i = i + 1;
            } else {
                run = run + 1;
                i = i + 1;
                if run == cnt {
                    let start = i - cnt;
                    proof {
                        assert(run_free(s, start as int, cnt as int));
                        assert forall|k: int| 0 <= k < start implies !#[trigger] run_free(s, k, cnt as int) by {
                            if k + cnt > i - 1 {
                                // a run starting at k would cover the taken bit just before `start`
                                assert(s[start - 1]);
                            }
                        }
                    }
                    return Ok(start);
                }
                proof {
                    assert forall|k: int| 0 <= k && k + cnt <= i implies !#[trigger] run_free(s, k, cnt as int) by {
                        if k + cnt == i {
                            if i - run > 0 {
                                assert(s[i - run - 1]);
                            }
                        }
                    }
                }
            }
        }
        proof {
            assert forall|k: int| !#[trigger] run_free(s, k, cnt as int) by {
                if 0 <= k && k + cnt <= len {
                }
            }
        }
        Err(MemoryError::MemInsufficient)
    }

    /// The number of clear bits.
    pub fn count_clear(&self) -> (n: usize)
        requires
            self.byte_len() * 8 <= usize::MAX,
        ensures
            n == count_free(self.view()),
    {
        let len = self.bits.len() * 8;
        let ghost s = self.view();
        let mut n: usize = 0;
        let mut i: usize = 0;
        while i < len
            invariant
                len == s.len(),
                s == self.view(),
                i <= len,
                n == count_free(s.subrange(0, i as int)),
                n <= i,
            decreases len - i,
        {
            proof {
                assert(s.subrange(0, i + 1).drop_last() =~= s.subrange(0, i as int));
            }
            if !self.is_set(i) {
                n = n + 1;
            }
            i = i + 1;
        }
        proof {
            assert(s.subrange(0, len as int) =~= s);
        }
        n
    }
}

/// Number of clear bits in `s`.
pub open spec fn count_free(s: Seq<bool>) -> nat
    decreases s.len(),
{
    if s.len() == 0 {
        0
    } else {
        count_free(s.drop_last()) + if s.last() { 0nat } else { 1nat }
    }
}

pub proof fn lemma_count_free_set(s: Seq<bool>, i: int)
    requires
        0 <= i < s.len(),
        !s[i],
    ensures
        count_free(s.update(i, true)) + 1 == count_free(s),
    decreases s.len(),
{
    if i < s.len() - 1 {
        lemma_count_free_set(s.drop_last(), i);
        assert(s.update(i, true).drop_last() =~= s.drop_last().update(i, true));
    } else {
        assert(s.update(i, true).drop_last() =~= s.drop_last());
    }
}

pub proof fn lemma_count_free_nonzero(s: Seq<bool>)
    requires
        count_free(s) > 0,
    ensures
        !no_free_run(s, 1),
    decreases s.len(),
{
    if s.last() {
        lemma_count_free_nonzero(s.drop_last());
        let k = choose|k: int| #[trigger] run_free(s.drop_last(), k, 1);
        assert(run_free(s.drop_last(), k, 1));
        assert(s.drop_last()[k] == s[k]);
        assert(run_free(s, k, 1));
    } else {
        assert(run_free(s, s.len() - 1, 1));
    }
}

/// A map with no bit set has all its bits free.
pub proof fn lemma_count_free_all(s: Seq<bool>)
    requires
        forall|i: int| 0 <= i < s.len() ==> !#[trigger] s[i],
    ensures
        count_free(s) == s.len(),
    decreases s.len(),
{
    if s.len() > 0 {
        lemma_count_free_all(s.drop_last());
    }
}

} // verus!
