use vstd::prelude::*;

verus! {

/// Error returned by a queue that cannot take another element.
#[derive(Debug, Clone, Copy, PartialEq, Eq, Structural)]
pub enum QueueError {
    /// Every slot of the buffer is occupied.
    QueueFull,
}

/// Slot `k` places after `head` in a ring of `cap` slots.
pub open spec fn wrap(head: int, k: int, cap: int) -> int {
    if head + k < cap {
        head + k
    } else {
        head + k - cap
    }
}

/// A first-in first-out ring buffer over a fixed buffer.
pub struct ArrayQueue<T> {
    data: Vec<T>,
    head: usize,
    size: usize,
}

impl<T: Copy> ArrayQueue<T> {
    /// The elements in the order they will be polled.
    pub closed spec fn view(&self) -> Seq<T> {
        Seq::new(self.size as nat, |k: int| self.data@[wrap(self.head as int, k, self.data@.len() as int)])
    }

    /// The number of slots in the buffer.
    pub closed spec fn capacity(&self) -> nat {
        self.data@.len()
    }

    /// The queue's invariant.
    pub closed spec fn wf(&self) -> bool {
        &&& self.size <= self.data@.len()
        &&& self.data@.len() <= u32::MAX
        &&& (self.data@.len() > 0 ==> self.head < self.data@.len())
        &&& (self.data@.len() == 0 ==> self.head == 0)
    }

    /// A queue never holds more elements than it has slots.
    pub proof fn lemma_len(&self)
        requires
            self.wf(),
        ensures
            self.view().len() <= self.capacity(),
            self.capacity() <= u32::MAX,
    {
    }

    /// An empty queue whose slots are the elements of `data`.
    pub fn new(data: Vec<T>) -> (q: Self)
        requires
            data.len() <= u32::MAX,
        ensures
            q.wf(),
            q.view() == Seq::<T>::empty(),
            q.capacity() == data.len(),
    {
        let q = ArrayQueue { data, head: 0, size: 0 };
        assert(q.view() =~= Seq::<T>::empty());
        q
    }

    /// Adds `value` at the back; fails, and changes nothing, when the queue is full.
    pub fn append(&mut self, value: T) -> (r: Result<bool, QueueError>)
        requires
            old(self).wf(),
        ensures
            final(self).wf(),
            final(self).capacity() == old(self).capacity(),
            old(self).view().len() < old(self).capacity() ==> r == Ok::<bool, QueueError>(true)
                && final(self).view() == old(self).view().push(value),
            old(self).view().len() == old(self).capacity() ==> r == Err::<bool, QueueError>(
                QueueError::QueueFull,
            ) && final(self).view() == old(self).view(),
    {
        let cap = self.data.len();
        if self.size == cap {
            return Err(QueueError::QueueFull);
        }
        let ghost before = self.view();
        let tail = if self.size >= cap - self.head { self.size - (cap - self.head) } else { self.head + self.size };
        self.data.set(tail, value);
        self.size = self.size + 1;
        proof {
            let after = self.view();
            assert(after =~= before.push(value));
        }
        Ok(true)
    }

    /// Removes and returns the front element, or `None` when the queue is empty.
    pub fn poll(&mut self) -> (r: Option<T>)
        requires
            old(self).wf(),
        ensures
            final(self).wf(),
            final(self).capacity() == old(self).capacity(),
            old(self).view().len() == 0 ==> r == None::<T> && final(self).view() == old(self).view(),
            old(self).view().len() > 0 ==> r == Some(old(self).view()[0])
                && final(self).view() == old(self).view().drop_first(),
    {
        if self.size == 0 {
            return None;
        }
        let ghost before = self.view();
        let cap = self.data.len();
        let v = self.data[self.head];
        self.head = if self.head + 1 < cap { self.head + 1 } else { 0 };
        self.size = self.size - 1;
        proof {
            let after = self.view();
            assert(after =~= before.drop_first());
        }
        Some(v)
    }

    /// The number of queued elements.
    pub fn size(&self) -> (n: u32)
        requires
            self.wf(),
        ensures
            n == self.view().len(),
    {
        self.size as u32
    }

    pub fn is_empty(&self) -> (r: bool)
        ensures
            r == (self.view().len() == 0),
    {
        self.size == 0
    }

    pub fn is_full(&self) -> (r: bool)
        ensures
            r == (self.view().len() == self.capacity()),
    {
        self.size == self.data.len()
    }

    /// The slots of the underlying buffer.
    pub fn get_data(&self) -> (d: &Vec<T>)
        ensures
            d@.len() == self.capacity(),
    {
        &self.data
    }
}

/// Elements come out of a queue in the order they went in.
pub proof fn lemma_fifo<T>(q: Seq<T>, a: T, b: T)
    ensures
        q.push(a).push(b).drop_first() == (if q.len() == 0 { seq![b] } else { q.drop_first().push(a).push(b) }),
        q.len() == 0 ==> q.push(a).push(b)[0] == a,
{
    if q.len() == 0 {
        assert(q.push(a).push(b).drop_first() =~= seq![b]);
    } else {
        assert(q.push(a).push(b).drop_first() =~= q.drop_first().push(a).push(b));
    }
}

} // verus!
