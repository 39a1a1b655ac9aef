use vstd::prelude::*;

use crate::queue::ArrayQueue;
use crate::sync::Semaphore;

verus! {

/// What became of a `put`.
#[derive(Debug, Clone, Copy, PartialEq, Eq, Structural)]
pub enum PutOutcome {
    /// The element was queued.
    Done,
    /// The queue is full: the producer must wait, nothing changed.
    Blocked,
}

/// What became of a `take`.
#[derive(Debug, PartialEq, Eq, Structural)]
pub enum TakeOutcome<T> {
    /// An element was taken, or `None` once the queue is drained and ended.
    Taken(Option<T>),
    /// Nothing to take yet: the consumer must wait, nothing changed.
    Blocked,
}

/// A queue whose producer and consumer wait on each other.
pub trait BlockingQueue<T: Copy> {
    /// The queue's invariant.
    spec fn inv(&self) -> bool;

    /// The queued elements, front first.
    spec fn contents(&self) -> Seq<T>;

    /// Whether producing has ended.
    spec fn is_ended(&self) -> bool;

    /// Whether a `take` can be carried out without a counter overflowing.
    spec fn can_take(&self) -> bool;

    /// The number of slots.
    spec fn slots(&self) -> nat;

    /// Puts one element; blocks while the queue is full.
    fn put(&mut self, ele: T) -> (r: PutOutcome)
        requires
            old(self).inv(),
            !old(self).is_ended(),
        ensures
            final(self).inv(),
            !final(self).is_ended(),
            final(self).slots() == old(self).slots(),
            r == PutOutcome::Done <==> old(self).contents().len() < old(self).slots(),
            r == PutOutcome::Done ==> final(self).contents() == old(self).contents().push(ele),
            r == PutOutcome::Blocked ==> final(self).contents() == old(self).contents(),
    ;

    /// Takes one element; blocks while nothing is queued and producing has not ended.
    fn take(&mut self) -> (r: TakeOutcome<T>)
        requires
            old(self).inv(),
            old(self).can_take(),
        ensures
            final(self).inv(),
            final(self).is_ended() == old(self).is_ended(),
            final(self).slots() == old(self).slots(),
            r == TakeOutcome::<T>::Blocked <==> (!old(self).is_ended() && old(self).contents().len() == 0),
            r == TakeOutcome::<T>::Blocked ==> final(self).contents() == old(self).contents(),
            r == TakeOutcome::Taken(None::<T>) ==> old(self).contents().len() == 0 && final(self).contents() == old(self).contents(),
            forall|x: T| r == TakeOutcome::Taken(Some(x)) ==> old(self).contents().len() > 0
                && x == old(self).contents()[0] && final(self).contents() == old(self).contents().drop_first(),
    ;

    /// Ends producing, so that a drained queue no longer blocks its consumer.
    fn end(&mut self) -> (r: PutOutcome)
        requires
            old(self).inv(),
            !old(self).is_ended(),
        ensures
            final(self).inv(),
            final(self).slots() == old(self).slots(),
            final(self).contents() == old(self).contents(),
            r == PutOutcome::Done ==> final(self).is_ended(),
            r == PutOutcome::Blocked ==> !final(self).is_ended(),
    ;

    /// The slots of the underlying buffer.
    fn get_data(&self) -> &Vec<T>;
}

/// A blocking queue over a fixed buffer.
pub struct ArrayBlockingQueue<T> {
    queue: ArrayQueue<T>,
    producer: Semaphore,
    consumer: Semaphore,
    end: bool,
}

impl<T: Copy> ArrayBlockingQueue<T> {
    /// The queued elements, front first.
    pub closed spec fn view(&self) -> Seq<T> {
        self.queue.view()
    }

    pub closed spec fn capacity(&self) -> nat {
        self.queue.capacity()
    }

    /// Permits left to producers.
    pub closed spec fn producer_permits(&self) -> nat {
        self.producer.value as nat
    }

    /// Permits left to the consumer.
    pub closed spec fn consumer_permits(&self) -> nat {
        self.consumer.value as nat
    }

    /// Whether producing has ended.
    pub closed spec fn ended(&self) -> bool {
        self.end
    }

    /// The queue's invariant.
    pub closed spec fn wf(&self) -> bool {
        &&& self.queue.wf()
        &&& self.queue.capacity() < u32::MAX
        &&& !self.end ==> self.producer.value + self.queue.view().len() == self.queue.capacity()
        &&& !self.end ==> self.consumer.value == self.queue.view().len()
    }

    /// What the invariant says of the counters: before the end, the producer
    /// holds one permit per free slot and the consumer one per queued element.
    pub proof fn lemma_counts(&self)
        requires
            self.wf(),
        ensures
            self.view().len() <= self.capacity(),
            self.capacity() < u32::MAX,
            !self.ended() ==> self.producer_permits() + self.view().len() == self.capacity(),
            !self.ended() ==> self.consumer_permits() == self.view().len(),
    {
        self.queue.lemma_len();
    }

    /// An empty queue over `data`: one producer permit per slot, none for the consumer.
    pub fn new(data: Vec<T>) -> (q: Self)
        requires
            data.len() < u32::MAX,
        ensures
            q.wf(),
            q.view() == Seq::<T>::empty(),
            q.capacity() == data.len(),
            q.producer_permits() == data.len(),
            q.consumer_permits() == 0,
            !q.ended(),
    {
        let cap = data.len() as u32;
        ArrayBlockingQueue {
            producer: Semaphore::new(cap),
            consumer: Semaphore::new(0),
            queue: ArrayQueue::new(data),
            end: false,
        }
    }

    /// Marks producing as ended, without waiting for a permit.
    pub fn mark_end(&mut self)
        requires
            old(self).wf(),
        ensures
            final(self).wf(),
            final(self).ended(),
            final(self).view() == old(self).view(),
            final(self).capacity() == old(self).capacity(),
            final(self).producer_permits() == old(self).producer_permits(),
            final(self).consumer_permits() == old(self).consumer_permits(),
    {
        self.end = true;
    }

    /// The number of queued elements.
    pub fn size(&self) -> (n: u32)
        requires
            self.wf(),
        ensures
            n == self.view().len(),
    {
        self.queue.size()
    }

    pub fn is_empty(&self) -> (r: bool)
        ensures
            r == (self.view().len() == 0),
    {
        self.queue.is_empty()
    }

    pub fn is_full(&self) -> (r: bool)
        ensures
            r == (self.view().len() == self.capacity()),
    {
        self.queue.is_full()
    }




}


impl<T: Copy> BlockingQueue<T> for ArrayBlockingQueue<T> {
    open spec fn inv(&self) -> bool {
        self.wf()
    }

    open spec fn contents(&self) -> Seq<T> {
        self.view()
    }

    open spec fn is_ended(&self) -> bool {
        self.ended()
    }

    open spec fn can_take(&self) -> bool {
        self.producer_permits() < u32::MAX
    }

    open spec fn slots(&self) -> nat {
        self.capacity()
    }

    /// Puts `ele` when a producer permit is left; otherwise reports `Blocked`.
    fn put(&mut self, ele: T) -> (r: PutOutcome)
        ensures
            final(self).wf(),
            final(self).capacity() == old(self).capacity(),
            final(self).ended() == old(self).ended(),
            r == (if old(self).producer_permits() > 0 { PutOutcome::Done } else { PutOutcome::Blocked }),
            r == PutOutcome::Done <==> old(self).view().len() < old(self).capacity(),
            r == PutOutcome::Done ==> final(self).view() == old(self).view().push(ele)
                && final(self).producer_permits() == old(self).producer_permits() - 1
                && final(self).consumer_permits() == old(self).consumer_permits() + 1,
            r == PutOutcome::Blocked ==> final(self).view() == old(self).view()
                && final(self).producer_permits() == old(self).producer_permits()
                && final(self).consumer_permits() == old(self).consumer_permits(),
    {
        if !self.producer.down() {
            return PutOutcome::Blocked;
        }
        let _ = self.queue.append(ele);
        self.consumer.up();
        PutOutcome::Done
    }

    /// Takes the front element. Before the end it waits (reports `Blocked`) while
    /// no consumer permit is left; after the end it never waits.
    fn take(&mut self) -> (r: TakeOutcome<T>)
        ensures
            final(self).wf(),
            final(self).capacity() == old(self).capacity(),
            final(self).ended() == old(self).ended(),
            r == TakeOutcome::<T>::Blocked <==> (!old(self).ended() && old(self).consumer_permits() == 0),
            r == TakeOutcome::<T>::Blocked <==> (!old(self).ended() && old(self).view().len() == 0),
            r == TakeOutcome::<T>::Blocked ==> final(self).view() == old(self).view()
                && final(self).producer_permits() == old(self).producer_permits()
                && final(self).consumer_permits() == old(self).consumer_permits(),
            r != TakeOutcome::<T>::Blocked ==> {
                &&& r == TakeOutcome::Taken(
                    if old(self).view().len() > 0 { Some(old(self).view()[0]) } else { None::<T> },
                )
                &&& final(self).view() == (if old(self).view().len() > 0 {
                    old(self).view().drop_first()
                } else {
                    old(self).view()
                })
                &&& final(self).producer_permits() == old(self).producer_permits() + 1
                &&& final(self).consumer_permits() == (if old(self).ended() {
                    old(self).consumer_permits()
                } else {
                    (old(self).consumer_permits() - 1) as nat
                })
            },
    {
        if !self.end {
            if !self.consumer.down() {
                return TakeOutcome::Blocked;
            }
        }
        let ele = self.queue.poll();
        self.producer.up();
        TakeOutcome::Taken(ele)
    }

    /// Ends producing: takes a producer permit (reports `Blocked` when none is
    /// left), marks the end and gives the consumer a permit.
    fn end(&mut self) -> (r: PutOutcome)
        ensures
            final(self).wf(),
            final(self).capacity() == old(self).capacity(),
            final(self).view() == old(self).view(),
            r == (if old(self).producer_permits() > 0 { PutOutcome::Done } else { PutOutcome::Blocked }),
            r == PutOutcome::Done ==> final(self).ended()
                && final(self).producer_permits() == old(self).producer_permits() - 1
                && final(self).consumer_permits() == old(self).consumer_permits() + 1,
            r == PutOutcome::Blocked ==> !final(self).ended()
                && final(self).producer_permits() == old(self).producer_permits()
                && final(self).consumer_permits() == old(self).consumer_permits(),
    {
        if !self.producer.down() {
            return PutOutcome::Blocked;
        }
        self.end = true;
        self.consumer.up();
        PutOutcome::Done
    }

    fn get_data(&self) -> (d: &Vec<T>)
        ensures
            d@.len() == self.capacity(),
    {
        self.queue.get_data()
    }
}

} // verus!
