//! A queue that can grow dynamically.
//!
//! The queue owns a buffer of `capacity` element slots and keeps its
//! elements in a region of `length` slots starting at the `front` cursor
//! and wrapping around the end of the buffer. `push_back` writes at the
//! `back` cursor and advances it; `pop_front` reads at `front` and
//! advances it. One slot is kept vacant as a guard, so the buffer grows
//! as soon as `length` reaches `capacity - 1`; growth copies the occupied
//! region into an unwrapped layout starting at slot 0, so element order
//! survives growing while wrapped.

use crate::error::ContainerError;
use crate::INITIAL_CAPACITY;
use vstd::prelude::*;

verus! {

/// Position of the slot `k` places after `i` in a circular buffer of
/// `cap` slots, for `i` within the buffer and `i + k` short of a full
/// second lap.
pub open spec fn ring_add(i: int, k: int, cap: int) -> int
    recommends
        0 <= i < cap,
        0 <= k <= cap,
{
    if i + k < cap {
        i + k
    } else {
        i + k - cap
    }
}

/// A growable FIFO container over a circular region of an owned slot
/// buffer.
pub struct Queue<T> {
    /// Backing buffer; its length is the queue's capacity. The `length`
    /// slots starting at `front`, modulo capacity, hold the elements.
    buf: Vec<Option<T>>,
    /// Number of occupied slots.
    length: usize,
    /// Slot holding the oldest element: the next read position.
    front: usize,
    /// Slot just past the newest element: the next write position.
    back: usize,
}

impl<T> View for Queue<T> {
    type V = Seq<T>;

    /// The mathematical contents, oldest element first.
    closed spec fn view(&self) -> Seq<T> {
        Seq::new(
            self.length as nat,
            |k: int| self.buf@[ring_add(self.front as int, k, self.buf@.len() as int)]->0,
        )
    }
}

impl<T: Copy> Queue<T> {
    /// Structural soundness: both cursors are valid slot indices, the
    /// guard slot keeps the occupied region strictly smaller than the
    /// buffer, `back` sits `length` slots after `front`, and every
    /// occupied slot holds a value.
    pub closed spec fn well_formed(self) -> bool {
        &&& self.buf@.len() >= 2
        &&& self.length < self.buf@.len()
        &&& self.front < self.buf@.len()
        &&& self.back == ring_add(self.front as int, self.length as int, self.buf@.len() as int)
        &&& forall|k: int|
            0 <= k < self.length ==> (#[trigger] self.buf@[ring_add(
                self.front as int,
                k,
                self.buf@.len() as int,
            )]) is Some
    }

    /// Total number of element slots currently allocated. One slot is a
    /// guard, so at most `capacity - 1` elements are held at a time.
    pub closed spec fn spec_capacity(self) -> nat {
        self.buf@.len()
    }

    /// Creates a new, empty queue with the initial capacity.
    pub fn new() -> (q: Self)
        ensures
            q.well_formed(),
            q@ == Seq::<T>::empty(),
            q.spec_capacity() == INITIAL_CAPACITY,
    {
        let mut buf: Vec<Option<T>> = Vec::new();
        while buf.len() < INITIAL_CAPACITY
            invariant
                buf@.len() <= INITIAL_CAPACITY,
            decreases INITIAL_CAPACITY - buf@.len(),
        {
            buf.push(None);
        }
        let q = Queue { buf, length: 0, front: 0, back: 0 };
        proof {
            assert(q@ =~= Seq::<T>::empty());
        }
        q
    }

    /// Returns the number of elements that are stored in the target queue.
    pub fn length(&self) -> (n: usize)
        ensures
            n == self@.len(),
    {
        self.length
    }

    /// Returns the number of element slots currently allocated.
    pub fn capacity(&self) -> (n: usize)
        ensures
            n == self.spec_capacity(),
    {
        self.buf.len()
    }

    /// Expands the capacity of the target queue. The occupied region is
    /// copied into an unwrapped layout starting at slot 0, so the
    /// element order is preserved even when the region wrapped around
    /// the end of the old buffer.
    fn expand(&mut self)
        requires
            old(self).well_formed(),
            old(self).spec_capacity() <= usize::MAX / 2,
        ensures
            final(self).well_formed(),
            final(self)@ == old(self)@,
            final(self).spec_capacity() == 2 * old(self).spec_capacity(),
    {
        let old_cap: usize = self.buf.len();
        let new_cap: usize = old_cap * 2;
        let mut nbuf: Vec<Option<T>> = Vec::new();
        let mut src: usize = self.front;
        let mut k: usize = 0;
        // Copy the occupied region, oldest element first.
        while k < self.length
            invariant
                self == old(self),
                old(self).well_formed(),
                old_cap == self.buf@.len(),
                k <= self.length,
                src == ring_add(self.front as int, k as int, old_cap as int),
                nbuf@.len() == k,
                forall|j: int|
                    0 <= j < k ==> nbuf@[j] == self.buf@[ring_add(
                        self.front as int,
                        j,
                        old_cap as int,
                    )],
            decreases self.length - k,
        {
            nbuf.push(self.buf[src]);
            src = if src + 1 == old_cap {
                0
            } else {
                src + 1
            };
            k = k + 1;
        }
        // Pad the remaining slots of the doubled buffer.
        while nbuf.len() < new_cap
            invariant
                self == old(self),
                self.length <= nbuf@.len() <= new_cap,
                forall|j: int|
                    0 <= j < self.length ==> nbuf@[j] == self.buf@[ring_add(
                        self.front as int,
                        j,
                        old_cap as int,
                    )],
            decreases new_cap - nbuf@.len(),
        {
            nbuf.push(None);
        }
        self.buf = nbuf;
        self.front = 0;
        self.back = self.length;
        proof {
            assert(self@ =~= old(self)@);
        }
    }

    /// Inserts an element at the back of the target queue, growing the
    /// backing buffer first when only the guard slot is left.
    pub fn push_back(&mut self, element: T)
        requires
            old(self).well_formed(),
            old(self)@.len() < usize::MAX / 2,
        ensures
            final(self).well_formed(),
            final(self)@ == old(self)@.push(element),
            final(self).spec_capacity() == if old(self)@.len() == old(self).spec_capacity() - 1 {
                2 * old(self).spec_capacity()
            } else {
                old(self).spec_capacity()
            },
    {
        // The queue is full, thus expand its capacity.
        if self.length == self.buf.len() - 1 {
            self.expand();
        }
        let cap: usize = self.buf.len();
        self.buf[self.back] = Some(element);
        self.back = if self.back + 1 == cap {
            0
        } else {
            self.back + 1
        };
        self.length = self.length + 1;
        proof {
            assert(self@ =~= old(self)@.push(element));
        }
    }

    /// Removes the oldest element from the target queue; reports
    /// `EmptyContainer` when there is none.
    pub fn pop_front(&mut self) -> (r: Result<T, ContainerError>)
        requires
            old(self).well_formed(),
        ensures
            final(self).well_formed(),
            final(self).spec_capacity() == old(self).spec_capacity(),
            old(self)@.len() > 0 ==> {
                &&& r == Ok::<T, ContainerError>(old(self)@.first())
                &&& final(self)@ == old(self)@.drop_first()
            },
            old(self)@.len() == 0 ==> {
                &&& r == Err::<T, ContainerError>(ContainerError::EmptyContainer)
                &&& final(self)@ == old(self)@
            },
    {
        if self.length == 0 {
            return Err(ContainerError::EmptyContainer);
        }
        let cap: usize = self.buf.len();
        proof {
            assert(self.buf@[ring_add(self.front as int, 0, cap as int)] is Some);
            assert(ring_add(self.front as int, 0, cap as int) == self.front as int);
        }
        let x: T = self.buf[self.front].unwrap();
        self.front = if self.front + 1 == cap {
            0
        } else {
            self.front + 1
        };
        self.length = self.length - 1;
        proof {
            let f0 = old(self).front as int;
            assert forall|k: int| 0 <= k < self.length implies (#[trigger] self.buf@[ring_add(
                self.front as int,
                k,
                cap as int,
            )]) is Some by {
                assert(ring_add(self.front as int, k, cap as int) == ring_add(f0, k + 1, cap as int));
                assert(old(self).buf@[ring_add(f0, k + 1, cap as int)] is Some);
            }
            assert(self@ =~= old(self)@.drop_first());
        }
        Ok(x)
    }
}

/// Occupancy invariant: a well-formed queue never holds more elements
/// than its capacity has slots for; one slot is kept vacant as a guard,
/// so the bound is strict. Every operation of [`Queue`] requires and
/// preserves well-formedness, so this bound holds before and after each
/// of them.
pub proof fn lemma_length_within_capacity<T: Copy>(q: Queue<T>)
    requires
        q.well_formed(),
    ensures
        0 <= q@.len() <= q.spec_capacity(),
        q@.len() < q.spec_capacity(),
{
}

/// The values yielded by popping a queue from the front until it is
/// empty, in pop order.
///
/// Each step takes the current oldest element, exactly as `pop_front`
/// reports it.
pub open spec fn popped_fifo<T>(s: Seq<T>) -> Seq<T>
    decreases s.len(),
{
    if s.len() == 0 {
        Seq::empty()
    } else {
        seq![s.first()] + popped_fifo(s.drop_first())
    }
}

/// FIFO law: popping a queue from the front until it is empty yields its
/// contents in insertion order. In particular, pushing `0 ..= n - 1` in
/// order and then popping `n` times yields `0, 1, ..., n - 1`.
pub proof fn lemma_queue_fifo_order<T>(s: Seq<T>)
    ensures
        popped_fifo(s) == s,
    decreases s.len(),
{
    if s.len() == 0 {
        assert(popped_fifo(s) =~= s);
    } else {
        lemma_queue_fifo_order(s.drop_first());
        assert(popped_fifo(s) =~= s);
    }
}

/// The FIFO law on a counting workload: a queue that holds
/// `0 ..= n - 1`, pushed in that order, pops `k` as its `k`-th value.
pub proof fn lemma_queue_pops_counting_workload(n: int, k: int)
    requires
        0 <= k < n,
    ensures
        popped_fifo(crate::count_up(n))[k] == k,
{
    lemma_queue_fifo_order(crate::count_up(n));
}

} // verus!
