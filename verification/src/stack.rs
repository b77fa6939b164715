//! A stack that can grow dynamically.
//!
//! The stack owns a buffer of `capacity` element slots and keeps its
//! elements in the occupied prefix `[0, length)`; the top of the stack is
//! always slot `length - 1`. Only the end of the prefix is ever mutated,
//! so every operation runs in constant time apart from growth.

use crate::error::ContainerError;
use crate::INITIAL_CAPACITY;
use vstd::prelude::*;

verus! {

/// A growable LIFO container over the occupied prefix of an owned slot
/// buffer.
pub struct Stack<T> {
    /// Backing buffer; its length is the stack's capacity. Slots at
    /// indices below `length` hold the elements, the rest are vacant.
    buf: Vec<Option<T>>,
    /// Number of occupied slots.
    length: usize,
}

impl<T> View for Stack<T> {
    type V = Seq<T>;

    /// The mathematical contents, bottom of the stack first.
    closed spec fn view(&self) -> Seq<T> {
        Seq::new(self.length as nat, |i: int| self.buf@[i]->0)
    }
}

impl<T: Copy> Stack<T> {
    /// Structural soundness: the occupied prefix fits in the buffer and
    /// every occupied slot holds a value.
    pub closed spec fn well_formed(self) -> bool {
        &&& self.length <= self.buf@.len()
        &&& self.buf@.len() >= 1
        &&& forall|i: int| 0 <= i < self.length ==> (#[trigger] self.buf@[i]) is Some
    }

    /// Total number of element slots currently allocated.
    pub closed spec fn spec_capacity(self) -> nat {
        self.buf@.len()
    }

    /// Creates a new, empty stack with the initial capacity.
    pub fn new() -> (s: Self)
        ensures
            s.well_formed(),
            s@ == Seq::<T>::empty(),
            s.spec_capacity() == INITIAL_CAPACITY,
    {
        let mut buf: Vec<Option<T>> = Vec::new();
        while buf.len() < INITIAL_CAPACITY
            invariant
                buf@.len() <= INITIAL_CAPACITY,
            decreases INITIAL_CAPACITY - buf@.len(),
        {
            buf.push(None);
        }
        let s = Stack { buf, length: 0 };
        proof {
            assert(s@ =~= Seq::<T>::empty());
        }
        s
    }

    /// Returns the number of elements that are stored in the target stack.
    pub fn length(&self) -> (n: usize)
        ensures
            n == self@.len(),
    {
        self.length
    }

    /// Returns the number of element slots currently allocated.
    pub fn capacity(&self) -> (n: usize)
        ensures
            n == self.spec_capacity(),
    {
        self.buf.len()
    }

    /// Expands the capacity of the target stack, preserving the elements
    /// at their slots.
    fn expand(&mut self)
        requires
            old(self).well_formed(),
            old(self).spec_capacity() <= usize::MAX / 2,
        ensures
            final(self).well_formed(),
            final(self)@ == old(self)@,
            final(self).spec_capacity() == 2 * old(self).spec_capacity(),
    {
        let target: usize = self.buf.len() * 2;
        while self.buf.len() < target
            invariant
                old(self).buf@.len() <= self.buf@.len() <= target,
                self.buf@.subrange(0, old(self).buf@.len() as int) == old(self).buf@,
                self.length == old(self).length,
            decreases target - self.buf@.len(),
        {
            self.buf.push(None);
        }
        proof {
            assert(forall|i: int| 0 <= i < old(self).buf@.len() ==> self.buf@[i] == old(self).buf@[i]);
            assert(self@ =~= old(self)@);
        }
    }

    /// Inserts an element at the top of the target stack, growing the
    /// backing buffer first when it is full.
    pub fn push(&mut self, element: T)
        requires
            old(self).well_formed(),
            old(self)@.len() < usize::MAX / 2,
        ensures
            final(self).well_formed(),
            final(self)@ == old(self)@.push(element),
            final(self).spec_capacity() == if old(self)@.len() == old(self).spec_capacity() {
                2 * old(self).spec_capacity()
            } else {
                old(self).spec_capacity()
            },
    {
        // The stack is full, thus expand its capacity.
        if self.length == self.buf.len() {
            self.expand();
        }
        self.buf[self.length] = Some(element);
        self.length = self.length + 1;
        proof {
            assert(self@ =~= old(self)@.push(element));
        }
    }

    /// Removes the top element from the target stack; reports
    /// `EmptyContainer` when there is none.
    pub fn pop(&mut self) -> (r: Result<T, ContainerError>)
        requires
            old(self).well_formed(),
        ensures
            final(self).well_formed(),
            final(self).spec_capacity() == old(self).spec_capacity(),
            old(self)@.len() > 0 ==> {
                &&& r == Ok::<T, ContainerError>(old(self)@.last())
                &&& final(self)@ == old(self)@.drop_last()
            },
            old(self)@.len() == 0 ==> {
                &&& r == Err::<T, ContainerError>(ContainerError::EmptyContainer)
                &&& final(self)@ == old(self)@
            },
    {
        if self.length == 0 {
            return Err(ContainerError::EmptyContainer);
        }
        let x: T = self.buf[self.length - 1].unwrap();
        self.length = self.length - 1;
        proof {
            assert(self@ =~= old(self)@.drop_last());
        }
        Ok(x)
    }

    /// Returns the top element of the target stack without removing it;
    /// reports `EmptyContainer` when there is none.
    pub fn top(&self) -> (r: Result<T, ContainerError>)
        requires
            self.well_formed(),
        ensures
            self@.len() > 0 ==> r == Ok::<T, ContainerError>(self@.last()),
            self@.len() == 0 ==> r == Err::<T, ContainerError>(ContainerError::EmptyContainer),
    {
        if self.length == 0 {
            return Err(ContainerError::EmptyContainer);
        }
        Ok(self.buf[self.length - 1].unwrap())
    }

    /// Overwrites the top element of the target stack; reports
    /// `EmptyContainer` when there is none.
    pub fn set_top(&mut self, element: T) -> (r: Result<(), ContainerError>)
        requires
            old(self).well_formed(),
        ensures
            final(self).well_formed(),
            final(self).spec_capacity() == old(self).spec_capacity(),
            old(self)@.len() > 0 ==> {
                &&& r == Ok::<(), ContainerError>(())
                &&& final(self)@ == old(self)@.update(old(self)@.len() - 1, element)
            },
            old(self)@.len() == 0 ==> {
                &&& r == Err::<(), ContainerError>(ContainerError::EmptyContainer)
                &&& final(self)@ == old(self)@
            },
    {
        if self.length == 0 {
            return Err(ContainerError::EmptyContainer);
        }
        self.buf[self.length - 1] = Some(element);
        proof {
            assert(self@ =~= old(self)@.update(old(self)@.len() - 1, element));
        }
        Ok(())
    }
}

/// Occupancy invariant: a well-formed stack never holds more elements
/// than its capacity has slots for. Every operation of [`Stack`]
/// requires and preserves well-formedness, so this bound holds before
/// and after each of them.
pub proof fn lemma_length_within_capacity<T: Copy>(s: Stack<T>)
    requires
        s.well_formed(),
    ensures
        0 <= s@.len() <= s.spec_capacity(),
{
}

/// The values yielded by popping a stack until it is empty, in pop order.
///
/// Each step takes the current top, exactly as `pop` reports it.
pub open spec fn popped_lifo<T>(s: Seq<T>) -> Seq<T>
    decreases s.len(),
{
    if s.len() == 0 {
        Seq::empty()
    } else {
        seq![s.last()] + popped_lifo(s.drop_last())
    }
}

/// LIFO law: popping a stack until it is empty yields its contents in
/// reverse order of insertion. In particular, pushing `0 ..= n - 1` in
/// order and then popping `n` times yields `n - 1, n - 2, ..., 0`.
pub proof fn lemma_stack_lifo_order<T>(s: Seq<T>)
    ensures
        popped_lifo(s) == s.reverse(),
    decreases s.len(),
{
    if s.len() == 0 {
        assert(popped_lifo(s) =~= s.reverse());
    } else {
        lemma_stack_lifo_order(s.drop_last());
        assert(popped_lifo(s) =~= s.reverse());
    }
}

/// The LIFO law on a counting workload: a stack that holds
/// `0 ..= n - 1`, pushed in that order, pops `n - 1 - k` as its `k`-th
/// value.
pub proof fn lemma_stack_pops_counting_workload(n: int, k: int)
    requires
        0 <= k < n,
    ensures
        popped_lifo(crate::count_up(n))[k] == n - 1 - k,
{
    lemma_stack_lifo_order(crate::count_up(n));
}

} // verus!
