//! A dynamic array with bound checking.
//!
//! The vector owns a buffer of `capacity` element slots and keeps its
//! elements in the occupied prefix `[0, length)`, in index order. Positional
//! `insert` and `remove` shift the tail of the prefix one slot; when the
//! prefix fills the whole buffer, the capacity is doubled first.

use crate::error::ContainerError;
use crate::INITIAL_CAPACITY;
use vstd::prelude::*;

verus! {

/// A growable random-access container over the occupied prefix of an
/// owned slot buffer.
pub struct Vector<T> {
    /// Backing buffer; its length is the vector's capacity. Slots at
    /// indices below `length` hold the elements, the rest are vacant.
    buf: Vec<Option<T>>,
    /// Number of occupied slots.
    length: usize,
}

impl<T> View for Vector<T> {
    type V = Seq<T>;

    /// The mathematical contents: the occupied prefix, in index order.
    closed spec fn view(&self) -> Seq<T> {
        Seq::new(self.length as nat, |i: int| self.buf@[i]->0)
    }
}

impl<T: Copy> Vector<T> {
    /// Structural soundness: the occupied prefix fits in the buffer and
    /// every occupied slot holds a value.
    pub closed spec fn well_formed(self) -> bool {
        &&& self.length <= self.buf@.len()
        &&& self.buf@.len() >= 1
        &&& forall|i: int| 0 <= i < self.length ==> (#[trigger] self.buf@[i]) is Some
    }

    /// Total number of element slots currently allocated.
    pub closed spec fn spec_capacity(self) -> nat {
        self.buf@.len()
    }

    /// Creates a new, empty vector with the initial capacity.
    pub fn new() -> (v: Self)
        ensures
            v.well_formed(),
            v@ == Seq::<T>::empty(),
            v.spec_capacity() == INITIAL_CAPACITY,
    {
        let mut buf: Vec<Option<T>> = Vec::new();
        while buf.len() < INITIAL_CAPACITY
            invariant
                buf@.len() <= INITIAL_CAPACITY,
            decreases INITIAL_CAPACITY - buf@.len(),
        {
            buf.push(None);
        }
        let v = Vector { buf, length: 0 };
        proof {
            assert(v@ =~= Seq::<T>::empty());
        }
        v
    }

    /// Returns the number of elements that are stored in the vector.
    pub fn length(&self) -> (n: usize)
        ensures
            n == self@.len(),
    {
        self.length
    }

    /// Returns the number of element slots currently allocated.
    pub fn capacity(&self) -> (n: usize)
        ensures
            n == self.spec_capacity(),
    {
        self.buf.len()
    }

    /// Expands the capacity of the target vector, preserving the elements
    /// at their slots.
    fn expand(&mut self)
        requires
            old(self).well_formed(),
            old(self).spec_capacity() <= usize::MAX / 2,
        ensures
            final(self).well_formed(),
            final(self)@ == old(self)@,
            final(self).spec_capacity() == 2 * old(self).spec_capacity(),
    {
        let target: usize = self.buf.len() * 2;
        while self.buf.len() < target
            invariant
                old(self).buf@.len() <= self.buf@.len() <= target,
                self.buf@.subrange(0, old(self).buf@.len() as int) == old(self).buf@,
                self.length == old(self).length,
            decreases target - self.buf@.len(),
        {
            self.buf.push(None);
        }
        proof {
            assert(forall|i: int| 0 <= i < old(self).buf@.len() ==> self.buf@[i] == old(self).buf@[i]);
            assert(self@ =~= old(self)@);
        }
    }

    /// Inserts an element in a specific position of the vector, shifting
    /// the elements at and after that position one slot to the right.
    /// Inserting at `length` appends. The backing buffer grows first when
    /// it is full.
    pub fn insert(&mut self, index: usize, element: T)
        requires
            old(self).well_formed(),
            index <= old(self)@.len(),
            old(self)@.len() < usize::MAX / 2,
        ensures
            final(self).well_formed(),
            final(self)@ == old(self)@.insert(index as int, element),
            final(self).spec_capacity() == if old(self)@.len() == old(self).spec_capacity() {
                2 * old(self).spec_capacity()
            } else {
                old(self).spec_capacity()
            },
    {
        // The vector is full, thus expand its capacity.
        if self.length == self.buf.len() {
            self.expand();
        }
        let ghost pre = *self;
        // Shift right the elements at and after the insertion position,
        // highest index first.
        let mut j: usize = self.length;
        while j > index
            invariant
                pre.well_formed(),
                index <= j <= self.length,
                self.length == pre.length,
                self.length < self.buf@.len(),
                self.buf@.len() == pre.buf@.len(),
                forall|i: int| 0 <= i < j ==> self.buf@[i] == pre.buf@[i],
                forall|i: int| j < i <= self.length ==> self.buf@[i] == pre.buf@[i - 1],
            decreases j,
        {
            self.buf[j] = self.buf[j - 1];
            j = j - 1;
        }
        // Insert the element in the specified position.
        self.buf[index] = Some(element);
        self.length = self.length + 1;
        proof {
            assert forall|i: int| 0 <= i < self.length implies (#[trigger] self.buf@[i]) is Some by {
                if i < index {
                    assert(self.buf@[i] == pre.buf@[i]);
                    assert(pre.buf@[i] is Some);
                } else if index < i {
                    assert(self.buf@[i] == pre.buf@[i - 1]);
                    assert(pre.buf@[i - 1] is Some);
                }
            }
            assert(self@ =~= old(self)@.insert(index as int, element));
        }
    }

    /// Removes the element at a specific position of the vector, shifting
    /// the elements after it one slot to the left and returning it;
    /// reports `IndexOutOfBounds` when the position is not occupied.
    pub fn remove(&mut self, index: usize) -> (r: Result<T, ContainerError>)
        requires
            old(self).well_formed(),
        ensures
            final(self).well_formed(),
            final(self).spec_capacity() == old(self).spec_capacity(),
            index < old(self)@.len() ==> {
                &&& r == Ok::<T, ContainerError>(old(self)@[index as int])
                &&& final(self)@ == old(self)@.remove(index as int)
            },
            index >= old(self)@.len() ==> {
                &&& r == Err::<T, ContainerError>(ContainerError::IndexOutOfBounds)
                &&& final(self)@ == old(self)@
            },
    {
        // Out of bounds.
        if index >= self.length {
            return Err(ContainerError::IndexOutOfBounds);
        }
        let x: T = self.buf[index].unwrap();
        // Shift left the elements after the removal position.
        let mut j: usize = index;
        while j < self.length - 1
            invariant
                old(self).well_formed(),
                index < self.length,
                index <= j <= self.length - 1,
                self.length == old(self).length,
                self.buf@.len() == old(self).buf@.len(),
                forall|i: int| index <= i < j ==> self.buf@[i] == old(self).buf@[i + 1],
                forall|i: int|
                    (0 <= i < index || j <= i < self.buf@.len()) ==> self.buf@[i] == old(
                        self,
                    ).buf@[i],
            decreases self.length - j,
        {
            self.buf[j] = self.buf[j + 1];
            j = j + 1;
        }
        self.length = self.length - 1;
        proof {
            assert forall|i: int| 0 <= i < self.length implies (#[trigger] self.buf@[i]) is Some by {
                if index <= i {
                    assert(self.buf@[i] == old(self).buf@[i + 1]);
                }
            }
            assert(self@ =~= old(self)@.remove(index as int));
        }
        Ok(x)
    }

    /// Returns the element at a specific position of the vector; reports
    /// `IndexOutOfBounds` when the position is not occupied. No growth is
    /// triggered.
    pub fn index(&self, index: usize) -> (r: Result<T, ContainerError>)
        requires
            self.well_formed(),
        ensures
            index < self@.len() ==> r == Ok::<T, ContainerError>(self@[index as int]),
            index >= self@.len() ==> r == Err::<T, ContainerError>(ContainerError::IndexOutOfBounds),
    {
        if index >= self.length {
            return Err(ContainerError::IndexOutOfBounds);
        }
        Ok(self.buf[index].unwrap())
    }

    /// Overwrites the element at a specific position of the vector;
    /// reports `IndexOutOfBounds` when the position is not occupied. No
    /// growth is triggered.
    pub fn set(&mut self, index: usize, element: T) -> (r: Result<(), ContainerError>)
        requires
            old(self).well_formed(),
        ensures
            final(self).well_formed(),
            final(self).spec_capacity() == old(self).spec_capacity(),
            index < old(self)@.len() ==> {
                &&& r == Ok::<(), ContainerError>(())
                &&& final(self)@ == old(self)@.update(index as int, element)
            },
            index >= old(self)@.len() ==> {
                &&& r == Err::<(), ContainerError>(ContainerError::IndexOutOfBounds)
                &&& final(self)@ == old(self)@
            },
    {
        if index >= self.length {
            return Err(ContainerError::IndexOutOfBounds);
        }
        self.buf[index] = Some(element);
        proof {
            assert(self@ =~= old(self)@.update(index as int, element));
        }
        Ok(())
    }
}

/// Occupancy invariant: a well-formed vector never holds more elements
/// than its capacity has slots for. Every operation of [`Vector`]
/// requires and preserves well-formedness, so this bound holds before
/// and after each of them.
pub proof fn lemma_length_within_capacity<T: Copy>(v: Vector<T>)
    requires
        v.well_formed(),
    ensures
        0 <= v@.len() <= v.spec_capacity(),
{
}

/// Round-trip law: inserting `x` at position `i` and then removing at the
/// same position returns `x` and restores the prior contents, length
/// included.
pub proof fn lemma_insert_remove_round_trip<T>(s: Seq<T>, i: int, x: T)
    requires
        0 <= i <= s.len(),
    ensures
        s.insert(i, x)[i] == x,
        s.insert(i, x).remove(i) == s,
{
    assert(s.insert(i, x).remove(i) =~= s);
}

} // verus!
