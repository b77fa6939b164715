//! Growable, contiguous-memory containers: a random-access vector, a LIFO
//! stack, and a FIFO queue backed by a circular buffer.
//!
//! All three containers share one growth contract: a backing buffer is
//! allocated eagerly for [`INITIAL_CAPACITY`] element slots and doubles in
//! capacity whenever an insertion would not fit. Capacity never shrinks.
//! Out-of-range accesses and accesses to empty containers are reported
//! through [`error::ContainerError`] instead of succeeding silently.

use vstd::prelude::*;

pub mod error;
pub mod queue;
pub mod stack;
pub mod vector;

pub use error::ContainerError;
pub use queue::Queue;
pub use stack::Stack;
pub use vector::Vector;

verus! {

/// Number of element slots every container allocates at construction.
pub const INITIAL_CAPACITY: usize = 1024;

/// The contents a container holds after the values `0 ..= n - 1` were
/// added to it, in that order.
pub open spec fn count_up(n: int) -> Seq<int>
    recommends
        n >= 0,
{
    Seq::new(n as nat, |i: int| i)
}

/// Adding `n` at the end of the contents built from `0 ..= n - 1` gives
/// the contents built from `0 ..= n`: pushing in counting order builds
/// `count_up` step by step.
pub proof fn lemma_count_up_push(n: int)
    requires
        n >= 0,
    ensures
        count_up(n).push(n) == count_up(n + 1),
{
    assert(count_up(n).push(n) =~= count_up(n + 1));
}

} // verus!
