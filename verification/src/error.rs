//! Error values shared by all containers.
//!
//! Every fallible operation reports its failure through a recoverable
//! [`ContainerError`] value rather than halting; allocation failure is the
//! one fatal condition left to the allocator itself.

use vstd::prelude::*;

verus! {

/// Why a container operation could not be carried out.
#[derive(Clone, Copy, Debug, PartialEq, Eq, Structural)]
pub enum ContainerError {
    /// A positional access or mutation used an index at or past the
    /// current length.
    IndexOutOfBounds,
    /// `pop`, `top`, or `pop_front` was invoked while the container held
    /// no elements.
    EmptyContainer,
}

} // verus!
