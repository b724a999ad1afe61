//! The one recoverable failure of the container.

use vstd::prelude::*;

verus! {

/// Why an element could not be added.
#[derive(Debug, Clone, Copy, PartialEq, Eq, Structural)]
pub enum ErrorKind {
    /// The operation needs more free slots than the vector has left.
    NoSpace,
}

} // verus!
