//! A vector of bounded capacity that lives in storage lent by its caller.
//!
//! [`FixedVec`] binds a mutable slice and treats a prefix of it as the
//! elements of a growable array. Nothing is ever allocated: an operation
//! that would need more slots than the slice has reports
//! [`ErrorKind::NoSpace`] and leaves the vector as it was.
//!
//! Every operation is specified over the view of the vector, the sequence
//! of its active elements, and over its capacity.

pub mod error;
pub mod model;
pub mod fixed_vec;
pub mod iter;
pub mod equality;
pub mod laws;

pub use crate::error::ErrorKind;
pub use crate::fixed_vec::FixedVec;
pub use crate::iter::Iter;
