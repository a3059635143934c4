//! Why a buffer could not be read or written.
use vstd::prelude::*;

verus! {

/// A failure of validation or of allocation.
#[allow(inconsistent_fields)]
#[derive(Debug, PartialEq, Eq)]
pub enum Error {
    /// A character field holds a number that is no Unicode scalar value.
    Char { value: u32 },
    /// A sum type's tag byte names no variant.
    Discriminant { value: u8, maximum: u8, ty: &'static str },
    /// A growable buffer could not reserve more room.
    Allocation { source: std::collections::TryReserveError },
}

} // verus!
