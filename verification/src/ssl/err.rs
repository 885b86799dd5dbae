//! The failures that a call on an opaque handle can end in.

use vstd::prelude::*;

verus! {

/// Why a call on an opaque handle was refused.
#[derive(Clone, Copy, Debug, PartialEq, Eq, Structural)]
pub enum ErrorCode {
    /// The handle, or an item handed in by reference, was absent.
    NullPointer,
    /// The object behind the handle does not carry the integrity tag.
    TypeMismatch,
    /// An index lay outside the elements that the collection holds.
    BadArgument,
}

/// What an operation yields before its failure is turned into a sentinel.
pub type MesalinkInnerResult<T> = Result<T, ErrorCode>;

} // verus!
