//! The validation layer: from an untrusted handle to a checked reference.

use vstd::prelude::*;
use crate::ssl::err::{ErrorCode, MesalinkInnerResult};
use crate::ssl::MesalinkOpaquePointerType;

verus! {

/// What validation makes of a handle: the object behind it, or the reason
/// why it must not be used.
pub open spec fn validated<T: MesalinkOpaquePointerType>(ptr: Option<&T>) -> Result<&T, ErrorCode> {
    match ptr {
        None => Err(ErrorCode::NullPointer),
        Some(obj) => if obj.tagged() {
            Ok(obj)
        } else {
            Err(ErrorCode::TypeMismatch)
        },
    }
}

/// What a handle is worth: nothing, or the view of the object behind it.
pub open spec fn pointee<T: View>(ptr: Option<&T>) -> Option<T::V> {
    match ptr {
        None => None,
        Some(obj) => Some(obj@),
    }
}

/// Checks a read-only handle. An absent handle is refused as `NullPointer`,
/// an object without the integrity tag as `TypeMismatch`; any other handle
/// comes back as a reference to the same object.
pub fn sanitize_const_ptr_for_ref<'a, T: MesalinkOpaquePointerType>(ptr: Option<&'a T>) -> (res:
    MesalinkInnerResult<&'a T>)
    ensures
        res == validated(ptr),
{
    match ptr {
        None => Err(ErrorCode::NullPointer),
        Some(obj) => {
            if obj.check_magic() {
                Ok(obj)
            } else {
                Err(ErrorCode::TypeMismatch)
            }
        },
    }
}

/// Checks a handle that the caller may write through. The checks are those
/// of `sanitize_const_ptr_for_ref`. A refused object is left as it was; an
/// accepted one comes back as the same mutable reference.
pub fn sanitize_ptr_for_mut_ref<'a, T: MesalinkOpaquePointerType>(ptr: Option<&'a mut T>) -> (res:
    MesalinkInnerResult<&'a mut T>)
    ensures
        match ptr {
            None => res matches Err(e) && e == ErrorCode::NullPointer,
            Some(obj) => if obj.tagged() {
                res matches Ok(checked) && *checked == *obj && *final(obj) == *final(checked)
            } else {
                res matches Err(e) && e == ErrorCode::TypeMismatch && *final(obj) == *obj
            },
        },
{
    match ptr {
        None => Err(ErrorCode::NullPointer),
        Some(obj) => {
            if obj.check_magic() {
                Ok(obj)
            } else {
                Err(ErrorCode::TypeMismatch)
            }
        },
    }
}

} // verus!
