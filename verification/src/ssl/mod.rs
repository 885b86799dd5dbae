//! Constants and the tag protocol shared by every opaque object.

use vstd::prelude::*;

pub mod err;
pub mod error_san;
pub mod safestack;
pub mod x509;

verus! {

/// Number of bytes in an integrity tag.
pub const MAGIC_SIZE: usize = 4;

/// The integrity tag that every live opaque object starts with.
pub const MAGIC: [u8; MAGIC_SIZE] = [0xc0, 0xd4, 0xc5, 0x09];

/// The tag that a destroyed object is left with. It differs from `MAGIC`.
pub const WIPED: [u8; MAGIC_SIZE] = [0, 0, 0, 0];

/// Status code of a failed call. It is negative, so it is never a count.
pub const SSL_FAILURE: libc::c_int = -1;

/// Status code of a successful call.
pub const SSL_SUCCESS: libc::c_int = 1;

/// Tells whether `tag` is the integrity tag of a live object.
pub fn tag_matches(tag: &[u8; MAGIC_SIZE]) -> (ok: bool)
    ensures
        ok == (tag@ == MAGIC@),
{
    let ok = tag[0] == MAGIC[0] && tag[1] == MAGIC[1] && tag[2] == MAGIC[2] && tag[3] == MAGIC[3];
    proof {
        if ok {
            assert(tag@ =~= MAGIC@);
        }
    }
    ok
}

/// An object that foreign callers hold by an opaque handle.
///
/// It carries an integrity tag, stamped when the object is built and checked
/// before any other part of the object is used.
pub trait MesalinkOpaquePointerType {
    /// The object carries the integrity tag of a live object.
    spec fn tagged(&self) -> bool;

    /// Compares the object's tag with the expected one.
    fn check_magic(&self) -> (ok: bool)
        ensures
            ok == self.tagged(),
    ;
}

} // verus!
