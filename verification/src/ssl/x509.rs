//! The record that a stack of names holds.

use vstd::prelude::*;
use crate::ssl::{tag_matches, MesalinkOpaquePointerType, MAGIC, MAGIC_SIZE};

verus! {

/// What a name is worth: its tag and its encoded bytes.
pub struct NameModel {
    pub tag: Seq<u8>,
    pub bytes: Seq<u8>,
}

/// An encoded distinguished name, held by foreign callers through a handle.
#[allow(non_camel_case_types)]
#[derive(Debug, PartialEq, Eq)]
pub struct MESALINK_X509_NAME {
    magic: [u8; MAGIC_SIZE],
    name: Vec<u8>,
}

impl View for MESALINK_X509_NAME {
    type V = NameModel;

    closed spec fn view(&self) -> NameModel {
        NameModel { tag: self.magic@, bytes: self.name@ }
    }
}

impl MesalinkOpaquePointerType for MESALINK_X509_NAME {
    open spec fn tagged(&self) -> bool {
        self@.tag == MAGIC@
    }

    fn check_magic(&self) -> (ok: bool) {
        tag_matches(&self.magic)
    }
}

impl MESALINK_X509_NAME {
    /// A live name with the given encoding.
    pub fn new(name: Vec<u8>) -> (res: MESALINK_X509_NAME)
        ensures
            res@ == (NameModel { tag: MAGIC@, bytes: name@ }),
            res.tagged(),
    {
        MESALINK_X509_NAME { magic: MAGIC, name }
    }

    /// Reads a tag and an encoding found in foreign memory as a name. The tag
    /// is kept as found, so the result is live only if the tag is the
    /// expected one.
    pub fn with_magic(magic: [u8; MAGIC_SIZE], name: Vec<u8>) -> (res: MESALINK_X509_NAME)
        ensures
            res@ == (NameModel { tag: magic@, bytes: name@ }),
    {
        MESALINK_X509_NAME { magic, name }
    }

    /// The encoded bytes.
    pub fn as_bytes(&self) -> (bytes: &[u8])
        ensures
            bytes@ == self@.bytes,
    {
        self.name.as_slice()
    }
}

impl Clone for MESALINK_X509_NAME {
    /// A deep copy: tag and bytes of the copy are those of the name copied.
    fn clone(&self) -> (res: MESALINK_X509_NAME)
        ensures
            res@ == self@,
    {
        let name = self.name.clone();
        proof {
            assert(name@ =~= self.name@);
        }
        MESALINK_X509_NAME { magic: self.magic, name }
    }
}

} // verus!
