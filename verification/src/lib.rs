//! Opaque-handle safety layer for collections handed to foreign callers.
//!
//! A foreign caller holds a handle that may be absent, stale or of the wrong
//! type. Every operation first checks the handle against an integrity tag and
//! answers a failed check with a sentinel value instead of touching the object.

pub mod ssl;
