//! Digest and cipher.

pub mod hash;
pub mod hybrid;
