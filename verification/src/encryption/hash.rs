//! Digests: SHA3-256 of a buffer, or of input that arrives in pieces.

use sha3::Digest;
use vstd::prelude::*;

verus! {

/// Number of bytes in a digest.
pub const DIGEST_LEN: usize = 32;

/// The SHA3-256 digest of a byte sequence, as the `sha3` crate computes it.
/// The digest is unkeyed: it reveals corruption of the bytes it covers, and
/// gives no protection against a party that can replace bytes and digest
/// together.
pub uninterp spec fn sha3_256_digest(data: Seq<u8>) -> [u8; 32];

/// A running SHA3-256 computation over input that arrives in pieces.
///
/// The hasher of the `sha3` crate is kept in a private field; all that the
/// library says of it goes through [`absorbed`].
#[verifier::external_body]
pub struct Sha3Hasher {
    inner: sha3::Sha3_256,
}

/// The bytes that a hasher has taken in so far, in the order of arrival.
pub uninterp spec fn absorbed(hasher: Sha3Hasher) -> Seq<u8>;

/// `sha3::Sha3_256::new` (`Digest::new`): a hasher that has taken in nothing.
#[verifier::external_body]
fn hasher_new() -> (hasher: Sha3Hasher)
    ensures
        absorbed(hasher) == Seq::<u8>::empty(),
{
    Sha3Hasher { inner: sha3::Sha3_256::new() }
}

/// `Digest::update`: the hasher takes in `data` after what it already holds.
#[verifier::external_body]
fn hasher_update(hasher: &mut Sha3Hasher, data: &[u8])
    ensures
        absorbed(*final(hasher)) == absorbed(*old(hasher)) + data@,
{
    hasher.inner.update(data)
}

/// `Digest::finalize`: the 32-byte SHA3-256 digest of everything taken in.
#[verifier::external_body]
fn hasher_finalize(hasher: Sha3Hasher) -> (digest: Vec<u8>)
    ensures
        digest@ == sha3_256_digest(absorbed(hasher))@,
{
    hasher.inner.finalize().to_vec()
}

impl View for Sha3Hasher {
    type V = Seq<u8>;

    open spec fn view(&self) -> Seq<u8> {
        absorbed(*self)
    }
}

impl Sha3Hasher {
    /// A hasher over the empty input.
    pub fn new() -> (hasher: Self)
        ensures
            hasher@ == Seq::<u8>::empty(),
    {
        hasher_new()
    }

    /// Appends one chunk to the input.
    pub fn update(&mut self, chunk: &[u8])
        ensures
            final(self)@ == old(self)@ + chunk@,
    {
        hasher_update(self, chunk)
    }

    /// Ends the computation: the digest of all chunks, concatenated in the
    /// order in which they were given.
    pub fn finalize(self) -> (digest: Vec<u8>)
        ensures
            digest@ == sha3_256_digest(self@)@,
            digest@.len() == DIGEST_LEN,
    {
        hasher_finalize(self)
    }
}

/// Digest of a buffer held in memory.
pub fn sha3_256(buf: &[u8]) -> (bufhash: Vec<u8>)
    ensures
        bufhash@ == sha3_256_digest(buf@)@,
        bufhash@.len() == DIGEST_LEN,
{
    let mut hasher = Sha3Hasher::new();
    hasher.update(buf);
    hasher.finalize()
}

} // verus!
