//! Streaming SHA-256 digests, computed by the `sha2` crate. The digest of a
//! byte string is modelled by the uninterpreted `sha256_of`; a hasher is
//! opaque, and `sha_absorbed` names the bytes it has taken in so far.

use vstd::prelude::*;
use sha2::Digest;

verus! {

/// The SHA-256 digest (32 bytes) of a byte string.
pub uninterp spec fn sha256_of(data: Seq<u8>) -> Seq<u8>;

/// A running SHA-256 computation over a stream of bytes, backed by
/// `sha2::Sha256`. (The hasher's concrete type is a deep generic alias that
/// cannot be declared to the verifier, so the whole struct is opaque.)
#[verifier::external_body]
pub struct ShaStream {
    inner: sha2::Sha256,
}

/// The bytes a hasher has absorbed so far.
pub uninterp spec fn sha_absorbed(h: ShaStream) -> Seq<u8>;

impl ShaStream {
    /// Relies on sha2::Sha256::new: a fresh hasher has absorbed nothing.
    #[verifier::external_body]
    pub fn new() -> (r: ShaStream)
        ensures
            sha_absorbed(r) == Seq::<u8>::empty(),
    {
        ShaStream { inner: sha2::Sha256::new() }
    }

    /// Relies on sha2::Sha256::update: absorbs the given bytes after the ones
    /// already absorbed.
    #[verifier::external_body]
    pub fn update(&mut self, data: &[u8])
        ensures
            sha_absorbed(*final(self)) == sha_absorbed(*old(self)) + data@,
    {
        self.inner.update(data);
    }

    /// Relies on sha2::Sha256::finalize (on a clone of the hasher): the
    /// 32-byte digest of the absorbed bytes, a function of those bytes alone.
    #[verifier::external_body]
    pub fn digest(&self) -> (r: Vec<u8>)
        ensures
            r@ == sha256_of(sha_absorbed(*self)),
            r@.len() == 32,
    {
        self.inner.clone().finalize().to_vec()
    }
}

} // verus!
