//! Whole-file SHA-256, computed by the sha2 crate on the bytes fed to it.

use vstd::prelude::*;
use sha2::Digest;
use crate::ids::{hex_encode, hex_lower, is_lower_hex, lemma_hex_lower_shape};

verus! {

/// The SHA-256 digest of `data`, as `sha2::Sha256` computes it.
pub uninterp spec fn sha256_of(data: Seq<u8>) -> Seq<u8>;

/// A running SHA-256 (`sha2::Sha256`) over the bytes fed so far. The hasher
/// is held out of Verus's sight; what it has been fed is `digest_fed`.
#[verifier::external_body]
pub struct FileDigest {
    h: sha2::Sha256,
}

/// The bytes fed to a `FileDigest` so far, in order.
pub uninterp spec fn digest_fed(d: FileDigest) -> Seq<u8>;

impl FileDigest {
    /// `Sha256::new`: a hasher that has been fed nothing.
    #[verifier::external_body]
    pub fn new() -> (d: Self)
        ensures
            digest_fed(d) == Seq::<u8>::empty(),
    {
        FileDigest { h: sha2::Sha256::new() }
    }

    /// `Digest::update`: feeds `chunk` after what was fed before.
    #[verifier::external_body]
    pub fn update(&mut self, chunk: &[u8])
        ensures
            digest_fed(*final(self)) == digest_fed(*old(self)) + chunk@,
    {
        self.h.update(chunk);
    }

    /// `Digest::finalize`: the 32-byte SHA-256 of everything fed.
    #[verifier::external_body]
    pub fn finish(self) -> (r: Vec<u8>)
        ensures
            r@ == sha256_of(digest_fed(self)),
            r@.len() == 32,
    {
        self.h.finalize().to_vec()
    }
}

/// The digest of everything fed, as 64 lower-case hex digits.
pub fn digest_hex(d: FileDigest) -> (r: String)
    ensures
        r@ == hex_lower(sha256_of(digest_fed(d))),
        r@.len() == 64,
        forall|i: int| 0 <= i < 64 ==> is_lower_hex(#[trigger] r@[i]),
{
    let bytes = d.finish();
    proof {
        lemma_hex_lower_shape(bytes@);
    }
    hex_encode(bytes.as_slice())
}

} // verus!
