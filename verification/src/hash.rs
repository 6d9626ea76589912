use vstd::prelude::*;
use winter_crypto::{hashers::Blake3_192, Digest, Hasher};

verus! {

/// The 192-bit BLAKE3 digest of `bytes`: the first 24 bytes of their BLAKE3
/// hash. The hash is computed outside this library and nothing is proved of
/// it; this names its result, which depends on the bytes alone.
pub uninterp spec fn blake3_192(bytes: Seq<u8>) -> Seq<u8>;

/// Hashes `bytes` with `Blake3_192::hash` of the `winter-crypto` crate. That
/// function hashes with BLAKE3 and keeps the first 24 bytes; `as_bytes` pads
/// them with zeros to 32, of which the first 24 are copied out again. The
/// contract claims only that the result is the digest named `blake3_192`.
#[verifier::external_body]
pub(crate) fn hash_192(bytes: &[u8]) -> (digest: [u8; 24])
    ensures
        digest@ == blake3_192(bytes@),
{
    let padded: [u8; 32] = Blake3_192::<miden_core::Felt>::hash(bytes).as_bytes();
    let mut digest: [u8; 24] = [0u8; 24];
    digest.copy_from_slice(&padded[..24]);
    digest
}

/// The array that holds the 24 bytes `bytes`.
pub open spec fn digest_from(bytes: Seq<u8>) -> [u8; 24] {
    choose|digest: [u8; 24]| digest@ == bytes
}

/// An array is the array of its bytes.
pub proof fn lemma_digest_from(digest: [u8; 24])
    ensures
        digest_from(digest@) == digest,
{
    assert(digest_from(digest@)@ == digest@);
    assert(digest_from(digest@) =~= digest);
}

} // verus!
