//! The checksum that guards a payload against corruption on the way.

use sha2::Digest;
use vstd::prelude::*;

verus! {

/// Number of bytes in a SHA-256 digest.
pub const DIGEST_SIZE: usize = 32;

/// Number of bytes of the digest that a message header carries.
pub const CHECKSUM_SIZE: usize = 4;

/// The SHA-256 digest of `data`, as the `sha2` crate computes it.
pub uninterp spec fn sha256(data: Seq<u8>) -> Seq<u8>;

/// The checksum of a payload: the first four bytes of the SHA-256 digest of
/// the SHA-256 digest of its bytes.
pub open spec fn checksum_of(payload: Seq<u8>) -> Seq<u8> {
    sha256(sha256(payload)).subrange(0, CHECKSUM_SIZE as int)
}

/// Calls `sha2::Sha256::digest` on `data`. Nothing is proved of the digest:
/// the contract only gives it the name `sha256(data@)`, which rests on the
/// digest being a function of the input bytes alone.
#[verifier::external_body]
fn sha256_digest(data: &[u8]) -> (digest: [u8; DIGEST_SIZE])
    ensures
        digest@ == sha256(data@),
{
    sha2::Sha256::digest(data).into()
}

/// The leading bytes of a digest that serve as checksum.
pub fn checksum_from_digest(digest: &[u8; DIGEST_SIZE]) -> (checksum: [u8; CHECKSUM_SIZE])
    ensures
        checksum@ == digest@.subrange(0, CHECKSUM_SIZE as int),
{
    let checksum = [digest[0], digest[1], digest[2], digest[3]];
    proof {
        assert(checksum@ =~= digest@.subrange(0, CHECKSUM_SIZE as int));
    }
    checksum
}

/// The checksum of `payload`, in the order in which a header carries it.
pub fn le_checksum(payload: &[u8]) -> (checksum: [u8; CHECKSUM_SIZE])
    ensures
        checksum@ == checksum_of(payload@),
{
    let once = sha256_digest(payload);
    let twice = sha256_digest(once.as_slice());
    checksum_from_digest(&twice)
}

/// Equal payloads have equal checksums: the checksum depends on the bytes
/// of the payload and on nothing else.
pub proof fn lemma_checksum_deterministic(first: Seq<u8>, second: Seq<u8>)
    requires
        first =~= second,
    ensures
        checksum_of(first) == checksum_of(second),
{
}

} // verus!
