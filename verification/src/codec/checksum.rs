//! The payload checksum: the first four bytes of a double SHA-256.
use vstd::prelude::*;
use vstd::bytes::*;
use crypto::digest::Digest;
use crypto::sha2::Sha256;

verus! {

/// The SHA-256 digest of `data`, 32 bytes.
pub uninterp spec fn sha256_of(data: Seq<u8>) -> Seq<u8>;

/// `rust-crypto`'s `Sha256`: a fresh hasher fed `data`, whose `result` is
/// written to a 32-byte buffer. The contract names the digest `sha256_of`
/// of the bytes of `data` and says nothing more of it.
#[verifier::external_body]
fn sha256_digest(data: &[u8]) -> (r: [u8; 32])
    ensures
        r@ == sha256_of(data@),
{
    let mut out = [0u8; 32];
    let mut hasher = Sha256::new();
    hasher.input(data);
    hasher.result(&mut out);
    out
}

/// The checksum of a payload: the first four bytes of the SHA-256 of the
/// SHA-256 of the payload, read as a little-endian number.
pub open spec fn spec_chk(payload: Seq<u8>) -> u32 {
    spec_u32_from_le_bytes(sha256_of(sha256_of(payload)).take(4))
}

/// The checksum that a second digest stands for: its first four bytes, read
/// as a little-endian number.
pub fn checksum_from_digest(digest: &[u8; 32]) -> (r: u32)
    ensures
        r == spec_u32_from_le_bytes(digest@.take(4)),
{
    assert(digest@.subrange(0, 4) =~= digest@.take(4));
    crate::codec::wire::le_read_u32(digest, 0)
}

/// The checksum of `payload`.
pub fn payload_checksum(payload: &[u8]) -> (r: u32)
    ensures
        r == spec_chk(payload@),
{
    let first = sha256_digest(payload);
    let second = sha256_digest(&first);
    checksum_from_digest(&second)
}

} // verus!
