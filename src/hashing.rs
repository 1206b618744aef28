//! The four hash functions offered to contracts.
//!
//! Each digest is a deterministic function of its input alone; the
//! algorithms themselves come from outside crates and are only named here.
use blake2::Digest;
use tiny_keccak::Hasher;
use vstd::prelude::*;

verus! {

/// Keccak-256 digest of a byte string.
pub uninterp spec fn keccak_256_of(input: Seq<u8>) -> Seq<u8>;

/// BLAKE2b digest of a byte string, with a 32-byte output.
pub uninterp spec fn blake2_256_of(input: Seq<u8>) -> Seq<u8>;

/// BLAKE2b digest of a byte string, with a 16-byte output.
pub uninterp spec fn blake2_128_of(input: Seq<u8>) -> Seq<u8>;

/// SHA2-256 digest of a byte string.
pub uninterp spec fn sha2_256_of(input: Seq<u8>) -> Seq<u8>;

/// Relies on tiny_keccak's `Keccak::v256`, `update` and `finalize`: the
/// 32-byte Keccak-256 digest of `input`, which depends on `input` alone.
#[verifier::external_body]
pub(crate) fn keccak_256(input: &[u8]) -> (r: [u8; 32])
    ensures
        r@ == keccak_256_of(input@),
{
    let mut keccak = tiny_keccak::Keccak::v256();
    keccak.update(input);
    let mut out = [0u8; 32];
    keccak.finalize(&mut out);
    out
}

/// Relies on blake2's `Blake2b<U32>` digest: the 32-byte BLAKE2b digest of
/// `input`, which depends on `input` alone.
#[verifier::external_body]
pub(crate) fn blake2_256(input: &[u8]) -> (r: [u8; 32])
    ensures
        r@ == blake2_256_of(input@),
{
    blake2::Blake2b::<blake2::digest::consts::U32>::digest(input).into()
}

/// Relies on blake2's `Blake2b<U16>` digest: the 16-byte BLAKE2b digest of
/// `input`, which depends on `input` alone.
#[verifier::external_body]
pub(crate) fn blake2_128(input: &[u8]) -> (r: [u8; 16])
    ensures
        r@ == blake2_128_of(input@),
{
    blake2::Blake2b::<blake2::digest::consts::U16>::digest(input).into()
}

/// Relies on sha2's `Sha256` digest: the 32-byte SHA2-256 digest of
/// `input`, which depends on `input` alone.
#[verifier::external_body]
pub(crate) fn sha2_256(input: &[u8]) -> (r: [u8; 32])
    ensures
        r@ == sha2_256_of(input@),
{
    sha2::Sha256::digest(input).into()
}

} // verus!
