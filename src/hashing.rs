use tiny_keccak::Hasher;
use vstd::prelude::*;

verus! {

/// The 64-byte Keccak-512 digest of `data`.
pub uninterp spec fn keccak512_of(data: Seq<u8>) -> [u8; 64];

/// The 32-byte Keccak-256 digest of `data`.
pub uninterp spec fn keccak256_of(data: Seq<u8>) -> [u8; 32];

/// Relies on tiny_keccak's `Keccak::v512`: a 64-byte digest that depends on
/// the input bytes alone.
#[verifier::external_body]
pub(crate) fn keccak512(data: &[u8]) -> (r: [u8; 64])
    ensures
        r == keccak512_of(data@),
{
    let mut hasher = tiny_keccak::Keccak::v512();
    hasher.update(data);
    let mut out = [0u8; 64];
    hasher.finalize(&mut out);
    out
}

/// Relies on tiny_keccak's `Keccak::v256`: a 32-byte digest that depends on
/// the input bytes alone.
#[verifier::external_body]
pub(crate) fn keccak256(data: &[u8]) -> (r: [u8; 32])
    ensures
        r == keccak256_of(data@),
{
    let mut hasher = tiny_keccak::Keccak::v256();
    hasher.update(data);
    let mut out = [0u8; 32];
    hasher.finalize(&mut out);
    out
}

} // verus!
