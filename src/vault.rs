//! The seed vault: the root seed is stored masked by a hash of the password.
use vstd::prelude::*;
use vstd::string::*;

use crate::hashing::{keccak512, keccak512_of};

verus! {

/// The longest seed a password hash can mask: the Keccak-512 digest length.
pub const MAX_SEED_LEN: usize = 64;

/// Byte-wise exclusive or of `data` with the first `data.len()` bytes of `key`.
pub open spec fn mask(data: Seq<u8>, key: Seq<u8>) -> Seq<u8> {
    Seq::new(data.len(), |i: int| data[i] ^ key[i])
}

/// The bytes a password contributes to the mask.
pub open spec fn password_key(password: &str) -> Seq<u8> {
    keccak512_of(password.spec_bytes())@
}

/// The pad stored for `seed` under `password`.
pub open spec fn encode_spec(seed: Seq<u8>, password: &str) -> Seq<u8> {
    mask(seed, password_key(password))
}

/// A password key is as long as a Keccak-512 digest.
pub proof fn lemma_password_key_len(password: &str)
    ensures
        password_key(password).len() == MAX_SEED_LEN,
{
    broadcast use vstd::array::group_array_axioms;

}

/// Masks `data` with `key`; `key` is at least as long as `data`.
fn xor_mask(data: &[u8], key: &[u8]) -> (r: Vec<u8>)
    requires
        data@.len() <= key@.len(),
    ensures
        r@ == mask(data@, key@),
{
    let mut out: Vec<u8> = Vec::with_capacity(data.len());
    let mut i: usize = 0;
    while i < data.len()
        invariant
            i <= data@.len(),
            data@.len() <= key@.len(),
            out@ == mask(data@.subrange(0, i as int), key@),
        decreases data@.len() - i,
    {
        out.push(data[i] ^ key[i]);
        i = i + 1;
        assert(out@ =~= mask(data@.subrange(0, i as int), key@));
    }
    assert(data@.subrange(0, i as int) =~= data@);
    out
}

/// Encodes `seed` under `password`: the seed exclusive-or the password's
/// Keccak-512 digest, cut to the seed's length.
pub fn encode(seed: &[u8], password: &str) -> (pad: Vec<u8>)
    requires
        seed@.len() <= MAX_SEED_LEN,
    ensures
        pad@ == encode_spec(seed@, password),
        pad@.len() == seed@.len(),
{
    let key = keccak512(password.as_bytes());
    xor_mask(seed, &key)
}

/// Decodes `pad` under `password`: the same mask again. It never fails; a
/// wrong password yields some other candidate seed.
pub fn decode(pad: &[u8], password: &str) -> (seed: Vec<u8>)
    requires
        pad@.len() <= MAX_SEED_LEN,
    ensures
        seed@ == mask(pad@, password_key(password)),
        seed@.len() == pad@.len(),
{
    let key = keccak512(password.as_bytes());
    xor_mask(pad, &key)
}

/// Masking twice with the same key gives the data back.
pub proof fn lemma_mask_twice(data: Seq<u8>, key: Seq<u8>)
    requires
        data.len() <= key.len(),
    ensures
        mask(mask(data, key), key) == data,
{
    assert forall|a: u8, b: u8| #[trigger] ((a ^ b) ^ b) == a by {
        assert((a ^ b) ^ b == a) by (bit_vector);
    }
    assert(mask(mask(data, key), key) =~= data);
}

/// Decoding the pad of a seed under the password that encoded it gives the
/// seed back, for every seed the vault accepts and every password.
pub proof fn lemma_decode_encode(seed: Seq<u8>, password: &str)
    requires
        seed.len() <= MAX_SEED_LEN,
    ensures
        mask(encode_spec(seed, password), password_key(password)) == seed,
{
    lemma_password_key_len(password);
    lemma_mask_twice(seed, password_key(password));
}

/// Decoding under another password gives the seed back exactly when the two
/// passwords' digests agree on the seed's length: a wrong password yields a
/// different seed unless the digests collide there.
pub proof fn lemma_other_password(seed: Seq<u8>, password: &str, other: &str)
    requires
        seed.len() <= MAX_SEED_LEN,
    ensures
        mask(encode_spec(seed, password), password_key(other)) == seed
            <==> password_key(password).subrange(0, seed.len() as int)
            == password_key(other).subrange(0, seed.len() as int),
{
    lemma_password_key_len(password);
    lemma_password_key_len(other);
    let k1 = password_key(password);
    let k2 = password_key(other);
    let n = seed.len() as int;
    let d = mask(encode_spec(seed, password), k2);
    assert forall|a: u8, b: u8, c: u8| #[trigger] ((a ^ b) ^ c) == a <==> b == c by {
        assert(((a ^ b) ^ c) == a <==> b == c) by (bit_vector);
    }
    if d == seed {
        assert forall|i: int| 0 <= i < n implies k1.subrange(0, n)[i] == k2.subrange(0, n)[i] by {
            assert(d[i] == ((seed[i] ^ k1[i]) ^ k2[i]));
        }
        assert(k1.subrange(0, n) =~= k2.subrange(0, n));
    }
    if k1.subrange(0, n) == k2.subrange(0, n) {
        assert forall|i: int| 0 <= i < n implies d[i] == seed[i] by {
            assert(k1.subrange(0, n)[i] == k2.subrange(0, n)[i]);
        }
        assert(d =~= seed);
    }
}

} // verus!
