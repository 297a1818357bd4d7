//! Hierarchical-deterministic key derivation over secp256k1. Keys are held as
//! plain bytes; each step of the walk is one call into bip32.
use bip32::secp256k1::elliptic_curve::sec1::ToEncodedPoint;
use vstd::prelude::*;

use crate::error::WalletError;
use crate::hashing::{keccak256, keccak256_of};

verus! {

/// The bit that marks a hardened child number.
pub const HARDENED_FLAG: u32 = 0x8000_0000;

/// The deepest level an extended key can sit at.
pub const MAX_DEPTH: u8 = 255;

/// The secp256k1 group order.
pub open spec fn curve_order() -> nat {
    let high: nat = 0xFFFF_FFFF_FFFF_FFFF_FFFF_FFFF_FFFF_FFFE;
    let low: nat = 0xBAAE_DCE6_AF48_A03B_BFD2_5E8C_D036_4141;
    let two_64: nat = 0x1_0000_0000_0000_0000;
    high * two_64 * two_64 + low
}

/// The unsigned big-endian value of `b`.
pub open spec fn be_value(b: Seq<u8>) -> nat
    decreases b.len(),
{
    if b.len() == 0 {
        0
    } else {
        be_value(b.drop_last()) * 256 + b.last() as nat
    }
}

/// A secp256k1 secret scalar: 32 big-endian bytes, non-zero, below the order.
pub open spec fn valid_secret(b: Seq<u8>) -> bool {
    b.len() == 32 && 0 < be_value(b) < curve_order()
}

/// The (secret, chain code) of the root key that bip32 builds from a seed.
pub uninterp spec fn bip32_master(seed: Seq<u8>) -> Option<([u8; 32], [u8; 32])>;

/// The (secret, chain code) of child `number` that bip32 derives from a
/// private parent with the given secret and chain code.
pub uninterp spec fn bip32_private_child(secret: [u8; 32], chain_code: [u8; 32], number: u32) -> Option<([u8; 32], [u8; 32])>;

/// The (compressed point, chain code) of child `number` that bip32 derives
/// from a public parent with the given point and chain code.
pub uninterp spec fn bip32_public_child(point: [u8; 33], chain_code: [u8; 32], number: u32) -> Option<([u8; 33], [u8; 32])>;

/// The SEC1 compressed public point of a secret scalar.
pub uninterp spec fn secp256k1_compressed(secret: [u8; 32]) -> [u8; 33];

/// The SEC1 uncompressed public point (tag byte 4, then x and y) of a secret.
pub uninterp spec fn secp256k1_uncompressed(secret: [u8; 32]) -> [u8; 65];

#[verifier::external_type_specification]
#[verifier::external_body]
pub struct ExBip32Error(bip32::Error);

/// Relies on bip32's `ExtendedPrivateKey::new` (root key from a seed): seeds
/// of 16, 32 or 64 bytes only; the secret comes from k256's `SigningKey`, so
/// it is a valid scalar.
#[verifier::external_body]
fn xprv_from_seed(seed: &[u8]) -> (r: Result<([u8; 32], [u8; 32]), bip32::Error>)
    ensures
        !(seed@.len() == 16 || seed@.len() == 32 || seed@.len() == 64) ==> r is Err,
        (seed@.len() == 16 || seed@.len() == 32 || seed@.len() == 64) ==> match r {
            Ok(v) => bip32_master(seed@) == Some(v),
            Err(_) => bip32_master(seed@) is None,
        },
        r is Ok ==> valid_secret(r->Ok_0.0@),
{
    let key = bip32::XPrv::new(seed)?;
    Ok((key.to_bytes(), key.attrs().chain_code))
}

/// Relies on bip32's `ExtendedPrivateKey::derive_child`, on a parent rebuilt
/// from its parts through `TryFrom<ExtendedKey>`: it fails at the maximum
/// depth, and a child secret is a valid scalar.
#[verifier::external_body]
fn xprv_derive_child(secret: &[u8; 32], chain_code: &[u8; 32], depth: u8, number: u32) -> (r: Result<([u8; 32], [u8; 32]), bip32::Error>)
    ensures
        depth == MAX_DEPTH ==> r is Err,
        depth < MAX_DEPTH ==> match r {
            Ok(v) => bip32_private_child(*secret, *chain_code, number) == Some(v),
            Err(_) => bip32_private_child(*secret, *chain_code, number) is None,
        },
        r is Ok ==> valid_secret(r->Ok_0.0@),
{
    let mut key_bytes = [0u8; 33];
    key_bytes[1..].copy_from_slice(secret);
    let attrs = bip32::ExtendedKeyAttrs { depth, parent_fingerprint: [0u8; 4], child_number: bip32::ChildNumber(0), chain_code: *chain_code };
    let parent = bip32::XPrv::try_from(bip32::ExtendedKey { prefix: bip32::Prefix::XPRV, attrs, key_bytes })?;
    let child = parent.derive_child(bip32::ChildNumber(number))?;
    Ok((child.to_bytes(), child.attrs().chain_code))
}

/// Relies on bip32's `ExtendedPublicKey::derive_child`, on a parent rebuilt
/// from its parts through `TryFrom<ExtendedKey>`: a hardened number (high bit
/// set) is refused, and so is a parent at the maximum depth.
#[verifier::external_body]
fn xpub_derive_child(point: &[u8; 33], chain_code: &[u8; 32], depth: u8, number: u32) -> (r: Result<([u8; 33], [u8; 32]), bip32::Error>)
    ensures
        number >= HARDENED_FLAG ==> r is Err,
        depth == MAX_DEPTH ==> r is Err,
        number < HARDENED_FLAG && depth < MAX_DEPTH ==> match r {
            Ok(v) => bip32_public_child(*point, *chain_code, number) == Some(v),
            Err(_) => bip32_public_child(*point, *chain_code, number) is None,
        },
{
    let attrs = bip32::ExtendedKeyAttrs { depth, parent_fingerprint: [0u8; 4], child_number: bip32::ChildNumber(0), chain_code: *chain_code };
    let parent = bip32::XPub::try_from(bip32::ExtendedKey { prefix: bip32::Prefix::XPUB, attrs, key_bytes: *point })?;
    let child = parent.derive_child(bip32::ChildNumber(number))?;
    Ok((child.to_bytes(), child.attrs().chain_code))
}

/// Relies on k256's `SigningKey::from_bytes` (accepts exactly the valid
/// scalars) and on bip32's `PublicKey::to_bytes` for its verifying key (the
/// SEC1 compressed point).
#[verifier::external_body]
fn compressed_public_key(secret: &[u8; 32]) -> (r: Option<[u8; 33]>)
    ensures
        r is Some <==> valid_secret(secret@),
        r is Some ==> r->Some_0 == secp256k1_compressed(*secret),
{
    let key = bip32::secp256k1::ecdsa::SigningKey::from_bytes(secret).ok()?;
    Some(bip32::PublicKey::to_bytes(&key.verifying_key()))
}

/// Relies on k256's `SigningKey::from_bytes` (accepts exactly the valid
/// scalars) and on `to_encoded_point(false)` for its verifying key (the SEC1
/// uncompressed point, 65 bytes).
#[verifier::external_body]
fn uncompressed_public_key(secret: &[u8; 32]) -> (r: Option<Vec<u8>>)
    ensures
        r is Some <==> valid_secret(secret@),
        r is Some ==> r->Some_0@ == secp256k1_uncompressed(*secret)@,
{
    let key = bip32::secp256k1::ecdsa::SigningKey::from_bytes(secret).ok()?;
    Some(key.verifying_key().to_encoded_point(false).as_bytes().to_vec())
}

/// One step of a derivation path: a child index and whether it is hardened.
#[derive(Debug, Clone, Copy, PartialEq, Eq, Structural)]
pub struct ChildIndex {
    pub index: u32,
    pub hardened: bool,
}

/// The child number bip32 uses for a step whose index is in range.
pub open spec fn child_number(c: ChildIndex) -> u32 {
    if c.hardened {
        (c.index + HARDENED_FLAG) as u32
    } else {
        c.index
    }
}

impl ChildIndex {
    /// A non-hardened step.
    pub fn normal(index: u32) -> (r: ChildIndex)
        ensures
            r == (ChildIndex { index, hardened: false }),
    {
        ChildIndex { index, hardened: false }
    }

    /// A hardened step.
    pub fn hardened(index: u32) -> (r: ChildIndex)
        ensures
            r == (ChildIndex { index, hardened: true }),
    {
        ChildIndex { index, hardened: true }
    }

    /// The child number of this step; fails when the index does not fit
    /// below the hardened bit.
    pub fn number(&self) -> (r: Result<u32, WalletError>)
        ensures
            self.index < HARDENED_FLAG <==> r is Ok,
            r is Ok ==> r->Ok_0 == child_number(*self),
            r is Err ==> r->Err_0 == WalletError::CryptoDerivation,
    {
        if self.index >= HARDENED_FLAG {
            Err(WalletError::CryptoDerivation)
        } else if self.hardened {
            Ok(self.index + HARDENED_FLAG)
        } else {
            Ok(self.index)
        }
    }
}

/// An extended private key: secret scalar, chain code and depth.
#[derive(Clone, Copy)]
pub struct ExtPrivKey {
    pub secret: [u8; 32],
    pub chain_code: [u8; 32],
    pub depth: u8,
}

/// An extended public key: compressed point, chain code and depth.
#[derive(Debug, Clone, Copy)]
pub struct ExtPubKey {
    pub point: [u8; 33],
    pub chain_code: [u8; 32],
    pub depth: u8,
}

/// The root key of a seed.
pub open spec fn master_key(seed: Seq<u8>) -> Option<ExtPrivKey> {
    if !(seed.len() == 16 || seed.len() == 32 || seed.len() == 64) {
        None
    } else {
        match bip32_master(seed) {
            Some(v) => Some(ExtPrivKey { secret: v.0, chain_code: v.1, depth: 0 }),
            None => None,
        }
    }
}

/// The child of a private key at one step.
pub open spec fn private_child(k: ExtPrivKey, c: ChildIndex) -> Option<ExtPrivKey> {
    if c.index >= HARDENED_FLAG || k.depth == MAX_DEPTH {
        None
    } else {
        match bip32_private_child(k.secret, k.chain_code, child_number(c)) {
            Some(v) => Some(ExtPrivKey { secret: v.0, chain_code: v.1, depth: (k.depth + 1) as u8 }),
            None => None,
        }
    }
}

/// The child of a public key at one step: never for a hardened step.
pub open spec fn public_child(k: ExtPubKey, c: ChildIndex) -> Option<ExtPubKey> {
    if c.index >= HARDENED_FLAG || c.hardened || k.depth == MAX_DEPTH {
        None
    } else {
        match bip32_public_child(k.point, k.chain_code, child_number(c)) {
            Some(v) => Some(ExtPubKey { point: v.0, chain_code: v.1, depth: (k.depth + 1) as u8 }),
            None => None,
        }
    }
}

/// The public half of a private key.
pub open spec fn public_of(k: ExtPrivKey) -> Option<ExtPubKey> {
    if valid_secret(k.secret@) {
        Some(ExtPubKey { point: secp256k1_compressed(k.secret), chain_code: k.chain_code, depth: k.depth })
    } else {
        None
    }
}

/// The key at `path` below the root key of `seed`.
pub open spec fn key_at(seed: Seq<u8>, path: Seq<ChildIndex>) -> Option<ExtPrivKey>
    decreases path.len(),
{
    if path.len() == 0 {
        master_key(seed)
    } else {
        match key_at(seed, path.drop_last()) {
            Some(k) => private_child(k, path.last()),
            None => None,
        }
    }
}

/// The 20-byte ledger address of an uncompressed public point: the low 20
/// bytes of the Keccak-256 digest of the point without its tag byte.
pub open spec fn address_of_point(point: Seq<u8>) -> Seq<u8> {
    keccak256_of(point.subrange(1, 65))@.subrange(12, 32)
}

/// The ledger address of a private key's secret.
pub open spec fn address_of_secret(secret: [u8; 32]) -> Seq<u8> {
    address_of_point(secp256k1_uncompressed(secret)@)
}

impl ExtPrivKey {
    /// The root key built from `seed`.
    pub fn from_seed(seed: &[u8]) -> (r: Result<ExtPrivKey, WalletError>)
        ensures
            match r {
                Ok(k) => master_key(seed@) == Some(k) && valid_secret(k.secret@),
                Err(e) => master_key(seed@) is None && e == WalletError::CryptoDerivation,
            },
    {
        match xprv_from_seed(seed) {
            Ok(v) => Ok(ExtPrivKey { secret: v.0, chain_code: v.1, depth: 0 }),
            Err(_) => Err(WalletError::CryptoDerivation),
        }
    }

    /// The child of this key at `step`.
    pub fn derive_child(&self, step: ChildIndex) -> (r: Result<ExtPrivKey, WalletError>)
        ensures
            match r {
                Ok(k) => private_child(*self, step) == Some(k) && valid_secret(k.secret@),
                Err(e) => private_child(*self, step) is None && e == WalletError::CryptoDerivation,
            },
    {
        let number = step.number()?;
        if self.depth == MAX_DEPTH {
            return Err(WalletError::CryptoDerivation);
        }
        match xprv_derive_child(&self.secret, &self.chain_code, self.depth, number) {
            Ok(v) => Ok(ExtPrivKey { secret: v.0, chain_code: v.1, depth: self.depth + 1 }),
            Err(_) => Err(WalletError::CryptoDerivation),
        }
    }

    /// The public half of this key.
    pub fn public_key(&self) -> (r: Result<ExtPubKey, WalletError>)
        ensures
            match r {
                Ok(p) => public_of(*self) == Some(p),
                Err(e) => public_of(*self) is None && e == WalletError::CryptoDerivation,
            },
    {
        match compressed_public_key(&self.secret) {
            Some(point) => Ok(ExtPubKey { point, chain_code: self.chain_code, depth: self.depth }),
            None => Err(WalletError::CryptoDerivation),
        }
    }

    /// The 20-byte ledger address of this key.
    pub fn address(&self) -> (r: Result<Vec<u8>, WalletError>)
        ensures
            match r {
                Ok(a) => valid_secret(self.secret@) && a@ == address_of_secret(self.secret),
                Err(e) => !valid_secret(self.secret@) && e == WalletError::CryptoDerivation,
            },
    {
        match uncompressed_public_key(&self.secret) {
            Some(point) => {
                proof {
                    broadcast use vstd::array::group_array_axioms;
                }
                Ok(address_from_public_key(&point))
            },
            None => Err(WalletError::CryptoDerivation),
        }
    }
}

impl ExtPubKey {
    /// The child of this public key at `step`; a hardened step is refused.
    pub fn derive_child(&self, step: ChildIndex) -> (r: Result<ExtPubKey, WalletError>)
        ensures
            match r {
                Ok(k) => public_child(*self, step) == Some(k),
                Err(e) => public_child(*self, step) is None && e == WalletError::CryptoDerivation,
            },
            step.hardened ==> r == Err::<ExtPubKey, WalletError>(WalletError::CryptoDerivation),
    {
        let number = step.number()?;
        if self.depth == MAX_DEPTH {
            return Err(WalletError::CryptoDerivation);
        }
        match xpub_derive_child(&self.point, &self.chain_code, self.depth, number) {
            Ok(v) => Ok(ExtPubKey { point: v.0, chain_code: v.1, depth: self.depth + 1 }),
            Err(_) => Err(WalletError::CryptoDerivation),
        }
    }
}

/// The 20-byte ledger address of a 65-byte uncompressed public point.
pub fn address_from_public_key(point: &[u8]) -> (r: Vec<u8>)
    requires
        point@.len() == 65,
    ensures
        r@ == address_of_point(point@),
        r@.len() == 20,
{
    let mut body: Vec<u8> = Vec::with_capacity(64);
    let mut i: usize = 1;
    while i < 65
        invariant
            1 <= i <= 65,
            point@.len() == 65,
            body@ == point@.subrange(1, i as int),
        decreases 65 - i,
    {
        body.push(point[i]);
        i = i + 1;
        assert(body@ =~= point@.subrange(1, i as int));
    }
    let digest = keccak256(body.as_slice());
    proof {
        broadcast use vstd::array::group_array_axioms;
    }
    let mut out: Vec<u8> = Vec::with_capacity(20);
    let mut j: usize = 12;
    while j < 32
        invariant
            12 <= j <= 32,
            digest@.len() == 32,
            out@ == digest@.subrange(12, j as int),
        decreases 32 - j,
    {
        out.push(digest[j]);
        j = j + 1;
        assert(out@ =~= digest@.subrange(12, j as int));
    }
    out
}

/// Walks `path` from the root key of `seed`.
pub fn derive_path(seed: &[u8], path: &[ChildIndex]) -> (r: Result<ExtPrivKey, WalletError>)
    ensures
        crate::laws::derive_path_outcome(seed@, path@, r),
        r is Ok ==> valid_secret(r->Ok_0.secret@),
{
    assert(path@.subrange(0, 0) =~= Seq::<ChildIndex>::empty());
    let mut key = match ExtPrivKey::from_seed(seed) {
        Ok(k) => k,
        Err(e) => {
            proof {
                lemma_key_at_prefix_none(seed@, path@, 0);
            }
            return Err(e);
        },
    };
    let mut i: usize = 0;
    while i < path.len()
        invariant
            i <= path@.len(),
            key_at(seed@, path@.subrange(0, i as int)) == Some(key),
            valid_secret(key.secret@),
        decreases path@.len() - i,
    {
        assert(path@.subrange(0, i + 1).drop_last() =~= path@.subrange(0, i as int));
        match key.derive_child(path[i]) {
            Ok(k) => {
                key = k;
            },
            Err(e) => {
                proof {
                    lemma_key_at_prefix_none(seed@, path@, i as int + 1);
                }
                return Err(e);
            },
        }
        i = i + 1;
    }
    assert(path@.subrange(0, i as int) =~= path@);
    Ok(key)
}

/// A path that fails at some prefix fails as a whole.
proof fn lemma_key_at_prefix_none(seed: Seq<u8>, path: Seq<ChildIndex>, n: int)
    requires
        0 <= n <= path.len(),
        key_at(seed, path.subrange(0, n)) is None,
    ensures
        key_at(seed, path) is None,
    decreases path.len() - n,
{
    if n < path.len() {
        assert(path.subrange(0, n + 1).drop_last() =~= path.subrange(0, n));
        lemma_key_at_prefix_none(seed, path, n + 1);
    } else {
        assert(path.subrange(0, n) =~= path);
    }
}

} // verus!
