//! Properties that relate several operations of the wallet.
use vstd::prelude::*;

use crate::account::{account_key, account_steps, deriving_steps, is_new_account};
use crate::derivation::{address_of_secret, key_at, private_child, public_child, ChildIndex, ExtPrivKey, ExtPubKey};
use crate::error::WalletError;
use crate::text::address_text;
use crate::vault::{lemma_decode_encode, MAX_SEED_LEN};
use crate::wallet::{candidate_seed, is_wallet_of, password_accepted, Wallet};

verus! {

/// What `derive_path` may return for `seed` and `path`.
pub open spec fn derive_path_outcome(seed: Seq<u8>, path: Seq<ChildIndex>, r: Result<ExtPrivKey, WalletError>) -> bool {
    match r {
        Ok(k) => key_at(seed, path) == Some(k),
        Err(e) => key_at(seed, path) is None && e == WalletError::CryptoDerivation,
    }
}

/// Derivation is pure: two derivations of the same seed along the same path
/// have the same outcome, key for key.
pub proof fn lemma_derive_path_deterministic(
    seed: Seq<u8>,
    path: Seq<ChildIndex>,
    first: Result<ExtPrivKey, WalletError>,
    second: Result<ExtPrivKey, WalletError>,
)
    requires
        derive_path_outcome(seed, path, first),
        derive_path_outcome(seed, path, second),
    ensures
        first == second,
{
}

/// Two accounts created at the same index from the same deriving key have
/// the same path and the same address.
pub proof fn lemma_account_deterministic(a: crate::account::Account, b: crate::account::Account, deriving_key: ExtPrivKey, index: u32)
    requires
        is_new_account(a, deriving_key, index),
        is_new_account(b, deriving_key, index),
    ensures
        a.path@ == b.path@,
        a.address@ == b.address@,
{
}

/// A public key has no hardened child.
pub proof fn lemma_no_hardened_public_child(parent: ExtPubKey, index: u32)
    ensures
        public_child(parent, ChildIndex { index, hardened: true }) is None,
{
}

/// A hardened child derived from the private key at `path` is the key the
/// seed gives at `path` extended by that step.
pub proof fn lemma_hardened_child_from_private(seed: Seq<u8>, path: Seq<ChildIndex>, index: u32)
    ensures
        key_at(seed, path.push(ChildIndex { index, hardened: true })) == match key_at(seed, path) {
            Some(k) => private_child(k, ChildIndex { index, hardened: true }),
            None => None,
        },
{
    assert(path.push(ChildIndex { index, hardened: true }).drop_last() =~= path);
}

/// The password a wallet was made with unlocks it.
pub proof fn lemma_login_accepts_own_password(w: Wallet, seed: Seq<u8>, password: &str)
    requires
        seed.len() <= MAX_SEED_LEN,
        is_wallet_of(w, seed, password),
    ensures
        password_accepted(w.pad@, w.verification_key@, password),
        key_at(candidate_seed(w.pad@, password), deriving_steps()) == key_at(seed, deriving_steps()),
{
    lemma_decode_encode(seed, password);
}

/// The key of account `index` below the deriving key is the key the seed
/// gives on the account's full path.
pub proof fn lemma_account_key_from_seed(seed: Seq<u8>, index: u32)
    ensures
        key_at(seed, account_steps(index)) == match key_at(seed, deriving_steps()) {
            Some(k) => account_key(k, index),
            None => None,
        },
{
    assert(account_steps(index).drop_last() =~= deriving_steps());
}

/// After the wallet of `seed` is unlocked with its password, an account
/// created at `index` carries the address the seed gives on that account's
/// full path.
pub proof fn lemma_unlocked_account_address(w: Wallet, seed: Seq<u8>, password: &str, a: crate::account::Account, index: u32)
    requires
        seed.len() <= MAX_SEED_LEN,
        is_wallet_of(w, seed, password),
        is_new_account(a, key_at(candidate_seed(w.pad@, password), deriving_steps())->Some_0, index),
    ensures
        key_at(seed, account_steps(index)) is Some,
        a.address@ == address_text(address_of_secret(key_at(seed, account_steps(index))->Some_0.secret)),
{
    lemma_login_accepts_own_password(w, seed, password);
    lemma_account_key_from_seed(seed, index);
}

/// The nonce never goes down: a broadcast answer moves it up by exactly one
/// when it confirms the transfer, and leaves it otherwise.
pub proof fn lemma_nonce_monotone(before: crate::account::Account, after: crate::account::Account, result: Option<Seq<char>>, confirmed: bool)
    requires
        crate::account::broadcast_outcome(before, after, result, confirmed),
    ensures
        after.nonce >= before.nonce,
        crate::account::confirms(result) ==> after.nonce == before.nonce + 1,
        !crate::account::confirms(result) ==> after.nonce == before.nonce,
{
}

/// The signing key that sending makes ready on a freshly created account
/// controls that account's cached address.
pub proof fn lemma_signing_key_controls_address(
    before: crate::account::Account,
    after: crate::account::Account,
    deriving_key: ExtPrivKey,
    index: u32,
    r: Result<crate::account::Signal, WalletError>,
)
    requires
        is_new_account(before, deriving_key, index),
        crate::account::run_outcome(before, after, deriving_key, 2, r),
    ensures
        r is Ok,
        after.signing_key is Some,
        after.address@ == address_text(address_of_secret(after.signing_key->Some_0)),
{
    crate::text::lemma_path_index_of_text(deriving_steps(), index);
}

} // verus!
