//! The wallet: the masked seed, the verification key, and the account
//! registry; creation, import, login and the session's decisions.
use vstd::prelude::*;
use vstd::string::*;

use crate::account::{
    account_fails, broadcast_outcome, deriving_path, ends_in, key_error, key_for, locked_from, opt_view, send_outcome,
    with_signing_key, deriving_steps, is_new_account, verification_path,
    verification_steps, Account, AccountMetadata,
};
use crate::derivation::{derive_path, key_at, public_of};
use crate::error::WalletError;
use crate::text::index_from_path;
use crate::vault::{decode, encode, encode_spec, mask, password_key, MAX_SEED_LEN};

verus! {

/// The 64-byte seed that BIP-39 stretches from a valid English recovery
/// phrase (with an empty passphrase), if the phrase is valid.
pub uninterp spec fn bip39_seed(phrase: Seq<char>) -> Option<Seq<u8>>;

/// Relies on tiny-bip39's `Mnemonic::from_phrase` (English; it checks the
/// words and the checksum) and `Seed::new` with an empty passphrase, whose
/// PBKDF2 output is 64 bytes.
#[verifier::external_body]
fn seed_from_phrase(phrase: &str) -> (r: Option<Vec<u8>>)
    ensures
        match r {
            Some(s) => bip39_seed(phrase@) == Some(s@) && s@.len() == 64,
            None => bip39_seed(phrase@) is None,
        },
{
    let mnemonic = bip39::Mnemonic::from_phrase(phrase, bip39::Language::English).ok()?;
    Some(bip39::Seed::new(&mnemonic, "").as_bytes().to_vec())
}

/// Relies on tiny-bip39's `Mnemonic::new`: a fresh random 12-word English
/// phrase, built from entropy with its checksum, so it is a valid phrase.
/// Nothing is promised of its words.
#[verifier::external_body]
fn random_phrase() -> (r: String)
    ensures
        bip39_seed(r@) is Some,
{
    bip39::Mnemonic::new(bip39::MnemonicType::Words12, bip39::Language::English).into_phrase()
}

/// The verification key of a seed: the compressed public point at
/// m/44'/60'/0'.
pub open spec fn verification_key_of(seed: Seq<u8>) -> Option<Seq<u8>> {
    match key_at(seed, verification_steps()) {
        Some(k) => match public_of(k) {
            Some(p) => Some(p.point@),
            None => None,
        },
        None => None,
    }
}

/// `w` is the fresh wallet of `seed` under `password`.
pub open spec fn is_wallet_of(w: Wallet, seed: Seq<u8>, password: &str) -> bool {
    &&& w.pad@ == encode_spec(seed, password)
    &&& verification_key_of(seed) == Some(w.verification_key@)
    &&& key_at(seed, deriving_steps()) is Some
    &&& w.accounts_metadata.deriving_key == key_at(seed, deriving_steps())
    &&& w.accounts_metadata.wf()
    &&& w.accounts_metadata.accounts@.len() == 1
    &&& w.accounts_metadata.active == 0
    &&& is_new_account(w.accounts_metadata.accounts@[0], key_at(seed, deriving_steps())->Some_0, 0)
}

/// No wallet can be built from `seed`: a key on the way cannot be derived.
pub open spec fn seed_fails(seed: Seq<u8>) -> bool {
    verification_key_of(seed) is None || match key_at(seed, deriving_steps()) {
        Some(k) => account_fails(k, 0),
        None => true,
    }
}

/// The seed that `pad` yields under `password`.
pub open spec fn candidate_seed(pad: Seq<u8>, password: &str) -> Seq<u8> {
    mask(pad, password_key(password))
}

/// `password` unlocks a wallet with this pad and verification key: the pad is
/// no longer than a seed can be, and the seed it yields reproduces the key
/// and has a deriving key.
pub open spec fn password_accepted(pad: Seq<u8>, verification_key: Seq<u8>, password: &str) -> bool {
    &&& pad.len() <= MAX_SEED_LEN
    &&& verification_key_of(candidate_seed(pad, password)) == Some(verification_key)
    &&& key_at(candidate_seed(pad, password), deriving_steps()) is Some
}

/// The registry `n` holds what `m` held.
pub open spec fn unchanged(m: AccountMetadata, n: AccountMetadata) -> bool {
    n.deriving_key == m.deriving_key && n.active == m.active && n.accounts@ == m.accounts@
}

/// One session step of `Wallet::run` took the registry from `m` to `n` on
/// `option` (and `selection`), answering `r`.
pub open spec fn session_outcome(m: AccountMetadata, n: AccountMetadata, option: u8, selection: usize, r: Result<bool, WalletError>) -> bool {
    let k = m.deriving_key->Some_0;
    let len = m.accounts@.len();
    let before = m.accounts@[m.active as int];
    if option == 1 {
        r == Ok::<bool, WalletError>(false) && unchanged(m, n)
    } else if option == 2 {
        match key_for(before, k) {
            Some(key) => r == Ok::<bool, WalletError>(false) && n.deriving_key == m.deriving_key && n.active == m.active
                && n.accounts@ == m.accounts@.update(m.active as int, with_signing_key(before, key)),
            None => r == Err::<bool, WalletError>(key_error(before)) && unchanged(m, n),
        }
    } else if option == 3 {
        if account_fails(k, len as int) {
            r == Err::<bool, WalletError>(WalletError::CryptoDerivation) && unchanged(m, n)
        } else {
            &&& r == Ok::<bool, WalletError>(false)
            &&& n.deriving_key == m.deriving_key
            &&& n.accounts@.len() == len + 1
            &&& n.accounts@.subrange(0, len as int) == m.accounts@
            &&& is_new_account(n.accounts@[len as int], k, len as u32)
            &&& n.active == len
        }
    } else if option == 4 {
        n.accounts@ == m.accounts@ && n.deriving_key == m.deriving_key && if selection < len {
            r == Ok::<bool, WalletError>(false) && n.active == selection
        } else {
            r == Err::<bool, WalletError>(WalletError::Index) && n.active == m.active
        }
    } else if option == 5 {
        r == Ok::<bool, WalletError>(true) && locked_from(m, n)
    } else {
        r == Err::<bool, WalletError>(WalletError::InputFormat) && unchanged(m, n)
    }
}

/// The wallet of one installation.
pub struct Wallet {
    /// The seed masked by the password's hash.
    pub pad: Vec<u8>,
    /// The public key that proves a password right.
    pub verification_key: Vec<u8>,
    /// The accounts.
    pub accounts_metadata: AccountMetadata,
}

/// Whether two byte strings are equal.
fn bytes_equal(a: &[u8], b: &[u8]) -> (r: bool)
    ensures
        r == (a@ == b@),
{
    if a.len() != b.len() {
        return false;
    }
    let mut i: usize = 0;
    while i < a.len()
        invariant
            i <= a@.len(),
            a@.len() == b@.len(),
            forall|j: int| 0 <= j < i ==> a@[j] == b@[j],
        decreases a@.len() - i,
    {
        if a[i] != b[i] {
            return false;
        }
        i = i + 1;
    }
    assert(a@ =~= b@);
    true
}

/// The verification key of `seed`.
fn derive_verification_key(seed: &[u8]) -> (r: Result<Vec<u8>, WalletError>)
    ensures
        match r {
            Ok(v) => verification_key_of(seed@) == Some(v@),
            Err(e) => verification_key_of(seed@) is None && e == WalletError::CryptoDerivation,
        },
{
    let path = verification_path();
    let key = derive_path(seed, path.as_slice())?;
    let public = key.public_key()?;
    let mut out: Vec<u8> = Vec::new();
    let mut i: usize = 0;
    proof {
        broadcast use vstd::array::group_array_axioms;
    }
    while i < 33
        invariant
            i <= 33,
            public.point@.len() == 33,
            out@ == public.point@.subrange(0, i as int),
        decreases 33 - i,
    {
        out.push(public.point[i]);
        i = i + 1;
        assert(out@ =~= public.point@.subrange(0, i as int));
    }
    assert(out@ =~= public.point@);
    Ok(out)
}

impl Wallet {
    /// Creates a wallet from a fresh random recovery phrase under `password`;
    /// returns it with the phrase, which the user must keep.
    pub fn new(password: &str) -> (r: Result<(Wallet, String), WalletError>)
        ensures
            match r {
                Ok((w, phrase)) => bip39_seed(phrase@) is Some && is_wallet_of(w, bip39_seed(phrase@)->Some_0, password),
                Err(e) => e == WalletError::CryptoDerivation,
            },
    {
        let phrase = random_phrase();
        let wallet = Wallet::from(password, phrase.as_str())?;
        Ok((wallet, phrase))
    }

    /// The seed of a recovery phrase, if the phrase is valid.
    pub fn recovery_seed(phrase: &str) -> (r: Option<Vec<u8>>)
        ensures
            match r {
                Some(s) => bip39_seed(phrase@) == Some(s@) && s@.len() == 64,
                None => bip39_seed(phrase@) is None,
            },
    {
        seed_from_phrase(phrase)
    }

    /// Recreates the wallet of a recovery phrase under a new `password`.
    pub fn from(password: &str, phrase: &str) -> (r: Result<Wallet, WalletError>)
        ensures
            match bip39_seed(phrase@) {
                None => r == Err::<Wallet, WalletError>(WalletError::InputFormat),
                Some(seed) => match r {
                    Ok(w) => is_wallet_of(w, seed, password),
                    Err(e) => seed_fails(seed) && e == WalletError::CryptoDerivation,
                },
            },
    {
        match seed_from_phrase(phrase) {
            Some(seed) => Wallet::generate_wallet(seed.as_slice(), password),
            None => Err(WalletError::InputFormat),
        }
    }

    /// Builds the wallet of `seed` under `password`.
    pub fn generate_wallet(seed: &[u8], password: &str) -> (r: Result<Wallet, WalletError>)
        requires
            seed@.len() <= MAX_SEED_LEN,
        ensures
            match r {
                Ok(w) => is_wallet_of(w, seed@, password),
                Err(e) => seed_fails(seed@) && e == WalletError::CryptoDerivation,
            },
    {
        let pad = encode(seed, password);
        let verification_key = derive_verification_key(seed)?;
        let path = deriving_path();
        let deriving_key = derive_path(seed, path.as_slice())?;
        let accounts_metadata = AccountMetadata::new(deriving_key)?;
        Ok(Wallet { pad, verification_key, accounts_metadata })
    }

    /// Checks `password` against the stored pad and verification key; when it
    /// is right the deriving key is set, and when it is wrong nothing changes.
    pub fn verify_password(&mut self, password: &str) -> (r: bool)
        ensures
            r == password_accepted(old(self).pad@, old(self).verification_key@, password),
            final(self).pad == old(self).pad,
            final(self).verification_key == old(self).verification_key,
            final(self).accounts_metadata.accounts == old(self).accounts_metadata.accounts,
            final(self).accounts_metadata.active == old(self).accounts_metadata.active,
            r ==> final(self).accounts_metadata.deriving_key
                == key_at(candidate_seed(old(self).pad@, password), deriving_steps()),
            !r ==> final(self).accounts_metadata.deriving_key == old(self).accounts_metadata.deriving_key,
    {
        if self.pad.len() > MAX_SEED_LEN {
            return false;
        }
        let seed = decode(self.pad.as_slice(), password);
        let candidate = match derive_verification_key(seed.as_slice()) {
            Ok(v) => v,
            Err(_) => return false,
        };
        if !bytes_equal(candidate.as_slice(), self.verification_key.as_slice()) {
            return false;
        }
        let path = deriving_path();
        match derive_path(seed.as_slice(), path.as_slice()) {
            Ok(k) => {
                self.accounts_metadata.deriving_key = Some(k);
                true
            },
            Err(_) => false,
        }
    }

    /// Unlocks the wallet with `password`, or reports a mismatch and leaves
    /// everything as it was.
    pub fn login(&mut self, password: &str) -> (r: Result<(), WalletError>)
        ensures
            password_accepted(old(self).pad@, old(self).verification_key@, password) <==> r is Ok,
            r is Err ==> r == Err::<(), WalletError>(WalletError::AuthenticationMismatch),
            final(self).pad == old(self).pad,
            final(self).verification_key == old(self).verification_key,
            final(self).accounts_metadata.accounts == old(self).accounts_metadata.accounts,
            r is Ok ==> final(self).accounts_metadata.deriving_key
                == key_at(candidate_seed(old(self).pad@, password), deriving_steps()),
            r is Err ==> final(self).accounts_metadata.deriving_key == old(self).accounts_metadata.deriving_key,
    {
        if self.verify_password(password) {
            Ok(())
        } else {
            Err(WalletError::AuthenticationMismatch)
        }
    }

    /// Whether the deriving key is held.
    pub fn is_unlocked(&self) -> (r: bool)
        ensures
            r == self.accounts_metadata.deriving_key is Some,
    {
        self.accounts_metadata.deriving_key.is_some()
    }

    /// The accounts in index order.
    pub fn accounts(&self) -> (r: &Vec<Account>)
        ensures
            *r == self.accounts_metadata.accounts,
    {
        &self.accounts_metadata.accounts
    }

    /// The active account.
    pub fn active_account(&self) -> (r: &Account)
        requires
            self.accounts_metadata.wf(),
        ensures
            *r == self.accounts_metadata.accounts@[self.accounts_metadata.active as int],
    {
        &self.accounts_metadata.accounts[self.accounts_metadata.active]
    }

    /// Acts on a menu option of the active account: 1 balance (nothing
    /// changes), 2 send (the signing key is made ready), 3 new account,
    /// 4 switch to `selection`, 5 quit, which locks the wallet. Returns
    /// whether to quit.
    pub fn run(&mut self, option: u8, selection: usize) -> (r: Result<bool, WalletError>)
        requires
            old(self).accounts_metadata.wf(),
            old(self).accounts_metadata.deriving_key is Some,
        ensures
            final(self).accounts_metadata.wf(),
            final(self).pad == old(self).pad,
            final(self).verification_key == old(self).verification_key,
            session_outcome(old(self).accounts_metadata, final(self).accounts_metadata, option, selection, r),
    {
        let deriving_key = match self.accounts_metadata.deriving_key {
            Some(k) => k,
            None => return Err(WalletError::AuthenticationMismatch),
        };
        let signal = self.accounts_metadata.run_active(&deriving_key, option);
        proof {
            if option != 2 {
                assert(self.accounts_metadata.accounts@ =~= old(self).accounts_metadata.accounts@);
            } else if key_for(old(self).accounts_metadata.accounts@[old(self).accounts_metadata.active as int], deriving_key) is None {
                assert(self.accounts_metadata.accounts@ =~= old(self).accounts_metadata.accounts@);
            }
        }
        let signal = signal?;
        let quit = self.accounts_metadata.run(signal, selection)?;
        if quit {
            self.accounts_metadata.lock();
        }
        Ok(quit)
    }

    /// Builds and signs a transfer from the active account; the result is
    /// the payload to broadcast.
    pub fn send_transaction(&mut self, recipient: &str, value_wei: u128, gas_price_wei: u128) -> (r: Result<String, WalletError>)
        requires
            old(self).accounts_metadata.wf(),
        ensures
            final(self).accounts_metadata.wf(),
            final(self).pad == old(self).pad,
            final(self).verification_key == old(self).verification_key,
            match old(self).accounts_metadata.deriving_key {
                None => r == Err::<String, WalletError>(WalletError::AuthenticationMismatch)
                    && unchanged(old(self).accounts_metadata, final(self).accounts_metadata),
                Some(k) => {
                    let m = old(self).accounts_metadata;
                    let n = final(self).accounts_metadata;
                    &&& n.deriving_key == m.deriving_key
                    &&& n.active == m.active
                    &&& n.accounts@ == m.accounts@.update(m.active as int, n.accounts@[m.active as int])
                    &&& send_outcome(m.accounts@[m.active as int], n.accounts@[m.active as int], k, recipient.spec_bytes(), value_wei, gas_price_wei, r)
                },
            },
    {
        let deriving_key = match self.accounts_metadata.deriving_key {
            Some(k) => k,
            None => return Err(WalletError::AuthenticationMismatch),
        };
        self.accounts_metadata.send_active(&deriving_key, recipient, value_wei, gas_price_wei)
    }

    /// Applies a node's answer to broadcasting the active account's transfer:
    /// its nonce goes up by one exactly when the answer confirms it.
    pub fn record_broadcast(&mut self, result: Option<&str>) -> (confirmed: bool)
        requires
            old(self).accounts_metadata.wf(),
            old(self).accounts_metadata.accounts@[old(self).accounts_metadata.active as int].nonce < u64::MAX,
        ensures
            final(self).accounts_metadata.wf(),
            final(self).pad == old(self).pad,
            final(self).verification_key == old(self).verification_key,
            final(self).accounts_metadata.deriving_key == old(self).accounts_metadata.deriving_key,
            final(self).accounts_metadata.active == old(self).accounts_metadata.active,
            final(self).accounts_metadata.accounts@ == old(self).accounts_metadata.accounts@.update(
                old(self).accounts_metadata.active as int,
                final(self).accounts_metadata.accounts@[old(self).accounts_metadata.active as int],
            ),
            broadcast_outcome(
                old(self).accounts_metadata.accounts@[old(self).accounts_metadata.active as int],
                final(self).accounts_metadata.accounts@[old(self).accounts_metadata.active as int],
                opt_view(result),
                confirmed,
            ),
    {
        self.accounts_metadata.record_active(result)
    }

    /// Locks the wallet before it is stored: the deriving key and every
    /// signing key are forgotten, so that only the pad, the verification key
    /// and each account's nonce, path and address remain.
    pub fn store(&mut self)
        requires
            old(self).accounts_metadata.wf(),
        ensures
            final(self).accounts_metadata.wf(),
            final(self).pad == old(self).pad,
            final(self).verification_key == old(self).verification_key,
            locked_from(old(self).accounts_metadata, final(self).accounts_metadata),
    {
        self.accounts_metadata.lock();
    }

    /// Rebuilds a stored wallet, locked. Each account is given as (nonce,
    /// path, address); account `i`'s path must end in index `i`, and there
    /// must be at least one.
    pub fn restore(pad: Vec<u8>, verification_key: Vec<u8>, accounts: Vec<(u64, String, String)>) -> (r: Result<Wallet, WalletError>)
        ensures
            match r {
                Ok(w) => w.pad == pad && w.verification_key == verification_key && w.accounts_metadata.wf()
                    && w.accounts_metadata.deriving_key is None && w.accounts_metadata.active == 0
                    && w.accounts_metadata.accounts@.len() == accounts@.len()
                    && forall|i: int| 0 <= i < accounts@.len() ==> {
                        let a = #[trigger] w.accounts_metadata.accounts@[i];
                        a.nonce == accounts@[i].0 && a.path == accounts@[i].1 && a.address == accounts@[i].2 && a.signing_key is None
                    },
                Err(e) => e == WalletError::Persistence && (accounts@.len() == 0
                    || exists|i: int| 0 <= i < accounts@.len() && !ends_in(#[trigger] accounts@[i].1@, i)),
            },
    {
        if accounts.len() == 0 {
            return Err(WalletError::Persistence);
        }
        let mut list: Vec<Account> = Vec::new();
        let mut i: usize = 0;
        while i < accounts.len()
            invariant
                i <= accounts@.len(),
                list@.len() == i,
                forall|j: int| 0 <= j < i ==> {
                    let a = #[trigger] list@[j];
                    a.nonce == accounts@[j].0 && a.path == accounts@[j].1 && a.address == accounts@[j].2
                        && a.signing_key is None && ends_in(a.path@, j)
                },
            decreases accounts@.len() - i,
        {
            let entry = &accounts[i];
            match index_from_path(entry.1.as_str()) {
                Some(n) => {
                    if n as usize != i {
                        return Err(WalletError::Persistence);
                    }
                },
                None => return Err(WalletError::Persistence),
            }
            list.push(Account { nonce: entry.0, path: entry.1.clone(), address: entry.2.clone(), signing_key: None });
            i = i + 1;
        }
        let accounts_metadata = AccountMetadata { deriving_key: None, accounts: list, active: 0 };
        Ok(Wallet { pad, verification_key, accounts_metadata })
    }
}

} // verus!
