//! Accounts and the registry that owns them. Account `i` sits at child `i`
//! (non-hardened) of the deriving key; its signing key is derived on first use
//! and never persisted.
use vstd::prelude::*;
use vstd::string::*;

use crate::derivation::{address_of_secret, private_child, valid_secret, ChildIndex, ExtPrivKey};
use crate::error::WalletError;
use crate::signer::{legacy_signed, Transfer, CHAIN_ID, TRANSFER_GAS_LIMIT};
use crate::text::{
    address_text, decimal, decimal_string, index_from_path, lemma_path_index_of_text, path_index,
    path_string, path_text, quantity_value, recipient_bytes, to_prefixed_hex, parse_quantity,
};

verus! {

/// The path of the key that only proves a password right: m/44'/60'/0'.
pub open spec fn verification_steps() -> Seq<ChildIndex> {
    seq![
        ChildIndex { index: 44, hardened: true },
        ChildIndex { index: 60, hardened: true },
        ChildIndex { index: 0, hardened: true },
    ]
}

/// The path of the key all accounts descend from: m/44'/60'/0'/0.
pub open spec fn deriving_steps() -> Seq<ChildIndex> {
    verification_steps().push(ChildIndex { index: 0, hardened: false })
}

/// The full path of account `index`.
pub open spec fn account_steps(index: u32) -> Seq<ChildIndex> {
    deriving_steps().push(ChildIndex { index, hardened: false })
}

/// The verification path as steps.
pub fn verification_path() -> (r: Vec<ChildIndex>)
    ensures
        r@ == verification_steps(),
{
    let r = vec![ChildIndex::hardened(44), ChildIndex::hardened(60), ChildIndex::hardened(0)];
    assert(r@ =~= verification_steps());
    r
}

/// The account-deriving path as steps.
pub fn deriving_path() -> (r: Vec<ChildIndex>)
    ensures
        r@ == deriving_steps(),
{
    let mut r = verification_path();
    r.push(ChildIndex::normal(0));
    r
}

/// The key of account `index` below the deriving key.
pub open spec fn account_key(deriving_key: ExtPrivKey, index: u32) -> Option<ExtPrivKey> {
    private_child(deriving_key, ChildIndex { index, hardened: false })
}

/// `a` is account `index` as created from `deriving_key`: nonce 0, its path,
/// its cached address, no signing key yet.
pub open spec fn is_new_account(a: Account, deriving_key: ExtPrivKey, index: u32) -> bool {
    &&& a.nonce == 0
    &&& a.signing_key is None
    &&& a.path@ == path_text(account_steps(index))
    &&& match account_key(deriving_key, index) {
        Some(k) => valid_secret(k.secret@) && a.address@ == address_text(address_of_secret(k.secret)),
        None => false,
    }
}

/// Account `index` cannot be created from `deriving_key`.
pub open spec fn account_fails(deriving_key: ExtPrivKey, index: int) -> bool {
    index > u32::MAX || match account_key(deriving_key, index as u32) {
        Some(k) => !valid_secret(k.secret@),
        None => true,
    }
}

/// A node's answer to a broadcast confirms it: a result is present and it is
/// not the null hash `0x0`.
pub open spec fn confirms(result: Option<Seq<char>>) -> bool {
    match result {
        Some(s) => s != seq!['0', 'x', '0'],
        None => false,
    }
}

/// What the active account asks of the registry after a menu choice.
#[derive(Debug, Clone, Copy, PartialEq, Eq, Structural)]
pub enum Signal {
    Continue,
    CreateAccount,
    SwitchAccount,
    Quit,
}

/// The signal of a menu option: 1 balance, 2 send, 3 new account, 4 switch,
/// 5 quit.
pub open spec fn signal_of(option: u8) -> Option<Signal> {
    if option == 1 || option == 2 {
        Some(Signal::Continue)
    } else if option == 3 {
        Some(Signal::CreateAccount)
    } else if option == 4 {
        Some(Signal::SwitchAccount)
    } else if option == 5 {
        Some(Signal::Quit)
    } else {
        None
    }
}

/// One account of the wallet.
#[derive(Clone)]
pub struct Account {
    /// Confirmed transactions sent from this account.
    pub nonce: u64,
    /// The full derivation path, ending in the account index.
    pub path: String,
    /// The `0x`-prefixed lowercase hex address.
    pub address: String,
    /// The signing key, derived on first use; held in memory only.
    pub signing_key: Option<[u8; 32]>,
}

impl Account {
    /// A held signing key is a valid secret scalar.
    pub open spec fn wf(&self) -> bool {
        self.signing_key is Some ==> valid_secret(self.signing_key->Some_0@)
    }

    /// Creates account `index` below `deriving_key` (the key at
    /// m/44'/60'/0'/0): nonce 0, no signing key until one is needed.
    pub fn new(deriving_key: &ExtPrivKey, index: usize) -> (r: Result<Account, WalletError>)
        ensures
            match r {
                Ok(a) => index <= u32::MAX && is_new_account(a, *deriving_key, index as u32),
                Err(e) => account_fails(*deriving_key, index as int) && e == WalletError::CryptoDerivation,
            },
    {
        if index > 0xFFFF_FFFF {
            return Err(WalletError::CryptoDerivation);
        }
        let index = index as u32;
        let child = deriving_key.derive_child(ChildIndex::normal(index))?;
        let address_bytes = child.address()?;
        let address = to_prefixed_hex(address_bytes.as_slice());
        let mut steps = deriving_path();
        steps.push(ChildIndex::normal(index));
        let path = path_string(steps.as_slice());
        Ok(Account { nonce: 0, path, address, signing_key: None })
    }

    /// The account index at the end of the path.
    pub fn index(&self) -> (r: Option<u32>)
        ensures
            r == path_index(self.path@),
    {
        index_from_path(self.path.as_str())
    }

    /// Derives and keeps the signing key if it is not held yet: the key of
    /// the child at the index the path ends in. A held key is kept.
    pub fn materialize_signing_key(&mut self, deriving_key: &ExtPrivKey) -> (r: Result<[u8; 32], WalletError>)
        ensures
            match key_for(*old(self), *deriving_key) {
                Some(k) => r == Ok::<[u8; 32], WalletError>(k) && *final(self) == with_signing_key(*old(self), k),
                None => r == Err::<[u8; 32], WalletError>(key_error(*old(self))) && *final(self) == *old(self),
            },
            r is Ok ==> valid_secret(r->Ok_0@) || old(self).signing_key is Some,
            old(self).wf() ==> final(self).wf(),
    {
        match self.signing_key {
            Some(k) => Ok(k),
            None => {
                let index = match self.index() {
                    Some(i) => i,
                    None => return Err(WalletError::InputFormat),
                };
                let child = deriving_key.derive_child(ChildIndex::normal(index))?;
                self.signing_key = Some(child.secret);
                Ok(child.secret)
            },
        }
    }

    /// Acts on a menu option for this account: sending (2) first makes sure
    /// the signing key is held; an unknown option is an input error.
    pub fn run(&mut self, deriving_key: &ExtPrivKey, option: u8) -> (r: Result<Signal, WalletError>)
        ensures
            run_outcome(*old(self), *final(self), *deriving_key, option, r),
            old(self).wf() ==> final(self).wf(),
    {
        if option == 1 {
            Ok(Signal::Continue)
        } else if option == 2 {
            self.materialize_signing_key(deriving_key)?;
            Ok(Signal::Continue)
        } else if option == 3 {
            Ok(Signal::CreateAccount)
        } else if option == 4 {
            Ok(Signal::SwitchAccount)
        } else if option == 5 {
            Ok(Signal::Quit)
        } else {
            Err(WalletError::InputFormat)
        }
    }

    /// The balance a node reported for this account: its `result` field,
    /// a `0x`-prefixed hex quantity.
    pub fn query_balance(result: Option<&str>) -> (r: Result<u128, WalletError>)
        ensures
            match result {
                None => r == Err::<u128, WalletError>(WalletError::Network),
                Some(s) => match quantity_value(s.spec_bytes()) {
                    Some(v) => r == Ok::<u128, WalletError>(v),
                    None => r == Err::<u128, WalletError>(WalletError::InputFormat),
                },
            },
    {
        match result {
            None => Err(WalletError::Network),
            Some(s) => parse_quantity(s),
        }
    }

    /// Builds and signs a value transfer from this account at its current
    /// nonce, deriving the signing key first if needed. The result is the
    /// `0x`-prefixed hex payload to broadcast.
    pub fn send_transaction(&mut self, deriving_key: &ExtPrivKey, recipient: &str, value_wei: u128, gas_price_wei: u128) -> (r: Result<String, WalletError>)
        requires
            old(self).wf(),
        ensures
            send_outcome(*old(self), *final(self), *deriving_key, recipient.spec_bytes(), value_wei, gas_price_wei, r),
            final(self).wf(),
    {
        let tx = Transfer::new(self.nonce, recipient, value_wei, gas_price_wei, TRANSFER_GAS_LIMIT, Vec::new())?;
        let key = self.materialize_signing_key(deriving_key)?;
        proof {
            broadcast use vstd::array::group_array_axioms;
            assert(tx.recipient@ == choose_recipient(recipient.spec_bytes())@);
            assert(tx.recipient == choose_recipient(recipient.spec_bytes()));
            assert(tx.data@ =~= Seq::<u8>::empty());
        }
        Ok(tx.signed_text(&key, CHAIN_ID))
    }

    /// Applies a node's answer to a broadcast: the nonce goes up by exactly
    /// one when the answer confirms it, and stays otherwise.
    pub fn record_broadcast(&mut self, result: Option<&str>) -> (confirmed: bool)
        requires
            old(self).nonce < u64::MAX,
        ensures
            broadcast_outcome(*old(self), *final(self), opt_view(result), confirmed),
    {
        let confirmed = match result {
            Some(s) => !is_null_hash(s),
            None => false,
        };
        if confirmed {
            self.nonce = self.nonce + 1;
        }
        confirmed
    }
}

/// `a` with `key` as its signing key.
pub open spec fn with_signing_key(a: Account, key: [u8; 32]) -> Account {
    Account { nonce: a.nonce, path: a.path, address: a.address, signing_key: Some(key) }
}

/// The signing key account `a` signs with below `deriving_key`: the one it
/// holds, else the secret of the child at the index its path ends in.
pub open spec fn key_for(a: Account, deriving_key: ExtPrivKey) -> Option<[u8; 32]> {
    match a.signing_key {
        Some(k) => Some(k),
        None => match path_index(a.path@) {
            Some(i) => match account_key(deriving_key, i) {
                Some(c) => Some(c.secret),
                None => None,
            },
            None => None,
        },
    }
}

/// Why no signing key can be had for `a`: its path ends in no index, or the
/// child key cannot be derived.
pub open spec fn key_error(a: Account) -> WalletError {
    if path_index(a.path@) is None {
        WalletError::InputFormat
    } else {
        WalletError::CryptoDerivation
    }
}

/// `Account::run` took `before` to `after` on `option`, answering `r`.
pub open spec fn run_outcome(before: Account, after: Account, deriving_key: ExtPrivKey, option: u8, r: Result<Signal, WalletError>) -> bool {
    if option == 2 {
        match key_for(before, deriving_key) {
            Some(k) => r == Ok::<Signal, WalletError>(Signal::Continue) && after == with_signing_key(before, k),
            None => r == Err::<Signal, WalletError>(key_error(before)) && after == before,
        }
    } else {
        after == before && match signal_of(option) {
            Some(s) => r == Ok::<Signal, WalletError>(s),
            None => r == Err::<Signal, WalletError>(WalletError::InputFormat),
        }
    }
}

/// `Account::send_transaction` took `before` to `after` for a transfer to
/// the recipient text `recipient`, answering `r`.
pub open spec fn send_outcome(
    before: Account,
    after: Account,
    deriving_key: ExtPrivKey,
    recipient: Seq<u8>,
    value_wei: u128,
    gas_price_wei: u128,
    r: Result<String, WalletError>,
) -> bool {
    match recipient_bytes(recipient) {
        None => r == Err::<String, WalletError>(WalletError::AddressFormat) && after == before,
        Some(_) => match key_for(before, deriving_key) {
            Some(k) => r is Ok && after == with_signing_key(before, k) && r->Ok_0@ == address_text(
                legacy_signed(before.nonce, choose_recipient(recipient), value_wei, gas_price_wei, TRANSFER_GAS_LIMIT, Seq::empty(), k, CHAIN_ID),
            ),
            None => r == Err::<String, WalletError>(key_error(before)) && after == before,
        },
    }
}

/// `Account::record_broadcast` took `before` to `after` on a node's answer.
pub open spec fn broadcast_outcome(before: Account, after: Account, result: Option<Seq<char>>, confirmed: bool) -> bool {
    &&& confirmed == confirms(result)
    &&& after.nonce == if confirmed { before.nonce + 1 } else { before.nonce as int }
    &&& after.path == before.path
    &&& after.address == before.address
    &&& after.signing_key == before.signing_key
}

/// The characters of an optional string.
pub open spec fn opt_view(s: Option<&str>) -> Option<Seq<char>> {
    match s {
        Some(t) => Some(t@),
        None => None,
    }
}

/// The 20-byte array whose view is the recipient a text names.
pub open spec fn choose_recipient(s: Seq<u8>) -> [u8; 20] {
    choose|a: [u8; 20]| Some(a@) == recipient_bytes(s)
}

/// Whether `s` is the null hash `0x0`.
fn is_null_hash(s: &str) -> (r: bool)
    ensures
        r == (s@ == seq!['0', 'x', '0']),
{
    if s.unicode_len() != 3 {
        return false;
    }
    let r = s.get_char(0) == '0' && s.get_char(1) == 'x' && s.get_char(2) == '0';
    if r {
        assert(s@ =~= seq!['0', 'x', '0']);
    }
    r
}

/// The registry of accounts: the deriving key while unlocked, the accounts in
/// index order, and which one is active.
pub struct AccountMetadata {
    /// The key at m/44'/60'/0'/0; held in memory only, while unlocked.
    pub deriving_key: Option<ExtPrivKey>,
    /// Account `i` is at position `i`.
    pub accounts: Vec<Account>,
    /// The position of the active account.
    pub active: usize,
}

/// `path` ends in the account index `i`.
pub open spec fn ends_in(path: Seq<char>, i: int) -> bool {
    match path_index(path) {
        Some(n) => n as int == i,
        None => false,
    }
}

/// `after` is `before` locked: no deriving key, no signing keys, the same
/// active account, and each account's nonce, path and address kept.
pub open spec fn locked_from(before: AccountMetadata, after: AccountMetadata) -> bool {
    &&& after.deriving_key is None
    &&& after.active == before.active
    &&& after.accounts@.len() == before.accounts@.len()
    &&& forall|i: int| 0 <= i < after.accounts@.len() ==> {
        let a = #[trigger] after.accounts@[i];
        let b = before.accounts@[i];
        a.nonce == b.nonce && a.path@ == b.path@ && a.address@ == b.address@ && a.signing_key is None
    }
}

/// Account `i` has a path ending in `i`, and each held signing key is valid.
pub open spec fn accounts_wf(accounts: Seq<Account>) -> bool {
    &&& forall|i: int| 0 <= i < accounts.len() ==> ends_in(#[trigger] accounts[i].path@, i)
    &&& forall|i: int| 0 <= i < accounts.len() ==> (#[trigger] accounts[i]).wf()
}

/// Replacing one account by one with the same path and a valid key keeps the
/// accounts well formed.
proof fn lemma_replace_account(accounts: Seq<Account>, i: int, a: Account)
    requires
        accounts_wf(accounts),
        0 <= i < accounts.len(),
        a.path@ == accounts[i].path@,
        a.wf(),
    ensures
        accounts_wf(accounts.update(i, a)),
{
    let next = accounts.update(i, a);
    assert forall|j: int| 0 <= j < next.len() implies ends_in(#[trigger] next[j].path@, j) by {
        if j != i {
            assert(next[j] == accounts[j]);
        }
    }
    assert forall|j: int| 0 <= j < next.len() implies (#[trigger] next[j]).wf() by {
        if j != i {
            assert(next[j] == accounts[j]);
        }
    }
}

/// The line that lists account `index` with `address`: `<index>) <address>`.
pub open spec fn account_line(index: nat, address: Seq<char>) -> Seq<char> {
    decimal(index) + seq![')', ' '] + address
}

impl AccountMetadata {
    /// There is at least one account, the active one exists, account `i`'s
    /// path ends in index `i`, and each held signing key is valid.
    pub open spec fn wf(&self) -> bool {
        &&& self.accounts@.len() > 0
        &&& self.active < self.accounts@.len()
        &&& accounts_wf(self.accounts@)
    }

    /// A registry holding `deriving_key` with account 0 active.
    pub fn new(deriving_key: ExtPrivKey) -> (r: Result<AccountMetadata, WalletError>)
        ensures
            match r {
                Ok(m) => m.wf() && m.deriving_key == Some(deriving_key) && m.accounts@.len() == 1
                    && is_new_account(m.accounts@[0], deriving_key, 0) && m.active == 0,
                Err(e) => account_fails(deriving_key, 0) && e == WalletError::CryptoDerivation,
            },
    {
        let first = Account::new(&deriving_key, 0)?;
        proof {
            lemma_path_index_of_text(deriving_steps(), 0);
        }
        let accounts = vec![first];
        Ok(AccountMetadata { deriving_key: Some(deriving_key), accounts, active: 0 })
    }

    /// Appends the account at the next index and makes it active; returns its
    /// index.
    pub fn create_account(&mut self) -> (r: Result<usize, WalletError>)
        requires
            old(self).wf(),
            old(self).deriving_key is Some,
        ensures
            match r {
                Ok(i) => i == old(self).accounts@.len() && final(self).accounts@.len() == i + 1
                    && final(self).accounts@.subrange(0, i as int) == old(self).accounts@
                    && is_new_account(final(self).accounts@[i as int], old(self).deriving_key->Some_0, i as u32)
                    && final(self).active == i && final(self).deriving_key == old(self).deriving_key && final(self).wf(),
                Err(e) => *final(self) == *old(self) && e == WalletError::CryptoDerivation
                    && account_fails(old(self).deriving_key->Some_0, old(self).accounts@.len() as int),
            },
            r is Ok <==> !account_fails(old(self).deriving_key->Some_0, old(self).accounts@.len() as int),
    {
        let index = self.accounts.len();
        let account = match &self.deriving_key {
            Some(k) => Account::new(k, index)?,
            None => return Err(WalletError::CryptoDerivation),
        };
        proof {
            lemma_path_index_of_text(deriving_steps(), index as u32);
        }
        self.accounts.push(account);
        self.active = index;
        assert(self.accounts@.subrange(0, index as int) =~= old(self).accounts@);
        Ok(index)
    }

    /// The account at `index`.
    pub fn get_account(&self, index: usize) -> (r: Result<&Account, WalletError>)
        ensures
            match r {
                Ok(a) => index < self.accounts@.len() && *a == self.accounts@[index as int],
                Err(e) => index >= self.accounts@.len() && e == WalletError::Index,
            },
    {
        if index < self.accounts.len() {
            Ok(&self.accounts[index])
        } else {
            Err(WalletError::Index)
        }
    }

    /// The first account.
    pub fn default_account(&self) -> (r: Result<&Account, WalletError>)
        ensures
            match r {
                Ok(a) => self.accounts@.len() > 0 && *a == self.accounts@[0],
                Err(e) => self.accounts@.len() == 0 && e == WalletError::Index,
            },
    {
        self.get_account(0)
    }

    /// Makes the account at `index` the active one.
    pub fn switch_active(&mut self, index: usize) -> (r: Result<(), WalletError>)
        ensures
            final(self).accounts == old(self).accounts,
            final(self).deriving_key == old(self).deriving_key,
            index < old(self).accounts@.len() ==> r is Ok && final(self).active == index,
            index >= old(self).accounts@.len() ==> r == Err::<(), WalletError>(WalletError::Index)
                && final(self).active == old(self).active,
    {
        if index < self.accounts.len() {
            self.active = index;
            Ok(())
        } else {
            Err(WalletError::Index)
        }
    }

    /// One line per account, in index order: `<index>) <address>`.
    pub fn print_accounts(&self) -> (r: Vec<String>)
        ensures
            r@.len() == self.accounts@.len(),
            forall|i: int| 0 <= i < r@.len() ==> (#[trigger] r@[i])@ == account_line(i as nat, self.accounts@[i].address@),
    {
        let mut lines: Vec<String> = Vec::new();
        let mut i: usize = 0;
        while i < self.accounts.len()
            invariant
                i <= self.accounts@.len(),
                lines@.len() == i,
                forall|j: int| 0 <= j < i ==> (#[trigger] lines@[j])@ == account_line(j as nat, self.accounts@[j].address@),
            decreases self.accounts@.len() - i,
        {
            let mut line = decimal_string(i as u64);
            line.append(") ");
            line.append(self.accounts[i].address.as_str());
            proof {
                reveal_strlit(") ");
            }
            assert(line@ =~= account_line(i as nat, self.accounts@[i as int].address@));
            lines.push(line);
            i = i + 1;
        }
        lines
    }

    /// Applies a signal from the active account: a new account becomes
    /// active, a switch goes to `selection`; returns whether to quit.
    pub fn run(&mut self, signal: Signal, selection: usize) -> (r: Result<bool, WalletError>)
        requires
            old(self).wf(),
            old(self).deriving_key is Some,
        ensures
            final(self).wf(),
            final(self).deriving_key == old(self).deriving_key,
            signal == Signal::Quit ==> r == Ok::<bool, WalletError>(true) && *final(self) == *old(self),
            signal == Signal::Continue ==> r == Ok::<bool, WalletError>(false) && *final(self) == *old(self),
            signal == Signal::SwitchAccount ==> final(self).accounts == old(self).accounts && if selection < old(self).accounts@.len() {
                r == Ok::<bool, WalletError>(false) && final(self).active == selection
            } else {
                r == Err::<bool, WalletError>(WalletError::Index) && final(self).active == old(self).active
            },
            signal == Signal::CreateAccount ==> match r {
                Ok(q) => !q && final(self).accounts@.len() == old(self).accounts@.len() + 1
                    && final(self).accounts@.subrange(0, old(self).accounts@.len() as int) == old(self).accounts@
                    && is_new_account(final(self).accounts@[old(self).accounts@.len() as int], old(self).deriving_key->Some_0, old(self).accounts@.len() as u32)
                    && final(self).active == old(self).accounts@.len(),
                Err(e) => *final(self) == *old(self) && e == WalletError::CryptoDerivation,
            },
            signal == Signal::CreateAccount ==> (r is Ok <==> !account_fails(old(self).deriving_key->Some_0, old(self).accounts@.len() as int)),
    {
        match signal {
            Signal::Continue => Ok(false),
            Signal::Quit => Ok(true),
            Signal::SwitchAccount => {
                self.switch_active(selection)?;
                Ok(false)
            },
            Signal::CreateAccount => {
                self.create_account()?;
                Ok(false)
            },
        }
    }

    /// Runs a menu option on the active account.
    pub fn run_active(&mut self, deriving_key: &ExtPrivKey, option: u8) -> (r: Result<Signal, WalletError>)
        requires
            old(self).wf(),
        ensures
            final(self).wf(),
            final(self).deriving_key == old(self).deriving_key,
            final(self).active == old(self).active,
            final(self).accounts@ == old(self).accounts@.update(old(self).active as int, final(self).accounts@[old(self).active as int]),
            run_outcome(old(self).accounts@[old(self).active as int], final(self).accounts@[old(self).active as int], *deriving_key, option, r),
    {
        let active = self.active;
        let mut account = self.accounts.remove(active);
        let r = account.run(deriving_key, option);
        self.accounts.insert(active, account);
        proof {
            assert(self.accounts@ =~= old(self).accounts@.update(active as int, account));
            lemma_replace_account(old(self).accounts@, active as int, account);
        }
        r
    }

    /// Builds and signs a transfer from the active account.
    pub fn send_active(&mut self, deriving_key: &ExtPrivKey, recipient: &str, value_wei: u128, gas_price_wei: u128) -> (r: Result<String, WalletError>)
        requires
            old(self).wf(),
        ensures
            final(self).wf(),
            final(self).deriving_key == old(self).deriving_key,
            final(self).active == old(self).active,
            final(self).accounts@ == old(self).accounts@.update(old(self).active as int, final(self).accounts@[old(self).active as int]),
            send_outcome(old(self).accounts@[old(self).active as int], final(self).accounts@[old(self).active as int], *deriving_key,
                recipient.spec_bytes(), value_wei, gas_price_wei, r),
    {
        let active = self.active;
        let mut account = self.accounts.remove(active);
        let r = account.send_transaction(deriving_key, recipient, value_wei, gas_price_wei);
        self.accounts.insert(active, account);
        proof {
            assert(self.accounts@ =~= old(self).accounts@.update(active as int, account));
            lemma_replace_account(old(self).accounts@, active as int, account);
        }
        r
    }

    /// Applies a node's answer to a broadcast from the active account.
    pub fn record_active(&mut self, result: Option<&str>) -> (confirmed: bool)
        requires
            old(self).wf(),
            old(self).accounts@[old(self).active as int].nonce < u64::MAX,
        ensures
            final(self).wf(),
            final(self).deriving_key == old(self).deriving_key,
            final(self).active == old(self).active,
            final(self).accounts@ == old(self).accounts@.update(old(self).active as int, final(self).accounts@[old(self).active as int]),
            broadcast_outcome(old(self).accounts@[old(self).active as int], final(self).accounts@[old(self).active as int], opt_view(result), confirmed),
    {
        let active = self.active;
        let mut account = self.accounts.remove(active);
        let confirmed = account.record_broadcast(result);
        self.accounts.insert(active, account);
        proof {
            assert(self.accounts@ =~= old(self).accounts@.update(active as int, account));
            lemma_replace_account(old(self).accounts@, active as int, account);
        }
        confirmed
    }

    /// Forgets the deriving key and every signing key; accounts keep their
    /// nonce, path and address.
    pub fn lock(&mut self)
        requires
            old(self).wf(),
        ensures
            final(self).wf(),
            locked_from(*old(self), *final(self)),
    {
        let mut cleared: Vec<Account> = Vec::new();
        let mut i: usize = 0;
        while i < self.accounts.len()
            invariant
                i <= self.accounts@.len(),
                self.accounts == old(self).accounts,
                cleared@.len() == i,
                forall|j: int| 0 <= j < i ==> {
                    let a = #[trigger] cleared@[j];
                    let b = old(self).accounts@[j];
                    a.nonce == b.nonce && a.path@ == b.path@ && a.address@ == b.address@ && a.signing_key is None
                },
            decreases self.accounts@.len() - i,
        {
            let a = &self.accounts[i];
            cleared.push(Account { nonce: a.nonce, path: a.path.clone(), address: a.address.clone(), signing_key: None });
            i = i + 1;
        }
        self.accounts = cleared;
        self.deriving_key = None;
    }
}

} // verus!
