use rwallet::account::deriving_path;
use rwallet::text::to_prefixed_hex;
use rwallet::{derive_path, Account, AccountMetadata, ChildIndex, Signal, Wallet, WalletError};

const PHRASE: &str = "abandon abandon abandon abandon abandon abandon abandon abandon abandon abandon abandon about";

fn phrase_seed(phrase: &str) -> Vec<u8> {
    let mnemonic = bip39::Mnemonic::from_phrase(phrase, bip39::Language::English).unwrap();
    bip39::Seed::new(&mnemonic, "").as_bytes().to_vec()
}

fn deriving_key() -> rwallet::ExtPrivKey {
    derive_path(&phrase_seed(PHRASE), &deriving_path()).unwrap()
}

fn stored_form(w: &Wallet) -> (Vec<u8>, Vec<u8>, Vec<(u64, String, String)>) {
    let accounts = w.accounts().iter().map(|a| (a.nonce, a.path.clone(), a.address.clone())).collect();
    (w.pad.clone(), w.verification_key.clone(), accounts)
}

#[test]
fn import_gives_known_first_account() {
    let w = Wallet::from("first password", PHRASE).unwrap();
    assert_eq!(w.accounts().len(), 1);
    assert_eq!(w.accounts()[0].address, "0x9858effd232b4033e47d90003d41ec34ecaeda94");
    assert_eq!(w.verification_key.len(), 33);
    assert_eq!(w.pad.len(), 64);
    assert!(w.is_unlocked());
}

#[test]
fn invalid_phrase_is_an_input_error() {
    assert!(matches!(Wallet::from("pw", "abandon abandon"), Err(WalletError::InputFormat)));
    assert!(matches!(
        Wallet::from("pw", "abandon abandon abandon abandon abandon abandon abandon abandon abandon abandon abandon abandon"),
        Err(WalletError::InputFormat)
    ));
}

#[test]
fn login_with_right_password() {
    let mut w = Wallet::from("secret", PHRASE).unwrap();
    w.store();
    assert!(!w.is_unlocked());
    assert!(w.login("secret").is_ok());
    assert!(w.is_unlocked());
    assert!(w.verify_password("secret"));
}

#[test]
fn login_with_flipped_bits_fails() {
    let mut w = Wallet::from("secret", PHRASE).unwrap();
    w.store();
    assert_eq!(w.login("secres"), Err(WalletError::AuthenticationMismatch));
    assert!(!w.is_unlocked());
    let saved_pad = w.pad.clone();
    w.pad[0] ^= 1;
    assert_eq!(w.login("secret"), Err(WalletError::AuthenticationMismatch));
    assert!(!w.is_unlocked());
    w.pad = saved_pad;
    w.pad[63] ^= 0x80;
    assert_eq!(w.login("secret"), Err(WalletError::AuthenticationMismatch));
    w.pad.push(0);
    assert!(!w.verify_password("secret"));
}

#[test]
fn end_to_end_create_store_reload_login() {
    let (mut w, phrase) = Wallet::new("first password").unwrap();
    assert_eq!(phrase.split_whitespace().count(), 12);
    let a0 = w.accounts()[0].address.clone();
    let vk = w.verification_key.clone();
    w.store();
    let (pad, key, accounts) = stored_form(&w);
    let mut reloaded = Wallet::restore(pad, key, accounts).unwrap();
    assert_eq!(reloaded.verification_key, vk);
    assert!(!reloaded.is_unlocked());
    reloaded.login("first password").unwrap();
    assert_eq!(reloaded.run(3, 0), Ok(false));
    let a1 = reloaded.accounts()[1].address.clone();
    assert_eq!(reloaded.accounts()[1].path, "m/44'/60'/0'/0/1");

    let seed = phrase_seed(&phrase);
    let mut path = deriving_path();
    path.push(ChildIndex::normal(1));
    let independent = derive_path(&seed, &path).unwrap().address().unwrap();
    assert_eq!(a1, to_prefixed_hex(&independent));
    assert_ne!(a1, a0);
}

#[test]
fn restore_refuses_corrupt_records() {
    let w = Wallet::from("pw", PHRASE).unwrap();
    let (pad, key, accounts) = stored_form(&w);
    assert!(matches!(Wallet::restore(pad.clone(), key.clone(), vec![]), Err(WalletError::Persistence)));
    let mut wrong = accounts.clone();
    wrong[0].1 = String::from("m/44'/60'/0'/0/3");
    assert!(matches!(Wallet::restore(pad.clone(), key.clone(), wrong), Err(WalletError::Persistence)));
    let mut garbled = accounts.clone();
    garbled[0].1 = String::from("nonsense");
    assert!(matches!(Wallet::restore(pad, key, garbled), Err(WalletError::Persistence)));
}

#[test]
fn store_clears_secrets() {
    let mut w = Wallet::from("pw", PHRASE).unwrap();
    assert_eq!(w.run(2, 0), Ok(false));
    assert!(w.accounts()[0].signing_key.is_some());
    w.store();
    assert!(!w.is_unlocked());
    assert!(w.accounts()[0].signing_key.is_none());
    assert_eq!(w.accounts()[0].address, "0x9858effd232b4033e47d90003d41ec34ecaeda94");
}

#[test]
fn session_menu_options() {
    let mut w = Wallet::from("pw", PHRASE).unwrap();
    assert_eq!(w.run(1, 0), Ok(false));
    assert_eq!(w.run(9, 0), Err(WalletError::InputFormat));
    assert_eq!(w.run(0, 0), Err(WalletError::InputFormat));
    assert_eq!(w.run(3, 0), Ok(false));
    assert_eq!(w.active_account().path, "m/44'/60'/0'/0/1");
    assert_eq!(w.run(4, 0), Ok(false));
    assert_eq!(w.active_account().path, "m/44'/60'/0'/0/0");
    assert_eq!(w.run(4, 2), Err(WalletError::Index));
    assert_eq!(w.run(2, 0), Ok(false));
    assert!(w.active_account().signing_key.is_some());
    assert_eq!(w.run(5, 0), Ok(true));
    assert!(!w.is_unlocked());
    assert!(w.accounts().iter().all(|a| a.signing_key.is_none()));
    assert_eq!(w.accounts().len(), 2);
}

#[test]
fn recovery_seed_of_phrase() {
    assert_eq!(Wallet::recovery_seed(PHRASE), Some(phrase_seed(PHRASE)));
    assert_eq!(Wallet::recovery_seed("abandon abandon"), None);
    let seed = Wallet::recovery_seed(PHRASE).unwrap();
    let w = Wallet::generate_wallet(&seed, "pw").unwrap();
    assert_eq!(w.accounts()[0].address, "0x9858effd232b4033e47d90003d41ec34ecaeda94");
}

#[test]
fn sending_with_a_malformed_path_is_an_input_error() {
    let key = deriving_key();
    let mut a = Account::new(&key, 0).unwrap();
    a.path = String::from("m/44'/60'/0'/0/");
    assert_eq!(a.run(&key, 2), Err(WalletError::InputFormat));
    assert!(a.signing_key.is_none());
    assert_eq!(
        a.send_transaction(&key, "0x3535353535353535353535353535353535353535", 1, 1),
        Err(WalletError::InputFormat)
    );
    assert_eq!(a.send_transaction(&key, "0x35", 1, 1), Err(WalletError::AddressFormat));
}

#[test]
fn registry_creates_and_switches() {
    let mut m = AccountMetadata::new(deriving_key()).unwrap();
    assert_eq!(m.accounts.len(), 1);
    assert_eq!(m.create_account(), Ok(1));
    assert_eq!(m.create_account(), Ok(2));
    assert_eq!(m.active, 2);
    assert_eq!(m.get_account(1).ok().map(|a| a.path.clone()), Some(String::from("m/44'/60'/0'/0/1")));
    assert!(matches!(m.get_account(3), Err(WalletError::Index)));
    assert_eq!(m.switch_active(0), Ok(()));
    assert_eq!(m.active, 0);
    assert_eq!(m.switch_active(3), Err(WalletError::Index));
    assert_eq!(m.active, 0);
    assert_eq!(m.default_account().ok().map(|a| a.address.clone()), Some(String::from("0x9858effd232b4033e47d90003d41ec34ecaeda94")));
    assert_eq!(m.run(Signal::Quit, 0), Ok(true));
    assert_eq!(m.run(Signal::SwitchAccount, 1), Ok(false));
    assert_eq!(m.active, 1);
}

#[test]
fn registry_lists_accounts() {
    let mut m = AccountMetadata::new(deriving_key()).unwrap();
    m.create_account().unwrap();
    let lines = m.print_accounts();
    assert_eq!(lines.len(), 2);
    assert_eq!(lines[0], "0) 0x9858effd232b4033e47d90003d41ec34ecaeda94");
    assert_eq!(lines[1], format!("1) {}", m.accounts[1].address));
}

#[test]
fn nonce_moves_only_on_confirmed_broadcast() {
    let mut a = Account::new(&deriving_key(), 0).unwrap();
    assert!(a.record_broadcast(Some("0x5e1b")));
    assert_eq!(a.nonce, 1);
    assert!(!a.record_broadcast(Some("0x0")));
    assert_eq!(a.nonce, 1);
    assert!(!a.record_broadcast(None));
    assert_eq!(a.nonce, 1);
    assert!(a.record_broadcast(Some("0x00")));
    assert_eq!(a.nonce, 2);
}

#[test]
fn account_menu_and_signing_key() {
    let key = deriving_key();
    let mut a = Account::new(&key, 0).unwrap();
    assert_eq!(a.index(), Some(0));
    assert_eq!(a.run(&key, 3), Ok(Signal::CreateAccount));
    assert_eq!(a.run(&key, 4), Ok(Signal::SwitchAccount));
    assert_eq!(a.run(&key, 5), Ok(Signal::Quit));
    assert_eq!(a.run(&key, 1), Ok(Signal::Continue));
    assert!(a.signing_key.is_none());
    assert_eq!(a.run(&key, 6), Err(WalletError::InputFormat));
    assert_eq!(a.run(&key, 2), Ok(Signal::Continue));
    let secret = a.signing_key.unwrap();
    assert_eq!(hex::encode(secret), "1ab42cc412b618bdea3a599e3c9bae199ebf030895b039e9db1e30dafb12b727");
    assert_eq!(a.materialize_signing_key(&key), Ok(secret));
}

#[test]
fn balance_from_node_answer() {
    assert_eq!(Account::query_balance(Some("0x1bc16d674ec80000")), Ok(2_000_000_000_000_000_000));
    assert_eq!(Account::query_balance(None), Err(WalletError::Network));
    assert_eq!(Account::query_balance(Some("1000")), Err(WalletError::InputFormat));
}

#[test]
fn send_signs_at_current_nonce() {
    let mut w = Wallet::from("pw", PHRASE).unwrap();
    let first = w.send_transaction("0x3535353535353535353535353535353535353535", 1000, 2_000_000_000).unwrap();
    assert!(first.starts_with("0x"));
    let again = w.send_transaction("0x3535353535353535353535353535353535353535", 1000, 2_000_000_000).unwrap();
    assert_eq!(first, again);
    assert!(w.record_broadcast(Some("0xabc")));
    assert_eq!(w.active_account().nonce, 1);
    let next = w.send_transaction("0x3535353535353535353535353535353535353535", 1000, 2_000_000_000).unwrap();
    assert_ne!(first, next);
    assert_eq!(
        w.send_transaction("0x35", 1000, 2_000_000_000),
        Err(WalletError::AddressFormat)
    );
    w.store();
    assert_eq!(
        w.send_transaction("0x3535353535353535353535353535353535353535", 1, 1),
        Err(WalletError::AuthenticationMismatch)
    );
}
