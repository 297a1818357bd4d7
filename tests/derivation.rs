use rwallet::account::{deriving_path, verification_path};
use bip32::secp256k1::elliptic_curve::sec1::ToEncodedPoint;
use rwallet::derivation::address_from_public_key;
use rwallet::text::{path_string, to_prefixed_hex};
use rwallet::{derive_path, Account, ChildIndex, ExtPrivKey, WalletError};

fn bytes(text: &str) -> Vec<u8> {
    hex::decode(text).unwrap()
}

fn abandon_seed() -> Vec<u8> {
    let phrase = "abandon abandon abandon abandon abandon abandon abandon abandon abandon abandon abandon about";
    let mnemonic = bip39::Mnemonic::from_phrase(phrase, bip39::Language::English).unwrap();
    bip39::Seed::new(&mnemonic, "").as_bytes().to_vec()
}

#[test]
fn bip32_vector_one_master_and_hardened_child() {
    let seed = bytes("000102030405060708090a0b0c0d0e0f");
    let master = ExtPrivKey::from_seed(&seed).unwrap();
    assert_eq!(master.secret.to_vec(), bytes("e8f32e723decf4051aefac8e2c93c9c5b214313817cdb01a1494b917c8436b35"));
    assert_eq!(master.chain_code.to_vec(), bytes("873dff81c02f525623fd1fe5167eac3a55a049de3d314bb42ee227ffed37d508"));
    assert_eq!(master.depth, 0);
    let child = master.derive_child(ChildIndex::hardened(0)).unwrap();
    assert_eq!(child.secret.to_vec(), bytes("edb2e14f9ee77d26dd93b4ecede8d16ed408ce149b6cd80b0715a2d911a0afea"));
    assert_eq!(child.chain_code.to_vec(), bytes("47fdacbd0f1097043b78c63c20c34ef4ed9a111d980047ad16282c7ae6236141"));
    assert_eq!(child.depth, 1);
}

#[test]
fn seed_of_wrong_length_is_refused() {
    assert!(matches!(ExtPrivKey::from_seed(&[7u8; 20]), Err(WalletError::CryptoDerivation)));
    assert!(matches!(ExtPrivKey::from_seed(&[]), Err(WalletError::CryptoDerivation)));
}

#[test]
fn ledger_vector_for_first_account() {
    let seed = abandon_seed();
    let mut path = deriving_path();
    path.push(ChildIndex::normal(0));
    let key = derive_path(&seed, &path).unwrap();
    assert_eq!(key.secret.to_vec(), bytes("1ab42cc412b618bdea3a599e3c9bae199ebf030895b039e9db1e30dafb12b727"));
    let address = key.address().unwrap();
    assert_eq!(to_prefixed_hex(&address), "0x9858effd232b4033e47d90003d41ec34ecaeda94");

    let deriving = derive_path(&seed, &deriving_path()).unwrap();
    let account = Account::new(&deriving, 0).unwrap();
    assert_eq!(account.address, "0x9858effd232b4033e47d90003d41ec34ecaeda94");
    assert_eq!(account.path, "m/44'/60'/0'/0/0");
    assert_eq!(account.nonce, 0);
    assert!(account.signing_key.is_none());
}

#[test]
fn derivation_is_deterministic() {
    let seed = abandon_seed();
    let first = derive_path(&seed, &verification_path()).unwrap();
    let second = derive_path(&seed, &verification_path()).unwrap();
    assert_eq!(first.secret, second.secret);
    assert_eq!(first.chain_code, second.chain_code);
    assert_eq!(first.depth, 3);
    let deriving = derive_path(&seed, &deriving_path()).unwrap();
    let a = Account::new(&deriving, 5).unwrap();
    let b = Account::new(&deriving, 5).unwrap();
    assert_eq!(a.address, b.address);
    assert_eq!(a.path, "m/44'/60'/0'/0/5");
}

#[test]
fn hardened_child_needs_private_parent() {
    let seed = abandon_seed();
    let parent = derive_path(&seed, &verification_path()).unwrap();
    let public = parent.public_key().unwrap();
    assert!(matches!(public.derive_child(ChildIndex::hardened(0)), Err(WalletError::CryptoDerivation)));

    let child = parent.derive_child(ChildIndex::hardened(0)).unwrap();
    let mut path = verification_path();
    path.push(ChildIndex::hardened(0));
    let from_seed = derive_path(&seed, &path).unwrap();
    assert_eq!(child.secret, from_seed.secret);
    assert_eq!(child.chain_code, from_seed.chain_code);
}

#[test]
fn public_derivation_matches_private_for_normal_child() {
    let seed = abandon_seed();
    let deriving = derive_path(&seed, &deriving_path()).unwrap();
    let from_public = deriving.public_key().unwrap().derive_child(ChildIndex::normal(3)).unwrap();
    let from_private = deriving.derive_child(ChildIndex::normal(3)).unwrap().public_key().unwrap();
    assert_eq!(from_public.point, from_private.point);
    assert_eq!(from_public.chain_code, from_private.chain_code);
    assert_eq!(from_public.depth, 5);
}

#[test]
fn accounts_zero_and_one_differ() {
    let seed = abandon_seed();
    let deriving = derive_path(&seed, &deriving_path()).unwrap();
    let a0 = Account::new(&deriving, 0).unwrap();
    let a1 = Account::new(&deriving, 1).unwrap();
    assert_ne!(a0.address, a1.address);
    assert_eq!(a1.path, "m/44'/60'/0'/0/1");
}

#[test]
fn index_out_of_range_is_refused() {
    assert!(matches!(ChildIndex::normal(0x8000_0000).number(), Err(WalletError::CryptoDerivation)));
    assert_eq!(ChildIndex::hardened(44).number().unwrap(), 0x8000_002c);
    assert_eq!(ChildIndex::normal(7).number().unwrap(), 7);
    let seed = abandon_seed();
    let deriving = derive_path(&seed, &deriving_path()).unwrap();
    assert!(matches!(Account::new(&deriving, 0x8000_0000), Err(WalletError::CryptoDerivation)));
    assert!(matches!(deriving.derive_child(ChildIndex::hardened(0x8000_0000)), Err(WalletError::CryptoDerivation)));
}

#[test]
fn address_of_public_point() {
    let seed = bytes("000102030405060708090a0b0c0d0e0f");
    let key = ExtPrivKey::from_seed(&seed).unwrap();
    let address = key.address().unwrap();
    assert_eq!(address.len(), 20);
    let secret = bytes("1ab42cc412b618bdea3a599e3c9bae199ebf030895b039e9db1e30dafb12b727");
    let signing = bip32::secp256k1::ecdsa::SigningKey::from_bytes(&secret).unwrap();
    let point = signing.verifying_key().to_encoded_point(false).as_bytes().to_vec();
    assert_eq!(point.len(), 65);
    assert_eq!(address_from_public_key(&point), bytes("9858effd232b4033e47d90003d41ec34ecaeda94"));
}

#[test]
fn path_text_of_steps() {
    assert_eq!(path_string(&deriving_path()), "m/44'/60'/0'/0");
    assert_eq!(path_string(&verification_path()), "m/44'/60'/0'");
    assert_eq!(path_string(&[]), "m");
}
