use rwallet::vault::{decode, encode};

#[test]
fn decode_inverts_encode() {
    let seed: Vec<u8> = (0u8..64).collect();
    let pad = encode(&seed, "correct horse");
    assert_eq!(pad.len(), 64);
    assert_ne!(pad, seed);
    assert_eq!(decode(&pad, "correct horse"), seed);
}

#[test]
fn pad_is_seed_masked_by_password_digest() {
    let seed = vec![0u8; 16];
    let pad = encode(&seed, "");
    assert_eq!(pad, hex::decode("0eab42de4c3ceb9235fc91acffe746b2").unwrap());
    assert_eq!(encode(&[], "pw"), Vec::<u8>::new());
}

#[test]
fn wrong_password_yields_other_seed() {
    let seed: Vec<u8> = (100u8..164).collect();
    let pad = encode(&seed, "password");
    assert_ne!(decode(&pad, "passwore"), seed);
    assert_ne!(decode(&pad, ""), seed);
}
