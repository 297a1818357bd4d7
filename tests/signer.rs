use rwallet::signer::{CHAIN_ID, TRANSFER_GAS_LIMIT};
use rwallet::{Transfer, WalletError};

#[test]
fn signs_the_replay_protected_example() {
    let key: [u8; 32] = [0x46; 32];
    let tx = Transfer::new(
        9,
        "0x3535353535353535353535353535353535353535",
        1_000_000_000_000_000_000,
        20_000_000_000,
        21000,
        vec![],
    )
    .unwrap();
    let signed = tx.sign(&key, 1);
    assert_eq!(
        hex::encode(&signed),
        "f86c098504a817c800825208943535353535353535353535353535353535353535880de0b6b3a76400008025a028ef61340bd939bc2195fe537567866003e1a15d3c71ff63e1590620aa636276a067cbe9d8997f761aecb703304b3800ccf555c9f3dc64214b297fb1966a3b6d83"
    );
    assert_eq!(tx.signed_text(&key, 1), format!("0x{}", hex::encode(&signed)));
}

#[test]
fn signing_depends_on_chain() {
    let key: [u8; 32] = [0x11; 32];
    let tx = Transfer::new(0, "3535353535353535353535353535353535353535", 5, 7, TRANSFER_GAS_LIMIT, vec![]).unwrap();
    assert_eq!(tx.sign(&key, CHAIN_ID), tx.sign(&key, CHAIN_ID));
    assert_ne!(tx.sign(&key, CHAIN_ID), tx.sign(&key, 1));
}

#[test]
fn transfer_keeps_its_fields() {
    let tx = Transfer::new(3, "0x0000000000000000000000000000000000000001", 10, 20, 30, vec![1, 2]).unwrap();
    assert_eq!(tx.nonce, 3);
    assert_eq!(tx.recipient[19], 1);
    assert_eq!(tx.value_wei, 10);
    assert_eq!(tx.gas_price_wei, 20);
    assert_eq!(tx.gas_limit, 30);
    assert_eq!(tx.data, vec![1, 2]);
}

#[test]
fn transfer_to_malformed_recipient_is_refused() {
    assert_eq!(Transfer::new(0, "0x12", 1, 1, 21000, vec![]).unwrap_err(), WalletError::AddressFormat);
}
