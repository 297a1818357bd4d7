use rwallet::text::{decimal_string, parse_amount, index_from_path, parse_quantity, parse_recipient, to_prefixed_hex};
use rwallet::WalletError;

#[test]
fn prefixed_hex_is_lowercase() {
    assert_eq!(to_prefixed_hex(&[0x00, 0xab, 0x1f]), "0x00ab1f");
    assert_eq!(to_prefixed_hex(&[]), "0x");
}

#[test]
fn recipient_with_and_without_prefix() {
    let expected: [u8; 20] = [0x35; 20];
    assert_eq!(parse_recipient("0x3535353535353535353535353535353535353535").unwrap(), expected);
    assert_eq!(parse_recipient("3535353535353535353535353535353535353535").unwrap(), expected);
    let mixed = parse_recipient("0xABcdef0000000000000000000000000000000001").unwrap();
    assert_eq!(mixed[0], 0xab);
    assert_eq!(mixed[19], 0x01);
}

#[test]
fn recipient_errors() {
    assert_eq!(parse_recipient("0x3535").unwrap_err(), WalletError::AddressFormat);
    assert_eq!(parse_recipient("0x353535353535353535353535353535353535353").unwrap_err(), WalletError::AddressFormat);
    assert_eq!(parse_recipient("0x353535353535353535353535353535353535353g").unwrap_err(), WalletError::AddressFormat);
    assert_eq!(parse_recipient("").unwrap_err(), WalletError::AddressFormat);
    assert_eq!(parse_recipient("0x353535353535353535353535353535353535353535").unwrap_err(), WalletError::AddressFormat);
}

#[test]
fn quantities() {
    assert_eq!(parse_quantity("0x1bc16d674ec80000").unwrap(), 2_000_000_000_000_000_000);
    assert_eq!(parse_quantity("0x0").unwrap(), 0);
    assert_eq!(parse_quantity("0xFF").unwrap(), 255);
    assert_eq!(parse_quantity("0xffffffffffffffffffffffffffffffff").unwrap(), u128::MAX);
}

#[test]
fn quantity_errors() {
    assert_eq!(parse_quantity("0x").unwrap_err(), WalletError::InputFormat);
    assert_eq!(parse_quantity("12").unwrap_err(), WalletError::InputFormat);
    assert_eq!(parse_quantity("0xz1").unwrap_err(), WalletError::InputFormat);
    assert_eq!(parse_quantity("0x100000000000000000000000000000000").unwrap_err(), WalletError::InputFormat);
}

#[test]
fn index_at_end_of_path() {
    assert_eq!(index_from_path("m/44'/60'/0'/0/17"), Some(17));
    assert_eq!(index_from_path("m/44'/60'/0'/0/0"), Some(0));
    assert_eq!(index_from_path("42"), Some(42));
    assert_eq!(index_from_path("m/44'/60'/0'/0/4294967295"), Some(u32::MAX));
    assert_eq!(index_from_path("m/44'/60'/0'/0/4294967296"), None);
    assert_eq!(index_from_path("m/44'/60'/0'"), None);
    assert_eq!(index_from_path("m/44'/60'/0'/0/"), None);
    assert_eq!(index_from_path(""), None);
}

#[test]
fn decimal_forms() {
    assert_eq!(decimal_string(0), "0");
    assert_eq!(decimal_string(1907), "1907");
    assert_eq!(decimal_string(u64::MAX), "18446744073709551615");
}

#[test]
fn amounts_in_wei() {
    assert_eq!(parse_amount("0").unwrap(), 0);
    assert_eq!(parse_amount("1000000000000000000").unwrap(), 1_000_000_000_000_000_000);
    assert_eq!(parse_amount("340282366920938463463374607431768211455").unwrap(), u128::MAX);
}

#[test]
fn amount_errors() {
    assert_eq!(parse_amount("").unwrap_err(), WalletError::AmountFormat);
    assert_eq!(parse_amount("-5").unwrap_err(), WalletError::AmountFormat);
    assert_eq!(parse_amount("1.5").unwrap_err(), WalletError::AmountFormat);
    assert_eq!(parse_amount("340282366920938463463374607431768211456").unwrap_err(), WalletError::AmountFormat);
}
