//! Builds transfer transactions and signs them for the ledger's wire format.
use vstd::prelude::*;
use vstd::string::*;

use crate::derivation::valid_secret;
use crate::error::WalletError;
use crate::text::{address_text, parse_recipient, recipient_bytes, to_prefixed_hex};

verus! {

/// The chain the wallet signs for; it binds each signature to that chain.
pub const CHAIN_ID: u8 = 4;

/// The gas a plain value transfer takes.
pub const TRANSFER_GAS_LIMIT: u64 = 21000;

/// The signed wire encoding (RLP, with the chain-bound recovery value) of a
/// legacy transaction under a secret key.
pub uninterp spec fn legacy_signed(nonce: u64, to: [u8; 20], value: u128, gas_price: u128, gas: u64, data: Seq<u8>, secret: [u8; 32], chain_id: u8) -> Seq<u8>;

/// An unsigned transfer.
#[derive(Debug, Clone, PartialEq, Eq)]
pub struct Transfer {
    pub nonce: u64,
    pub recipient: [u8; 20],
    pub value_wei: u128,
    pub gas_price_wei: u128,
    pub gas_limit: u64,
    pub data: Vec<u8>,
}

/// Relies on ethereum_tx_sign's `RawTransaction::sign`: RLP encoding signed
/// with a deterministic (RFC 6979) secp256k1 signature, which depends on the
/// fields, the key and the chain alone. It panics on a key that is not a
/// valid secret scalar.
#[verifier::external_body]
fn sign_raw(tx: &Transfer, secret: &[u8; 32], chain_id: u8) -> (r: Vec<u8>)
    requires
        valid_secret(secret@),
    ensures
        r@ == legacy_signed(tx.nonce, tx.recipient, tx.value_wei, tx.gas_price_wei, tx.gas_limit, tx.data@, *secret, chain_id),
{
    let raw = ethereum_tx_sign::RawTransaction {
        nonce: tx.nonce.into(),
        to: Some(tx.recipient.into()),
        value: tx.value_wei.into(),
        gas_price: tx.gas_price_wei.into(),
        gas: tx.gas_limit.into(),
        data: tx.data.clone(),
    };
    raw.sign(&(*secret).into(), &chain_id)
}

impl Transfer {
    /// A transfer to the address `recipient` spells (40 hex digits, with or
    /// without `0x`).
    pub fn new(nonce: u64, recipient: &str, value_wei: u128, gas_price_wei: u128, gas_limit: u64, data: Vec<u8>) -> (r: Result<Transfer, WalletError>)
        ensures
            match r {
                Ok(t) => recipient_bytes(recipient.spec_bytes()) == Some(t.recipient@) && t.nonce == nonce
                    && t.value_wei == value_wei && t.gas_price_wei == gas_price_wei && t.gas_limit == gas_limit
                    && t.data@ == data@,
                Err(e) => recipient_bytes(recipient.spec_bytes()) is None && e == WalletError::AddressFormat,
            },
    {
        let to = parse_recipient(recipient)?;
        Ok(Transfer { nonce, recipient: to, value_wei, gas_price_wei, gas_limit, data })
    }

    /// The signed payload of this transfer, bound to `chain_id`.
    pub fn sign(&self, secret: &[u8; 32], chain_id: u8) -> (r: Vec<u8>)
        requires
            valid_secret(secret@),
        ensures
            r@ == legacy_signed(self.nonce, self.recipient, self.value_wei, self.gas_price_wei, self.gas_limit, self.data@, *secret, chain_id),
    {
        sign_raw(self, secret, chain_id)
    }

    /// The signed payload as the `0x`-prefixed hex text a node accepts.
    pub fn signed_text(&self, secret: &[u8; 32], chain_id: u8) -> (r: String)
        requires
            valid_secret(secret@),
        ensures
            r@ == address_text(legacy_signed(self.nonce, self.recipient, self.value_wei, self.gas_price_wei, self.gas_limit, self.data@, *secret, chain_id)),
    {
        let bytes = self.sign(secret, chain_id);
        to_prefixed_hex(bytes.as_slice())
    }
}

} // verus!
