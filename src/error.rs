use vstd::prelude::*;

verus! {

/// The failures that the wallet's operations report.
#[derive(Debug, Clone, Copy, PartialEq, Eq, Structural)]
pub enum WalletError {
    /// A recovery phrase, a quantity or another input does not parse.
    InputFormat,
    /// A recipient does not decode to exactly twenty bytes.
    AddressFormat,
    /// A value or gas input is not a non-negative integer.
    AmountFormat,
    /// A child key cannot be derived (hardened from a public parent,
    /// index out of range, depth exhausted, invalid key material).
    CryptoDerivation,
    /// The password does not reproduce the stored verification key.
    AuthenticationMismatch,
    /// An account index is out of bounds.
    Index,
    /// The ledger node did not answer with a usable result.
    Network,
    /// A stored wallet record is present but does not describe a wallet.
    Persistence,
}

} // verus!
