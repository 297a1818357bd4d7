//! A single-profile hierarchical-deterministic wallet: a password-masked
//! seed vault, key derivation along fixed paths, an account registry and
//! transaction signing.

pub mod account;
pub mod derivation;
pub mod error;
pub mod hashing;
pub mod laws;
pub mod signer;
pub mod text;
pub mod vault;
pub mod wallet;

pub use account::{Account, AccountMetadata, Signal};
pub use derivation::{derive_path, ChildIndex, ExtPrivKey, ExtPubKey};
pub use error::WalletError;
pub use signer::Transfer;
pub use wallet::Wallet;
