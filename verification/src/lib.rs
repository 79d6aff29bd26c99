//! Winternitz one-time signatures (WOTS) over Keccak-256 truncated to 224 bits,
//! and the account logic of a vault whose withdrawals they authorise.

pub mod params;
pub mod hash;
pub mod digits;
pub mod encoding;
pub mod keys;
pub mod vault;

pub use hash::keccak;
pub use keys::{PublicKey, SecretKey, Signature};
pub use params::{CHAIN_MAX, CHECKSUM_DIGITS, HASH_LEN, MSG_DIGITS, NUM_CHAINS, SIGNATURE_BYTES, W};
