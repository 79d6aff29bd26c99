use vstd::prelude::*;

verus! {

/// Winternitz parameter: each chain encodes one base-`W` digit.
pub const W: usize = 16;

/// Maximum iterations per chain (a base-`W` digit is `0..=W-1`).
pub const CHAIN_MAX: usize = W - 1;

/// Hash length in bytes: Keccak-256 truncated to 224 bits.
pub const HASH_LEN: usize = 28;

/// Base-`W` digits taken from the 224-bit message digest (two per byte).
pub const MSG_DIGITS: usize = HASH_LEN * 2;

/// Checksum digits. The largest checksum is `56 * 15 = 840 < 16^3`.
pub const CHECKSUM_DIGITS: usize = 3;

/// Total hash chains: message digits plus checksum digits.
pub const NUM_CHAINS: usize = MSG_DIGITS + CHECKSUM_DIGITS;

/// Wire size of a signature in bytes.
pub const SIGNATURE_BYTES: usize = NUM_CHAINS * HASH_LEN;

/// A truncated Keccak-256 value.
pub type Hash = [u8; HASH_LEN];

} // verus!
