use vstd::prelude::*;

use crate::params::{HASH_LEN, SIGNATURE_BYTES};

verus! {

/// First byte of a vault account.
pub const VAULT_TAG: u8 = 1;

/// First byte of a signature buffer account.
pub const SIGBUF_TAG: u8 = 2;

/// Vault account: `[tag(1)][current_pubkey(28)][bump(1)]`.
pub const VAULT_LEN: usize = 30;

/// Signature buffer account: `[tag(1)][bump(1)][signature(SIGNATURE_BYTES)]`.
pub const SIGBUF_LEN: usize = 2 + SIGNATURE_BYTES;

/// Domain tag of a SOL spend message.
pub const DOMAIN_SPEND_SOL: u8 = 0x01;

/// Domain tag of a token spend message.
pub const DOMAIN_SPEND_TOKEN: u8 = 0x02;

/// Instruction tag of the SPL Token `Transfer` instruction.
pub const TOKEN_TRANSFER_TAG: u8 = 3;

/// The SPL Token program's address.
pub const SPL_TOKEN_ID: [u8; 32] = [
    6, 221, 246, 225, 215, 101, 161, 147, 217, 203, 225, 70, 206, 235, 121, 172, 28, 180, 133, 237,
    95, 91, 55, 145, 58, 140, 245, 133, 126, 255, 0, 169,
];

/// The seed prefix of vault addresses: `b"vault"`.
pub open spec fn vault_seed_spec() -> Seq<u8> {
    seq![118u8, 97u8, 117u8, 108u8, 116u8]
}

/// The seed prefix of signature buffer addresses: `b"sigbuf"`.
pub open spec fn sigbuf_seed_spec() -> Seq<u8> {
    seq![115u8, 105u8, 103u8, 98u8, 117u8, 102u8]
}

/// `b"vault"`.
pub fn vault_seed() -> (s: Vec<u8>)
    ensures
        s@ == vault_seed_spec(),
{
    let s = vec![118u8, 97u8, 117u8, 108u8, 116u8];
    assert(s@ =~= vault_seed_spec());
    s
}

/// `b"sigbuf"`.
pub fn sigbuf_seed() -> (s: Vec<u8>)
    ensures
        s@ == sigbuf_seed_spec(),
{
    let s = vec![115u8, 105u8, 103u8, 98u8, 117u8, 102u8];
    assert(s@ =~= sigbuf_seed_spec());
    s
}

/// The instruction set. On the wire the leading byte is the variant index.
pub enum VaultInstruction {
    /// Create a vault bound to `genesis_pubkey` and fund it with `deposit`.
    /// Accounts: `[vault(w), funder(w,s), system_program]`.
    OpenVault { genesis_pubkey: [u8; HASH_LEN], deposit: u64 },
    /// Create the signature buffer for an in-flight spend.
    /// Accounts: `[sig_buffer(w), payer(w,s), system_program]`.
    InitSigBuffer { genesis_pubkey: [u8; HASH_LEN] },
    /// Write `chunk` into the signature buffer at `offset`.
    /// Accounts: `[sig_buffer(w)]`.
    WriteSigBuffer { offset: u16, chunk: Vec<u8> },
    /// Verify the buffered signature, withdraw `amount` lamports, rotate, close.
    /// Accounts: `[vault(w), sig_buffer(w), destination(w), rent_refund(w)]`.
    SpendSol { genesis_pubkey: [u8; HASH_LEN], amount: u64, next_pubkey: [u8; HASH_LEN] },
    /// Verify the buffered signature, withdraw `amount` SPL tokens, rotate, close.
    /// Accounts: `[vault(w), sig_buffer(w), mint, vault_token(w),
    /// destination_token(w), token_program, rent_refund(w)]`.
    SpendToken { genesis_pubkey: [u8; HASH_LEN], amount: u64, next_pubkey: [u8; HASH_LEN] },
}

} // verus!
