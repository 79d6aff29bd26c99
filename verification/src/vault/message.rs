use vstd::prelude::*;

use vstd::bytes::{spec_u64_from_le_bytes, spec_u64_to_le_bytes, u64_to_le_bytes};

use crate::params::HASH_LEN;
use crate::vault::layout::{DOMAIN_SPEND_SOL, DOMAIN_SPEND_TOKEN, TOKEN_TRANSFER_TAG};

verus! {

/// The bytes a SOL spend signs:
/// `DOMAIN_SPEND_SOL || genesis || amount_le || destination || next`.
pub open spec fn spend_sol_message_spec(
    genesis: Seq<u8>,
    amount: u64,
    destination: Seq<u8>,
    next: Seq<u8>,
) -> Seq<u8> {
    seq![DOMAIN_SPEND_SOL] + genesis + spec_u64_to_le_bytes(amount) + destination + next
}

/// The bytes a token spend signs:
/// `DOMAIN_SPEND_TOKEN || genesis || mint || amount_le || destination || next`.
pub open spec fn spend_token_message_spec(
    genesis: Seq<u8>,
    mint: Seq<u8>,
    amount: u64,
    destination: Seq<u8>,
    next: Seq<u8>,
) -> Seq<u8> {
    seq![DOMAIN_SPEND_TOKEN] + genesis + mint + spec_u64_to_le_bytes(amount) + destination + next
}

/// The data of an SPL Token `Transfer` instruction: `3 || amount_le`.
pub open spec fn token_transfer_data_spec(amount: u64) -> Seq<u8> {
    seq![TOKEN_TRANSFER_TAG] + spec_u64_to_le_bytes(amount)
}

/// A SOL spend message is, field by field: the SOL domain tag, the genesis
/// key, the amount in 8 little-endian bytes (decoding to the full amount),
/// the destination and the next key.
pub proof fn lemma_spend_sol_message_fields(
    genesis: Seq<u8>,
    amount: u64,
    destination: Seq<u8>,
    next: Seq<u8>,
)
    requires
        genesis.len() == HASH_LEN,
        destination.len() == 32,
        next.len() == HASH_LEN,
    ensures
        ({
            let m = spend_sol_message_spec(genesis, amount, destination, next);
            &&& m.len() == 1 + 28 + 8 + 32 + 28
            &&& m[0] == 0x01
            &&& m.subrange(1, 29) == genesis
            &&& spec_u64_from_le_bytes(m.subrange(29, 37)) == amount
            &&& m.subrange(37, 69) == destination
            &&& m.subrange(69, 97) == next
        }),
{
    vstd::bytes::lemma_auto_spec_u64_to_from_le_bytes();
    let m = spend_sol_message_spec(genesis, amount, destination, next);
    assert(m.subrange(1, 29) =~= genesis);
    assert(m.subrange(29, 37) =~= spec_u64_to_le_bytes(amount));
    assert(m.subrange(37, 69) =~= destination);
    assert(m.subrange(69, 97) =~= next);
}

/// A token spend message is, field by field: the token domain tag, the
/// genesis key, the mint, the amount in 8 little-endian bytes (decoding to the
/// full amount), the destination token account and the next key.
pub proof fn lemma_spend_token_message_fields(
    genesis: Seq<u8>,
    mint: Seq<u8>,
    amount: u64,
    destination: Seq<u8>,
    next: Seq<u8>,
)
    requires
        genesis.len() == HASH_LEN,
        mint.len() == 32,
        destination.len() == 32,
        next.len() == HASH_LEN,
    ensures
        ({
            let m = spend_token_message_spec(genesis, mint, amount, destination, next);
            &&& m.len() == 1 + 28 + 32 + 8 + 32 + 28
            &&& m[0] == 0x02
            &&& m.subrange(1, 29) == genesis
            &&& m.subrange(29, 61) == mint
            &&& spec_u64_from_le_bytes(m.subrange(61, 69)) == amount
            &&& m.subrange(69, 101) == destination
            &&& m.subrange(101, 129) == next
        }),
{
    vstd::bytes::lemma_auto_spec_u64_to_from_le_bytes();
    let m = spend_token_message_spec(genesis, mint, amount, destination, next);
    assert(m.subrange(1, 29) =~= genesis);
    assert(m.subrange(29, 61) =~= mint);
    assert(m.subrange(61, 69) =~= spec_u64_to_le_bytes(amount));
    assert(m.subrange(69, 101) =~= destination);
    assert(m.subrange(101, 129) =~= next);
}

/// The SPL Token transfer data is the `Transfer` tag followed by the full
/// requested amount in 8 little-endian bytes.
pub proof fn lemma_token_transfer_data_encodes_amount(amount: u64)
    ensures
        token_transfer_data_spec(amount).len() == 9,
        token_transfer_data_spec(amount)[0] == 3,
        spec_u64_from_le_bytes(token_transfer_data_spec(amount).subrange(1, 9)) == amount,
{
    vstd::bytes::lemma_auto_spec_u64_to_from_le_bytes();
    assert(token_transfer_data_spec(amount).subrange(1, 9) =~= spec_u64_to_le_bytes(amount));
}

/// Append `bytes` to `out`.
fn append_bytes(out: &mut Vec<u8>, bytes: &[u8])
    ensures
        final(out)@ == old(out)@ + bytes@,
{
    for i in 0..bytes.len()
        invariant
            out@ == old(out)@ + bytes@.subrange(0, i as int),
    {
        out.push(bytes[i]);
        assert(bytes@.subrange(0, i + 1) =~= bytes@.subrange(0, i as int).push(bytes@[i as int]));
    }
    assert(bytes@.subrange(0, bytes@.len() as int) =~= bytes@);
}

/// Build the message that authorises a SOL spend.
pub fn spend_sol_message(
    genesis: &[u8; HASH_LEN],
    amount: u64,
    destination: &[u8; 32],
    next: &[u8; HASH_LEN],
) -> (m: Vec<u8>)
    ensures
        m@ == spend_sol_message_spec(genesis@, amount, destination@, next@),
        m@.len() == 97,
        m@[0] == 0x01,
        m@.subrange(1, 29) == genesis@,
        spec_u64_from_le_bytes(m@.subrange(29, 37)) == amount,
        m@.subrange(37, 69) == destination@,
        m@.subrange(69, 97) == next@,
{
    let mut m: Vec<u8> = Vec::with_capacity(1 + 28 + 8 + 32 + 28);
    m.push(DOMAIN_SPEND_SOL);
    append_bytes(&mut m, genesis);
    let le = u64_to_le_bytes(amount);
    append_bytes(&mut m, le.as_slice());
    append_bytes(&mut m, destination);
    append_bytes(&mut m, next);
    assert(m@ =~= spend_sol_message_spec(genesis@, amount, destination@, next@));
    proof {
        lemma_spend_sol_message_fields(genesis@, amount, destination@, next@);
    }
    m
}

/// Build the message that authorises a token spend.
pub fn spend_token_message(
    genesis: &[u8; HASH_LEN],
    mint: &[u8; 32],
    amount: u64,
    destination: &[u8; 32],
    next: &[u8; HASH_LEN],
) -> (m: Vec<u8>)
    ensures
        m@ == spend_token_message_spec(genesis@, mint@, amount, destination@, next@),
        m@.len() == 129,
        m@[0] == 0x02,
        m@.subrange(1, 29) == genesis@,
        m@.subrange(29, 61) == mint@,
        spec_u64_from_le_bytes(m@.subrange(61, 69)) == amount,
        m@.subrange(69, 101) == destination@,
        m@.subrange(101, 129) == next@,
{
    let mut m: Vec<u8> = Vec::with_capacity(1 + 28 + 32 + 8 + 32 + 28);
    m.push(DOMAIN_SPEND_TOKEN);
    append_bytes(&mut m, genesis);
    append_bytes(&mut m, mint);
    let le = u64_to_le_bytes(amount);
    append_bytes(&mut m, le.as_slice());
    append_bytes(&mut m, destination);
    append_bytes(&mut m, next);
    assert(m@ =~= spend_token_message_spec(genesis@, mint@, amount, destination@, next@));
    proof {
        lemma_spend_token_message_fields(genesis@, mint@, amount, destination@, next@);
    }
    m
}

/// Build the data of the SPL Token `Transfer` instruction that moves `amount`.
pub fn token_transfer_data(amount: u64) -> (data: Vec<u8>)
    ensures
        data@ == token_transfer_data_spec(amount),
        data@.len() == 9,
        data@[0] == 3,
        spec_u64_from_le_bytes(data@.subrange(1, 9)) == amount,
{
    let mut data: Vec<u8> = Vec::with_capacity(9);
    data.push(TOKEN_TRANSFER_TAG);
    let le = u64_to_le_bytes(amount);
    append_bytes(&mut data, le.as_slice());
    assert(data@ =~= token_transfer_data_spec(amount));
    proof {
        lemma_token_transfer_data_encodes_amount(amount);
    }
    data
}

/// Domain separation: no SOL spend message is also a token spend message, so a
/// signature for one action type can never be replayed as the other.
pub proof fn lemma_domains_separate(
    genesis: Seq<u8>,
    amount: u64,
    destination: Seq<u8>,
    next: Seq<u8>,
    genesis2: Seq<u8>,
    mint2: Seq<u8>,
    amount2: u64,
    destination2: Seq<u8>,
    next2: Seq<u8>,
)
    ensures
        spend_sol_message_spec(genesis, amount, destination, next) != spend_token_message_spec(
            genesis2,
            mint2,
            amount2,
            destination2,
            next2,
        ),
{
    let a = spend_sol_message_spec(genesis, amount, destination, next);
    let b = spend_token_message_spec(genesis2, mint2, amount2, destination2, next2);
    assert(a[0] == DOMAIN_SPEND_SOL);
    assert(b[0] == DOMAIN_SPEND_TOKEN);
}

/// A SOL spend message binds every field: two equal messages (with
/// fixed-size fields) come from the same genesis key, amount, destination and
/// next key.
pub proof fn lemma_sol_message_binds(
    genesis: Seq<u8>,
    amount: u64,
    destination: Seq<u8>,
    next: Seq<u8>,
    genesis2: Seq<u8>,
    amount2: u64,
    destination2: Seq<u8>,
    next2: Seq<u8>,
)
    requires
        genesis.len() == HASH_LEN,
        genesis2.len() == HASH_LEN,
        destination.len() == 32,
        destination2.len() == 32,
        spend_sol_message_spec(genesis, amount, destination, next) == spend_sol_message_spec(
            genesis2,
            amount2,
            destination2,
            next2,
        ),
    ensures
        genesis == genesis2,
        amount == amount2,
        destination == destination2,
        next == next2,
{
    vstd::bytes::lemma_auto_spec_u64_to_from_le_bytes();
    let a = spend_sol_message_spec(genesis, amount, destination, next);
    let b = spend_sol_message_spec(genesis2, amount2, destination2, next2);
    assert(genesis =~= a.subrange(1, 29));
    assert(genesis2 =~= b.subrange(1, 29));
    assert(spec_u64_to_le_bytes(amount) =~= a.subrange(29, 37));
    assert(spec_u64_to_le_bytes(amount2) =~= b.subrange(29, 37));
    assert(destination =~= a.subrange(37, 69));
    assert(destination2 =~= b.subrange(37, 69));
    assert(next =~= a.subrange(69, a.len() as int));
    assert(next2 =~= b.subrange(69, b.len() as int));
}

/// A token spend message binds every field: two equal messages (with
/// fixed-size fields) come from the same genesis key, mint, amount,
/// destination and next key.
pub proof fn lemma_token_message_binds(
    genesis: Seq<u8>,
    mint: Seq<u8>,
    amount: u64,
    destination: Seq<u8>,
    next: Seq<u8>,
    genesis2: Seq<u8>,
    mint2: Seq<u8>,
    amount2: u64,
    destination2: Seq<u8>,
    next2: Seq<u8>,
)
    requires
        genesis.len() == HASH_LEN,
        genesis2.len() == HASH_LEN,
        mint.len() == 32,
        mint2.len() == 32,
        destination.len() == 32,
        destination2.len() == 32,
        spend_token_message_spec(genesis, mint, amount, destination, next)
            == spend_token_message_spec(genesis2, mint2, amount2, destination2, next2),
    ensures
        genesis == genesis2,
        mint == mint2,
        amount == amount2,
        destination == destination2,
        next == next2,
{
    vstd::bytes::lemma_auto_spec_u64_to_from_le_bytes();
    let a = spend_token_message_spec(genesis, mint, amount, destination, next);
    let b = spend_token_message_spec(genesis2, mint2, amount2, destination2, next2);
    assert(genesis =~= a.subrange(1, 29));
    assert(genesis2 =~= b.subrange(1, 29));
    assert(mint =~= a.subrange(29, 61));
    assert(mint2 =~= b.subrange(29, 61));
    assert(spec_u64_to_le_bytes(amount) =~= a.subrange(61, 69));
    assert(spec_u64_to_le_bytes(amount2) =~= b.subrange(61, 69));
    assert(destination =~= a.subrange(69, 101));
    assert(destination2 =~= b.subrange(69, 101));
    assert(next =~= a.subrange(101, a.len() as int));
    assert(next2 =~= b.subrange(101, b.len() as int));
}

} // verus!
