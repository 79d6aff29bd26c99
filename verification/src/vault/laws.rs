use vstd::prelude::*;

use crate::encoding::{all_hash_sized, join_hashes, lemma_split_join};
use crate::keys::{lemma_signature_verifies, public_key_spec, signature_spec};
use crate::params::{HASH_LEN, NUM_CHAINS, SIGNATURE_BYTES};
use crate::vault::account::{
    close_spec, lemma_close_keeps_total, lemma_total_set_data, lemma_transfer_keeps_total,
    set_data, total_lamports, transfer_spec, AccountModel, LAMPORTS_CEILING,
};
use crate::vault::layout::{SIGBUF_LEN, SIGBUF_TAG, VAULT_LEN};
use crate::vault::message::spend_sol_message_spec;
use crate::vault::pda::program_address;
use crate::vault::processor::{
    read_vault_spec, rotated, saturating_sub_spec, spend_sol_spec, vault_layout,
    vault_seeds_spec, verify_buffered_spec, write_sig_buffer_spec,
};

verus! {

/// The roles of a SOL spend name accounts of `l`.
pub open spec fn sol_roles_valid(l: Seq<AccountModel>, roles: Seq<usize>) -> bool {
    &&& roles.len() >= 4
    &&& forall|i: int| 0 <= i < 4 ==> (#[trigger] roles[i]) < l.len()
}

/// A SOL spend moves lamports but never creates or destroys them, as long as
/// the refund account is not the signature buffer itself.
pub proof fn lemma_spend_sol_conserves_lamports(
    program_id: Seq<u8>,
    l: Seq<AccountModel>,
    roles: Seq<usize>,
    genesis: Seq<u8>,
    amount: u64,
    next: Seq<u8>,
    vault_rent_minimum: u64,
)
    requires
        sol_roles_valid(l, roles),
        roles[1] != roles[3],
        total_lamports(l) <= LAMPORTS_CEILING,
    ensures
        spend_sol_spec(program_id, l, roles, genesis, amount, next, vault_rent_minimum) matches Ok(
            after,
        ) ==> total_lamports(after) == total_lamports(l),
{
    let v = roles[0] as int;
    let b = roles[1] as int;
    let d = roles[2] as int;
    let r = roles[3] as int;
    assert(roles[0] < l.len() && roles[1] < l.len() && roles[2] < l.len() && roles[3] < l.len());
    if spend_sol_spec(program_id, l, roles, genesis, amount, next, vault_rent_minimum) is Ok {
        assert(amount <= l[v].lamports);
        let l1 = transfer_spec(l, v, d, amount);
        lemma_transfer_keeps_total(l, v, d, amount);
        let l2 = set_data(l1, v, rotated(l1[v].data, next));
        lemma_total_set_data(l1, v, rotated(l1[v].data, next));
        lemma_close_keeps_total(l2, b, r);
    }
}

/// After a successful SOL spend the vault is still the vault bound to
/// `genesis`, and its current public key is `next`: the spent one-time key is
/// retired.
pub proof fn lemma_spend_sol_rotates_vault(
    program_id: Seq<u8>,
    l: Seq<AccountModel>,
    roles: Seq<usize>,
    genesis: Seq<u8>,
    amount: u64,
    next: Seq<u8>,
    vault_rent_minimum: u64,
)
    requires
        sol_roles_valid(l, roles),
        next.len() == HASH_LEN,
    ensures
        spend_sol_spec(program_id, l, roles, genesis, amount, next, vault_rent_minimum) matches Ok(
            after,
        ) ==> read_vault_spec(program_id, after[roles[0] as int], genesis) == Ok::<
            Seq<u8>,
            crate::vault::error::ProgramFailure,
        >(next),
{
    let v = roles[0] as int;
    let b = roles[1] as int;
    let d = roles[2] as int;
    let r = roles[3] as int;
    assert(roles[0] < l.len() && roles[1] < l.len() && roles[2] < l.len() && roles[3] < l.len());
    if spend_sol_spec(program_id, l, roles, genesis, amount, next, vault_rent_minimum) is Ok {
        // The vault and the buffer carry different tags, so they are different accounts.
        assert(v != b);
        let l1 = transfer_spec(l, v, d, amount);
        let l2 = set_data(l1, v, rotated(l1[v].data, next));
        let l3 = close_spec(l2, b, r);
        assert(l3[v].data =~= rotated(l[v].data, next));
        assert(l3[v].data.subrange(1, 1 + HASH_LEN) =~= next);
    }
}

/// After a successful SOL spend the signature buffer is closed: no lamports
/// and all data zero.
pub proof fn lemma_spend_sol_closes_buffer(
    program_id: Seq<u8>,
    l: Seq<AccountModel>,
    roles: Seq<usize>,
    genesis: Seq<u8>,
    amount: u64,
    next: Seq<u8>,
    vault_rent_minimum: u64,
)
    requires
        sol_roles_valid(l, roles),
    ensures
        spend_sol_spec(program_id, l, roles, genesis, amount, next, vault_rent_minimum) matches Ok(
            after,
        ) ==> {
            &&& after[roles[1] as int].lamports == 0
            &&& after[roles[1] as int].data == Seq::new(SIGBUF_LEN as nat, |i: int| 0u8)
        },
{
    let v = roles[0] as int;
    let b = roles[1] as int;
    let d = roles[2] as int;
    let r = roles[3] as int;
    assert(roles[0] < l.len() && roles[1] < l.len() && roles[2] < l.len() && roles[3] < l.len());
    if spend_sol_spec(program_id, l, roles, genesis, amount, next, vault_rent_minimum) is Ok {
        assert(v != b);
        let l1 = transfer_spec(l, v, d, amount);
        let l2 = set_data(l1, v, rotated(l1[v].data, next));
        let l3 = close_spec(l2, b, r);
        assert(l3[b].data =~= Seq::new(SIGBUF_LEN as nat, |i: int| 0u8));
    }
}

/// Only a valid one-time signature moves funds: a SOL spend succeeds only
/// where the vault bound to `genesis` holds a current key under which the
/// buffered signature verifies over the spend message, and only for an amount
/// the vault holds above its rent-exempt minimum.
pub proof fn lemma_spend_sol_authorized(
    program_id: Seq<u8>,
    l: Seq<AccountModel>,
    roles: Seq<usize>,
    genesis: Seq<u8>,
    amount: u64,
    next: Seq<u8>,
    vault_rent_minimum: u64,
)
    requires
        sol_roles_valid(l, roles),
    ensures
        spend_sol_spec(program_id, l, roles, genesis, amount, next, vault_rent_minimum) is Ok ==> {
            &&& read_vault_spec(program_id, l[roles[0] as int], genesis) matches Ok(current)
                && verify_buffered_spec(
                program_id,
                l[roles[1] as int],
                current,
                spend_sol_message_spec(genesis, amount, l[roles[2] as int].key, next),
            ) == Ok::<(), crate::vault::error::ProgramFailure>(())
            &&& amount <= saturating_sub_spec(l[roles[0] as int].lamports, vault_rent_minimum)
        },
{
}

/// A SOL spend pays the destination exactly `amount` and takes exactly
/// `amount` from the vault, which keeps its rent-exempt minimum where it had
/// it, when the four roles name four different accounts.
pub proof fn lemma_spend_sol_pays(
    program_id: Seq<u8>,
    l: Seq<AccountModel>,
    roles: Seq<usize>,
    genesis: Seq<u8>,
    amount: u64,
    next: Seq<u8>,
    vault_rent_minimum: u64,
)
    requires
        sol_roles_valid(l, roles),
        roles[0] != roles[1],
        roles[0] != roles[2],
        roles[0] != roles[3],
        roles[1] != roles[2],
        roles[1] != roles[3],
        roles[2] != roles[3],
        total_lamports(l) <= LAMPORTS_CEILING,
    ensures
        spend_sol_spec(program_id, l, roles, genesis, amount, next, vault_rent_minimum) matches Ok(
            after,
        ) ==> {
            &&& after[roles[2] as int].lamports == l[roles[2] as int].lamports + amount
            &&& after[roles[0] as int].lamports == l[roles[0] as int].lamports - amount
            &&& l[roles[0] as int].lamports >= vault_rent_minimum ==> after[roles[0] as int].lamports
                >= vault_rent_minimum
        },
{
    let v = roles[0] as int;
    let b = roles[1] as int;
    let d = roles[2] as int;
    let r = roles[3] as int;
    assert(roles[0] < l.len() && roles[1] < l.len() && roles[2] < l.len() && roles[3] < l.len());
    if spend_sol_spec(program_id, l, roles, genesis, amount, next, vault_rent_minimum) is Ok {
        crate::vault::account::lemma_total_bounds_two(l, v, d);
    }
}

/// A vault opened for `genesis` reads back with `genesis` as its current key:
/// an account at the program address of its seeds and bump, owned by the
/// program and laid out by `init_vault_data`, passes every check of
/// `read_vault`.
pub proof fn lemma_opened_vault_reads_genesis(
    program_id: Seq<u8>,
    vault: AccountModel,
    genesis: Seq<u8>,
    bump: u8,
    created: Seq<u8>,
)
    requires
        genesis.len() == HASH_LEN,
        created.len() == VAULT_LEN,
    ensures
        program_address(vault_seeds_spec(genesis).push(seq![bump]), program_id) == Some(vault.key)
            && vault.owner == program_id && vault.data == vault_layout(created, genesis, bump)
            ==> read_vault_spec(program_id, vault, genesis) == Ok::<
            Seq<u8>,
            crate::vault::error::ProgramFailure,
        >(genesis),
{
    if vault.data == vault_layout(created, genesis, bump) {
        assert(vault.data[29] == bump);
        assert(vault.data.subrange(1, 1 + HASH_LEN) =~= genesis);
    }
}

/// The on-chain spend check accepts an honest signature: a buffer holding the
/// signature made with a secret key over `message` verifies against the vault
/// key that is the public key of that secret key.
pub proof fn lemma_buffered_signature_verifies(
    program_id: Seq<u8>,
    buffer: AccountModel,
    chains: Seq<Seq<u8>>,
    message: Seq<u8>,
    bump: u8,
)
    requires
        chains.len() == NUM_CHAINS,
        all_hash_sized(chains),
        buffer.owner == program_id,
        buffer.data == seq![SIGBUF_TAG, bump] + join_hashes(signature_spec(chains, message)),
    ensures
        verify_buffered_spec(program_id, buffer, public_key_spec(chains), message) == Ok::<
            (),
            crate::vault::error::ProgramFailure,
        >(()),
{
    let sig = signature_spec(chains, message);
    assert forall|i: int| 0 <= i < sig.len() implies (#[trigger] sig[i]).len() == HASH_LEN by {
        crate::digits::lemma_digits_bound(crate::hash::hash_spec(message));
        assert(chains[i].len() == HASH_LEN);
        crate::hash::lemma_chain_len(chains[i], crate::keys::message_digits(message)[i] as nat);
    }
    lemma_split_join(sig);
    assert(buffer.data.subrange(2, SIGBUF_LEN as int) =~= join_hashes(sig));
    lemma_signature_verifies(chains, message);
}

/// A signature too long for one transaction can be written in two chunks:
/// once the first chunk `s[..k]` is written at offset 0, writing the rest at
/// offset `k` succeeds and leaves the whole of `s` in the buffer.
pub proof fn lemma_write_in_two_chunks(
    program_id: Seq<u8>,
    l: Seq<AccountModel>,
    roles: Seq<usize>,
    s: Seq<u8>,
    k: u16,
)
    requires
        roles.len() >= 1,
        roles[0] < l.len(),
        s.len() == SIGNATURE_BYTES,
        k <= s.len(),
    ensures
        write_sig_buffer_spec(program_id, l, roles, 0, s.take(k as int)) matches Ok(l1)
            ==> write_sig_buffer_spec(program_id, l1, roles, k, s.skip(k as int)) matches Ok(l2)
            && l2[roles[0] as int].data.subrange(2, SIGBUF_LEN as int) == s,
{
    let b = roles[0] as int;
    if write_sig_buffer_spec(program_id, l, roles, 0, s.take(k as int)) is Ok {
        let l1 = write_sig_buffer_spec(program_id, l, roles, 0, s.take(k as int))->Ok_0;
        let d1 = l1[b].data;
        assert(d1.len() == SIGBUF_LEN);
        assert(d1[0] == SIGBUF_TAG);
        let l2 = write_sig_buffer_spec(program_id, l1, roles, k, s.skip(k as int))->Ok_0;
        assert(l2[b].data.subrange(2, SIGBUF_LEN as int) =~= s);
    }
}

} // verus!
