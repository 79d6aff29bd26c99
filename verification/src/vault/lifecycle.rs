use vstd::prelude::*;

use crate::params::HASH_LEN;
use crate::vault::account::{
    close_spec, lemma_close_keeps_total, lemma_total_set_data, lemma_transfer_keeps_total,
    set_data, total_lamports, transfer_spec, AccountModel, LAMPORTS_CEILING,
};
use crate::vault::layout::{SIGBUF_LEN, SIGBUF_TAG, VAULT_LEN, VAULT_TAG};
use crate::vault::message::{spend_sol_message_spec, spend_token_message_spec};
use crate::vault::pda::program_address;
use crate::vault::processor::{
    finish_spend_spec, read_vault_spec, rotated, spend_sol_spec, spend_token_spec,
    vault_seeds_spec, verify_buffered_spec, write_sig_buffer_spec,
};

verus! {

/// The current public key held in vault data.
pub open spec fn vault_key_of(a: AccountModel) -> Seq<u8> {
    a.data.subrange(1, 1 + HASH_LEN)
}

/// `a` is a vault of the program: owned by it, laid out as a vault, and at the
/// program address of some genesis key with its stored bump seed.
pub open spec fn is_vault(program_id: Seq<u8>, a: AccountModel) -> bool {
    &&& a.owner == program_id
    &&& a.data.len() == VAULT_LEN
    &&& a.data[0] == VAULT_TAG
    &&& exists|g: Seq<u8>|
        program_address(vault_seeds_spec(g).push(seq![a.data[29]]), program_id) == Some(a.key)
}

/// `after` is the same vault as `a`: same address, owner, layout and bump seed.
pub open spec fn same_vault(a: AccountModel, after: AccountModel) -> bool {
    &&& after.key == a.key
    &&& after.owner == a.owner
    &&& after.data.len() == VAULT_LEN
    &&& after.data[0] == VAULT_TAG
    &&& after.data[29] == a.data[29]
}

/// What every vault of `l` becomes in `after`: still a vault, the same vault,
/// and holding the key `key_of(i)`.
pub open spec fn vaults_kept(
    program_id: Seq<u8>,
    l: Seq<AccountModel>,
    after: Seq<AccountModel>,
    changed: int,
    next: Seq<u8>,
) -> bool {
    &&& after.len() == l.len()
    &&& forall|i: int|
        0 <= i < l.len() && #[trigger] is_vault(program_id, l[i]) ==> {
            &&& is_vault(program_id, after[i])
            &&& same_vault(l[i], after[i])
            &&& vault_key_of(after[i]) == if i == changed {
                next
            } else {
                vault_key_of(l[i])
            }
        }
}

/// Same address, owner and bump with the vault layout keeps an account a vault.
proof fn lemma_same_vault_is_vault(program_id: Seq<u8>, a: AccountModel, after: AccountModel)
    requires
        is_vault(program_id, a),
        same_vault(a, after),
    ensures
        is_vault(program_id, after),
{
    let g = choose|g: Seq<u8>|
        program_address(vault_seeds_spec(g).push(seq![a.data[29]]), program_id) == Some(a.key);
    assert(program_address(vault_seeds_spec(g).push(seq![after.data[29]]), program_id) == Some(
        after.key,
    ));
}

/// The end of a spend (rotate the vault `v` to `next`, close the buffer `b`
/// into `r`) changes no vault but `v`, whose key becomes `next`; it keeps `v`
/// the vault bound to `genesis`, closes the buffer, and keeps the total
/// balance where the refund account is not the buffer.
pub proof fn lemma_finish_spend_effects(
    program_id: Seq<u8>,
    l: Seq<AccountModel>,
    v: int,
    b: int,
    r: int,
    genesis: Seq<u8>,
    next: Seq<u8>,
)
    requires
        0 <= v < l.len(),
        0 <= b < l.len(),
        0 <= r < l.len(),
        next.len() == HASH_LEN,
        l[v].data.len() == VAULT_LEN,
        l[v].data[0] == VAULT_TAG,
        l[b].data.len() == SIGBUF_LEN,
        l[b].data[0] == SIGBUF_TAG,
    ensures
        vaults_kept(program_id, l, finish_spend_spec(l, v, b, r, next), v, next),
        read_vault_spec(program_id, l[v], genesis) is Ok ==> read_vault_spec(
            program_id,
            finish_spend_spec(l, v, b, r, next)[v],
            genesis,
        ) == Ok::<Seq<u8>, crate::vault::error::ProgramFailure>(next),
        finish_spend_spec(l, v, b, r, next)[b].lamports == 0,
        finish_spend_spec(l, v, b, r, next)[b].data == Seq::new(SIGBUF_LEN as nat, |i: int| 0u8),
        b != r && total_lamports(l) <= LAMPORTS_CEILING ==> total_lamports(
            finish_spend_spec(l, v, b, r, next),
        ) == total_lamports(l),
{
    let l2 = set_data(l, v, rotated(l[v].data, next));
    let l3 = close_spec(l2, b, r);
    assert(l3 == finish_spend_spec(l, v, b, r, next));
    assert(v != b);
    assert(rotated(l[v].data, next).subrange(1, 1 + HASH_LEN) =~= next);
    assert forall|i: int| 0 <= i < l.len() && #[trigger] is_vault(program_id, l[i]) implies {
        &&& is_vault(program_id, l3[i])
        &&& same_vault(l[i], l3[i])
        &&& vault_key_of(l3[i]) == if i == v {
            next
        } else {
            vault_key_of(l[i])
        }
    } by {
        assert(i != b);
        assert(l3[i].data == l2[i].data);
        lemma_same_vault_is_vault(program_id, l[i], l3[i]);
    }
    assert(l3[b].data =~= Seq::new(SIGBUF_LEN as nat, |i: int| 0u8));
    if b != r && total_lamports(l) <= LAMPORTS_CEILING {
        lemma_total_set_data(l, v, rotated(l[v].data, next));
        lemma_close_keeps_total(l2, b, r);
    }
}

/// Writing into the signature buffer changes no vault at all.
pub proof fn lemma_write_sig_buffer_keeps_vaults(
    program_id: Seq<u8>,
    l: Seq<AccountModel>,
    roles: Seq<usize>,
    offset: u16,
    chunk: Seq<u8>,
)
    requires
        roles.len() >= 1 ==> roles[0] < l.len(),
    ensures
        write_sig_buffer_spec(program_id, l, roles, offset, chunk) matches Ok(after) ==> after.len()
            == l.len() && forall|i: int|
            0 <= i < l.len() && #[trigger] is_vault(program_id, l[i]) ==> after[i] == l[i],
{
}

/// A SOL spend keeps every vault a vault at its address with its bump; it
/// changes the key of no vault but the one it spends from, and that one only
/// to `next`, only where the buffered signature verified under its previous
/// key.
pub proof fn lemma_spend_sol_keeps_vaults(
    program_id: Seq<u8>,
    l: Seq<AccountModel>,
    roles: Seq<usize>,
    genesis: Seq<u8>,
    amount: u64,
    next: Seq<u8>,
    vault_rent_minimum: u64,
)
    requires
        roles.len() >= 4,
        forall|i: int| 0 <= i < 4 ==> (#[trigger] roles[i]) < l.len(),
        next.len() == HASH_LEN,
    ensures
        spend_sol_spec(program_id, l, roles, genesis, amount, next, vault_rent_minimum) matches Ok(
            after,
        ) ==> {
            &&& vaults_kept(program_id, l, after, roles[0] as int, next)
            &&& read_vault_spec(program_id, l[roles[0] as int], genesis) == Ok::<
                Seq<u8>,
                crate::vault::error::ProgramFailure,
            >(vault_key_of(l[roles[0] as int]))
            &&& verify_buffered_spec(
                program_id,
                l[roles[1] as int],
                vault_key_of(l[roles[0] as int]),
                spend_sol_message_spec(genesis, amount, l[roles[2] as int].key, next),
            ) == Ok::<(), crate::vault::error::ProgramFailure>(())
        },
{
    let v = roles[0] as int;
    let b = roles[1] as int;
    let d = roles[2] as int;
    let r = roles[3] as int;
    assert(roles[0] < l.len() && roles[1] < l.len() && roles[2] < l.len() && roles[3] < l.len());
    if spend_sol_spec(program_id, l, roles, genesis, amount, next, vault_rent_minimum) is Ok {
        let l1 = transfer_spec(l, v, d, amount);
        assert forall|i: int| 0 <= i < l.len() implies l1[i].key == l[i].key && l1[i].owner
            == l[i].owner && l1[i].data == l[i].data by {}
        lemma_finish_spend_effects(program_id, l1, v, b, r, genesis, next);
        let after = finish_spend_spec(l1, v, b, r, next);
        assert forall|i: int| 0 <= i < l.len() && #[trigger] is_vault(program_id, l[i]) implies {
            &&& is_vault(program_id, after[i])
            &&& same_vault(l[i], after[i])
            &&& vault_key_of(after[i]) == if i == v {
                next
            } else {
                vault_key_of(l[i])
            }
        } by {
            assert(is_vault(program_id, l1[i]));
        }
    }
}

/// A token spend that passes its checks, followed by the end of the spend,
/// keeps every vault a vault at its address with its bump and changes only the
/// spent vault's key, to `next`, after its signature verified under the
/// previous key; the spent vault reads back with key `next`, the buffer is
/// closed, and (the refund account not being the buffer) no lamports are
/// created or destroyed.
pub proof fn lemma_spend_token_then_finish(
    program_id: Seq<u8>,
    l: Seq<AccountModel>,
    roles: Seq<usize>,
    genesis: Seq<u8>,
    amount: u64,
    next: Seq<u8>,
)
    requires
        roles.len() >= 7,
        forall|i: int| 0 <= i < 7 ==> (#[trigger] roles[i]) < l.len(),
        next.len() == HASH_LEN,
    ensures
        spend_token_spec(program_id, l, roles, genesis, amount, next) is Ok ==> {
            let after = finish_spend_spec(
                l,
                roles[0] as int,
                roles[1] as int,
                roles[6] as int,
                next,
            );
            &&& vaults_kept(program_id, l, after, roles[0] as int, next)
            &&& read_vault_spec(program_id, after[roles[0] as int], genesis) == Ok::<
                Seq<u8>,
                crate::vault::error::ProgramFailure,
            >(next)
            &&& verify_buffered_spec(
                program_id,
                l[roles[1] as int],
                vault_key_of(l[roles[0] as int]),
                spend_token_message_spec(
                    genesis,
                    l[roles[2] as int].key,
                    amount,
                    l[roles[4] as int].key,
                    next,
                ),
            ) == Ok::<(), crate::vault::error::ProgramFailure>(())
            &&& after[roles[1] as int].lamports == 0
            &&& (roles[1] != roles[6] && total_lamports(l) <= LAMPORTS_CEILING ==> total_lamports(
                after,
            ) == total_lamports(l))
        },
{
    let v = roles[0] as int;
    let b = roles[1] as int;
    let r = roles[6] as int;
    assert(roles[0] < l.len() && roles[1] < l.len() && roles[2] < l.len() && roles[4] < l.len()
        && roles[5] < l.len() && roles[6] < l.len());
    if spend_token_spec(program_id, l, roles, genesis, amount, next) is Ok {
        lemma_finish_spend_effects(program_id, l, v, b, r, genesis, next);
    }
}

} // verus!
