use vstd::prelude::*;

use crate::encoding::{bytes_equal, split_hashes};
use crate::keys::{recovered_key_spec, PublicKey};
use crate::params::{HASH_LEN, SIGNATURE_BYTES};
use crate::vault::account::{
    close_spec, lemma_total_bounds_one, lemma_total_bounds_two, lemma_total_set_data,
    lemma_total_set_lamports, set_data, set_lamports, total_lamports, transfer_spec, Account,
    AccountModel, LAMPORTS_CEILING,
};
use crate::vault::error::{ProgramFailure, VaultError};
use crate::vault::layout::{
    sigbuf_seed, sigbuf_seed_spec, vault_seed, vault_seed_spec, SIGBUF_LEN, SIGBUF_TAG, SPL_TOKEN_ID,
    VAULT_LEN, VAULT_TAG,
};
use crate::vault::message::{
    spend_sol_message, spend_sol_message_spec, spend_token_message, spend_token_message_spec,
    token_transfer_data, token_transfer_data_spec,
};
use crate::vault::pda::{
    create_program_address, found_program_address, program_address, try_find_program_address,
};

verus! {

/// The seeds of the vault address bound to `genesis`: `[b"vault", genesis]`.
pub open spec fn vault_seeds_spec(genesis: Seq<u8>) -> Seq<Seq<u8>> {
    seq![vault_seed_spec(), genesis]
}

/// The seeds of the signature buffer address bound to `genesis`: `[b"sigbuf", genesis]`.
pub open spec fn sigbuf_seeds_spec(genesis: Seq<u8>) -> Seq<Seq<u8>> {
    seq![sigbuf_seed_spec(), genesis]
}

/// What `read_vault` gives for a vault account: its current public key, or
/// why the account is not the vault bound to `genesis`.
pub open spec fn read_vault_spec(program_id: Seq<u8>, vault: AccountModel, genesis: Seq<u8>) -> Result<
    Seq<u8>,
    ProgramFailure,
> {
    if vault.owner != program_id {
        Err(ProgramFailure::IllegalOwner)
    } else if vault.data.len() != VAULT_LEN || vault.data[0] != VAULT_TAG {
        Err(ProgramFailure::InvalidAccountData)
    } else if program_address(vault_seeds_spec(genesis).push(seq![vault.data[29]]), program_id)
        != Some(vault.key) {
        Err(ProgramFailure::InvalidSeeds)
    } else {
        Ok(vault.data.subrange(1, 1 + HASH_LEN))
    }
}

/// What `verify_buffered` gives: whether the signature held in `buffer` is a
/// valid signature over `message` under the public key `current`.
pub open spec fn verify_buffered_spec(
    program_id: Seq<u8>,
    buffer: AccountModel,
    current: Seq<u8>,
    message: Seq<u8>,
) -> Result<(), ProgramFailure> {
    if buffer.owner != program_id {
        Err(ProgramFailure::IllegalOwner)
    } else if buffer.data.len() != SIGBUF_LEN || buffer.data[0] != SIGBUF_TAG {
        Err(ProgramFailure::InvalidAccountData)
    } else if recovered_key_spec(split_hashes(buffer.data.subrange(2, SIGBUF_LEN as int)), message)
        == current {
        Ok(())
    } else {
        Err(ProgramFailure::Custom(VaultError::InvalidSignature))
    }
}

/// Vault data with its current public key replaced by `next`.
pub open spec fn rotated(data: Seq<u8>, next: Seq<u8>) -> Seq<u8> {
    data.subrange(0, 1) + next + data.subrange(1 + HASH_LEN, data.len() as int)
}

/// `a - b`, or `0` where `b > a`.
pub open spec fn saturating_sub_spec(a: u64, b: u64) -> u64 {
    if a >= b {
        (a - b) as u64
    } else {
        0
    }
}

/// The end of every successful spend: rotate the vault to `next`, then close
/// the signature buffer into `refund`.
pub open spec fn finish_spend_spec(
    l: Seq<AccountModel>,
    vault: int,
    buffer: int,
    refund: int,
    next: Seq<u8>,
) -> Seq<AccountModel> {
    close_spec(set_data(l, vault, rotated(l[vault].data, next)), buffer, refund)
}

/// What a SOL spend does to the accounts, with roles
/// `[vault, sig_buffer, destination, rent_refund]`, or why it fails.
pub open spec fn spend_sol_spec(
    program_id: Seq<u8>,
    l: Seq<AccountModel>,
    roles: Seq<usize>,
    genesis: Seq<u8>,
    amount: u64,
    next: Seq<u8>,
    vault_rent_minimum: u64,
) -> Result<Seq<AccountModel>, ProgramFailure> {
    if roles.len() < 4 {
        Err(ProgramFailure::NotEnoughAccountKeys)
    } else {
        let v = roles[0] as int;
        let b = roles[1] as int;
        let d = roles[2] as int;
        let r = roles[3] as int;
        match read_vault_spec(program_id, l[v], genesis) {
            Err(e) => Err(e),
            Ok(current) => {
                let message = spend_sol_message_spec(genesis, amount, l[d].key, next);
                match verify_buffered_spec(program_id, l[b], current, message) {
                    Err(e) => Err(e),
                    Ok(_) => {
                        if amount > saturating_sub_spec(l[v].lamports, vault_rent_minimum) {
                            Err(ProgramFailure::Custom(VaultError::InsufficientFunds))
                        } else {
                            Ok(finish_spend_spec(transfer_spec(l, v, d, amount), v, b, r, next))
                        }
                    },
                }
            },
        }
    }
}

/// Every role names an account of the ledger.
pub open spec fn roles_in(roles: Seq<usize>, l: Seq<Account>) -> bool {
    forall|i: int| 0 <= i < roles.len() ==> (#[trigger] roles[i]) < l.len()
}

/// Copy a hash into a fresh vector.
fn hash_to_vec(h: &crate::params::Hash) -> (v: Vec<u8>)
    ensures
        v@ == h@,
{
    let mut v: Vec<u8> = Vec::with_capacity(HASH_LEN);
    for k in 0..HASH_LEN
        invariant
            v@ == h@.subrange(0, k as int),
    {
        v.push(h[k]);
        assert(h@.subrange(0, k + 1) =~= h@.subrange(0, k as int).push(h@[k as int]));
    }
    assert(h@.subrange(0, HASH_LEN as int) =~= h@);
    v
}

/// The seeds `[prefix, genesis]`, and with a bump seed `[prefix, genesis, [bump]]`.
fn seeds_of(prefix: Vec<u8>, genesis: &crate::params::Hash, bump: Option<u8>) -> (seeds: Vec<Vec<u8>>)
    ensures
        seeds.deep_view() == match bump {
            None => seq![prefix@, genesis@],
            Some(b) => seq![prefix@, genesis@, seq![b]],
        },
{
    let ghost p = prefix@;
    let mut seeds: Vec<Vec<u8>> = Vec::new();
    seeds.push(prefix);
    seeds.push(hash_to_vec(genesis));
    assert(seeds@[0].deep_view() =~= p);
    assert(seeds@[1].deep_view() =~= genesis@);
    match bump {
        None => {
            assert(seeds.deep_view() =~= seq![p, genesis@]);
        },
        Some(b) => {
            let bv = vec![b];
            assert(bv@ =~= seq![b]);
            seeds.push(bv);
            assert(seeds@[2].deep_view() =~= seq![b]);
            assert(seeds.deep_view() =~= seq![p, genesis@, seq![b]]);
        },
    }
    seeds
}

/// Read and check the vault account bound to `genesis`: owned by this
/// program, laid out as a vault, and at the program address of
/// `[b"vault", genesis, [bump]]` with its stored bump. Gives its current
/// public key.
pub fn read_vault(program_id: &[u8; 32], vault: &Account, genesis: &[u8; HASH_LEN]) -> (r: Result<
    [u8; HASH_LEN],
    ProgramFailure,
>)
    ensures
        match r {
            Ok(current) => {
                &&& read_vault_spec(program_id@, vault.deep_view(), genesis@) == Ok::<
                    Seq<u8>,
                    ProgramFailure,
                >(current@)
                &&& vault.owner@ == program_id@
                &&& vault.data@.len() == VAULT_LEN
                &&& vault.data@[0] == VAULT_TAG
                &&& current@ == vault.data@.subrange(1, 1 + HASH_LEN)
                &&& program_address(
                    seq![vault_seed_spec(), genesis@, seq![vault.data@[29]]],
                    program_id@,
                ) == Some(vault.key@)
            },
            Err(e) => read_vault_spec(program_id@, vault.deep_view(), genesis@) == Err::<
                Seq<u8>,
                ProgramFailure,
            >(e),
        },
{
    if !bytes_equal(&vault.owner, program_id) {
        return Err(ProgramFailure::IllegalOwner);
    }
    if vault.data.len() != VAULT_LEN || vault.data[0] != VAULT_TAG {
        return Err(ProgramFailure::InvalidAccountData);
    }
    let bump = vault.data[29];
    let seeds = seeds_of(vault_seed(), genesis, Some(bump));
    assert(seeds.deep_view() =~= vault_seeds_spec(genesis@).push(seq![bump]));
    match create_program_address(&seeds, program_id) {
        Err(_) => Err(ProgramFailure::InvalidSeeds),
        Ok(expected) => {
            if !bytes_equal(&expected, &vault.key) {
                return Err(ProgramFailure::InvalidSeeds);
            }
            let mut current = [0u8; HASH_LEN];
            for k in 0..HASH_LEN
                invariant
                    vault.data@.len() == VAULT_LEN,
                    forall|j: int| 0 <= j < k ==> current@[j] == vault.data@[1 + j],
            {
                current[k] = vault.data[1 + k];
            }
            assert(current@ =~= vault.data@.subrange(1, 1 + HASH_LEN));
            Ok(current)
        },
    }
}

/// Check the signature held in the buffer account: owned by this program,
/// laid out as a signature buffer, and holding a valid signature over
/// `message` under the public key `current`.
pub fn verify_buffered(
    program_id: &[u8; 32],
    buffer: &Account,
    current: &[u8; HASH_LEN],
    message: &[u8],
) -> (r: Result<(), ProgramFailure>)
    ensures
        r == verify_buffered_spec(program_id@, buffer.deep_view(), current@, message@),
{
    if !bytes_equal(&buffer.owner, program_id) {
        return Err(ProgramFailure::IllegalOwner);
    }
    if buffer.data.len() != SIGBUF_LEN || buffer.data[0] != SIGBUF_TAG {
        return Err(ProgramFailure::InvalidAccountData);
    }
    let pk = PublicKey(*current);
    let sig = &buffer.data.as_slice()[2..2 + SIGNATURE_BYTES];
    if pk.verify_slice(message, sig) {
        Ok(())
    } else {
        Err(ProgramFailure::Custom(VaultError::InvalidSignature))
    }
}

/// Replace the current public key held in vault data with `next`.
pub fn rotate(data: &mut Vec<u8>, next: &[u8; HASH_LEN])
    requires
        old(data)@.len() >= 1 + HASH_LEN,
    ensures
        final(data)@ == rotated(old(data)@, next@),
        final(data)@.len() == old(data)@.len(),
        final(data)@[0] == old(data)@[0],
        forall|j: int| 1 <= j < 1 + HASH_LEN ==> #[trigger] final(data)@[j] == next@[j - 1],
        forall|j: int|
            1 + HASH_LEN <= j < old(data)@.len() ==> #[trigger] final(data)@[j] == old(data)@[j],
{
    for k in 0..HASH_LEN
        invariant
            old(data)@.len() >= 1 + HASH_LEN,
            data@.len() == old(data)@.len(),
            forall|j: int|
                0 <= j < data@.len() ==> #[trigger] data@[j] == if 1 <= j < 1 + k {
                    next@[j - 1]
                } else {
                    old(data)@[j]
                },
    {
        data.set(1 + k, next[k]);
    }
    assert(data@ =~= rotated(old(data)@, next@));
}

/// Drain `account` into `refund`: credit its balance to `refund`, then zero
/// its balance and all of its data, so that the runtime reaps it.
pub fn close_account(ledger: &mut Vec<Account>, account: usize, refund: usize)
    requires
        account < old(ledger)@.len(),
        refund < old(ledger)@.len(),
        total_lamports(old(ledger).deep_view()) <= LAMPORTS_CEILING,
    ensures
        final(ledger).deep_view() == close_spec(old(ledger).deep_view(), account as int, refund as int),
        final(ledger)@.len() == old(ledger)@.len(),
        final(ledger)@[account as int].lamports == 0,
        final(ledger)@[account as int].data@ == Seq::new(
            old(ledger)@[account as int].data@.len(),
            |i: int| 0u8,
        ),
        account != refund ==> final(ledger)@[refund as int].lamports == old(ledger)@[refund as int].lamports + old(ledger)@[account as int].lamports,
        account != refund ==> final(ledger)@[refund as int].data@ == old(ledger)@[refund as int].data@,
        forall|k: int|
            0 <= k < old(ledger)@.len() ==> #[trigger] final(ledger)@[k].key == old(ledger)@[k].key
                && final(ledger)@[k].owner == old(ledger)@[k].owner,
        forall|k: int|
            0 <= k < old(ledger)@.len() && k != account && k != refund ==> #[trigger] final(ledger)@[k].deep_view() == old(ledger)@[k].deep_view(),
{
    let ghost l0 = ledger.deep_view();
    let lamports = ledger[account].lamports;
    proof {
        if account == refund {
            lemma_total_bounds_one(l0, account as int);
        } else {
            lemma_total_bounds_two(l0, account as int, refund as int);
        }
    }
    let credited = ledger[refund].lamports + lamports;
    ledger[refund].lamports = credited;
    let ghost l1 = set_lamports(l0, refund as int, credited as int);
    assert(ledger.deep_view() =~= l1);
    ledger[account].lamports = 0;
    let ghost l2 = set_lamports(l1, account as int, 0);
    assert(ledger.deep_view() =~= l2);
    let n = ledger[account].data.len();
    let zeros: Vec<u8> = vec![0u8; n];
    ledger[account].data = zeros;
    assert(ledger.deep_view() =~= close_spec(l0, account as int, refund as int)) by {
        assert(ledger@[account as int].data@ =~= Seq::new(l2[account as int].data.len(), |i: int| 0u8));
    }
}

/// The end of every successful spend: rotate the vault to `next`, then close
/// the signature buffer into `refund`.
pub fn finish_spend(
    ledger: &mut Vec<Account>,
    vault: usize,
    buffer: usize,
    refund: usize,
    next: &[u8; HASH_LEN],
)
    requires
        vault < old(ledger)@.len(),
        buffer < old(ledger)@.len(),
        refund < old(ledger)@.len(),
        old(ledger)@[vault as int].data@.len() >= 1 + HASH_LEN,
        total_lamports(old(ledger).deep_view()) <= LAMPORTS_CEILING,
    ensures
        final(ledger).deep_view() == finish_spend_spec(
            old(ledger).deep_view(),
            vault as int,
            buffer as int,
            refund as int,
            next@,
        ),
{
    let ghost l0 = ledger.deep_view();
    rotate(&mut ledger[vault].data, next);
    let ghost l1 = set_data(l0, vault as int, rotated(l0[vault as int].data, next@));
    assert(ledger.deep_view() =~= l1);
    proof {
        lemma_total_set_data(l0, vault as int, rotated(l0[vault as int].data, next@));
    }
    close_account(ledger, buffer, refund);
}

/// Withdraw `amount` lamports from the vault bound to `genesis` to the
/// destination, authorised by the signature held in the signature buffer over
/// the SOL spend message; then rotate the vault to `next` and close the buffer
/// into the refund account. Roles: `[vault, sig_buffer, destination, rent_refund]`
/// (indices into `ledger`; two roles may name the same account).
/// `vault_rent_minimum` is the rent-exempt minimum of the vault's data size.
pub fn spend_sol(
    program_id: &[u8; 32],
    ledger: &mut Vec<Account>,
    roles: &Vec<usize>,
    genesis: &[u8; HASH_LEN],
    amount: u64,
    next: &[u8; HASH_LEN],
    vault_rent_minimum: u64,
) -> (r: Result<(), ProgramFailure>)
    requires
        roles_in(roles@, old(ledger)@),
        total_lamports(old(ledger).deep_view()) <= LAMPORTS_CEILING,
    ensures
        match r {
            Ok(()) => spend_sol_spec(
                program_id@,
                old(ledger).deep_view(),
                roles@,
                genesis@,
                amount,
                next@,
                vault_rent_minimum,
            ) == Ok::<Seq<AccountModel>, ProgramFailure>(final(ledger).deep_view()),
            Err(e) => {
                &&& spend_sol_spec(
                    program_id@,
                    old(ledger).deep_view(),
                    roles@,
                    genesis@,
                    amount,
                    next@,
                    vault_rent_minimum,
                ) == Err::<Seq<AccountModel>, ProgramFailure>(e)
                &&& final(ledger).deep_view() == old(ledger).deep_view()
            },
        },
{
    if roles.len() < 4 {
        return Err(ProgramFailure::NotEnoughAccountKeys);
    }
    let v = roles[0];
    let b = roles[1];
    let d = roles[2];
    let rr = roles[3];
    assert(v < ledger@.len() && b < ledger@.len() && d < ledger@.len() && rr < ledger@.len()) by {
        assert(roles@[0] < ledger@.len());
        assert(roles@[1] < ledger@.len());
        assert(roles@[2] < ledger@.len());
        assert(roles@[3] < ledger@.len());
    }
    let ghost l0 = ledger.deep_view();
    assert(l0[v as int] == ledger@[v as int].deep_view());
    assert(l0[b as int] == ledger@[b as int].deep_view());
    assert(l0[d as int] == ledger@[d as int].deep_view());
    let current = match read_vault(program_id, &ledger[v], genesis) {
        Ok(c) => c,
        Err(e) => return Err(e),
    };
    let message = spend_sol_message(genesis, amount, &ledger[d].key, next);
    match verify_buffered(program_id, &ledger[b], &current, message.as_slice()) {
        Ok(()) => {},
        Err(e) => return Err(e),
    }
    let available = ledger[v].lamports.saturating_sub(vault_rent_minimum);
    if amount > available {
        return Err(ProgramFailure::Custom(VaultError::InsufficientFunds));
    }
    let debited = ledger[v].lamports - amount;
    ledger[v].lamports = debited;
    let ghost l1 = set_lamports(l0, v as int, debited as int);
    assert(ledger.deep_view() =~= l1);
    proof {
        lemma_total_set_lamports(l0, v as int, debited as int);
        lemma_total_bounds_one(l1, d as int);
    }
    let credited = ledger[d].lamports + amount;
    ledger[d].lamports = credited;
    assert(ledger.deep_view() =~= transfer_spec(l0, v as int, d as int, amount));
    proof {
        crate::vault::account::lemma_transfer_keeps_total(l0, v as int, d as int, amount);
    }
    finish_spend(ledger, v, b, rr, next);
    Ok(())
}

/// What writing `chunk` at `offset` into the signature buffer (role
/// `[sig_buffer]`) does to the accounts, or why it fails.
pub open spec fn write_sig_buffer_spec(
    program_id: Seq<u8>,
    l: Seq<AccountModel>,
    roles: Seq<usize>,
    offset: u16,
    chunk: Seq<u8>,
) -> Result<Seq<AccountModel>, ProgramFailure> {
    if roles.len() < 1 {
        Err(ProgramFailure::NotEnoughAccountKeys)
    } else {
        let b = roles[0] as int;
        let start = 2 + offset;
        if l[b].owner != program_id {
            Err(ProgramFailure::IllegalOwner)
        } else if l[b].data.len() != SIGBUF_LEN || l[b].data[0] != SIGBUF_TAG {
            Err(ProgramFailure::InvalidAccountData)
        } else if start + chunk.len() > SIGBUF_LEN {
            Err(ProgramFailure::Custom(VaultError::BufferTooSmall))
        } else {
            Ok(
                set_data(
                    l,
                    b,
                    l[b].data.subrange(0, start) + chunk + l[b].data.subrange(
                        start + chunk.len(),
                        SIGBUF_LEN as int,
                    ),
                ),
            )
        }
    }
}

/// A successful write into the signature buffer changes nothing but the
/// chunk's range of the buffer's data: every other account is unchanged, the
/// buffer keeps its address, owner, balance and data length, its bytes
/// `2 + offset .. 2 + offset + chunk.len()` become the chunk, and every other
/// byte keeps its value.
pub proof fn lemma_write_sig_buffer_frame(
    program_id: Seq<u8>,
    l: Seq<AccountModel>,
    roles: Seq<usize>,
    offset: u16,
    chunk: Seq<u8>,
)
    requires
        roles.len() >= 1 ==> roles[0] < l.len(),
    ensures
        write_sig_buffer_spec(program_id, l, roles, offset, chunk) matches Ok(after) ==> {
            let b = roles[0] as int;
            let start = 2 + offset;
            &&& after.len() == l.len()
            &&& forall|k: int| 0 <= k < l.len() && k != b ==> #[trigger] after[k] == l[k]
            &&& after[b].key == l[b].key
            &&& after[b].owner == l[b].owner
            &&& after[b].lamports == l[b].lamports
            &&& after[b].is_signer == l[b].is_signer
            &&& after[b].data.len() == l[b].data.len()
            &&& forall|j: int|
                0 <= j < l[b].data.len() && !(start <= j < start + chunk.len())
                    ==> #[trigger] after[b].data[j] == l[b].data[j]
            &&& forall|j: int| 0 <= j < chunk.len() ==> after[b].data[start + j] == #[trigger] chunk[j]
        },
{
}

/// Overwrite `data[start .. start + chunk.len()]` with `chunk`.
fn write_at(data: &mut Vec<u8>, start: usize, chunk: &[u8])
    requires
        start + chunk@.len() <= old(data)@.len(),
    ensures
        final(data)@ == old(data)@.subrange(0, start as int) + chunk@ + old(data)@.subrange(
            start + chunk@.len(),
            old(data)@.len() as int,
        ),
{
    let n = chunk.len();
    let dl = data.len();
    for k in 0..n
        invariant
            n == chunk@.len(),
            dl == old(data)@.len(),
            start + chunk@.len() <= old(data)@.len(),
            data@.len() == old(data)@.len(),
            forall|j: int|
                0 <= j < data@.len() ==> #[trigger] data@[j] == if start <= j < start + k {
                    chunk@[j - start]
                } else {
                    old(data)@[j]
                },
    {
        data.set(start + k, chunk[k]);
    }
    assert(data@ =~= old(data)@.subrange(0, start as int) + chunk@ + old(data)@.subrange(
        start + chunk@.len(),
        old(data)@.len() as int,
    ));
}

/// Write `chunk` into the signature buffer at `offset` (counted from the
/// start of the signature, after the two header bytes). The buffer must be
/// owned by this program and laid out as a signature buffer, and the chunk
/// must fit.
pub fn write_sig_buffer(
    program_id: &[u8; 32],
    ledger: &mut Vec<Account>,
    roles: &Vec<usize>,
    offset: u16,
    chunk: &Vec<u8>,
) -> (r: Result<(), ProgramFailure>)
    requires
        roles_in(roles@, old(ledger)@),
    ensures
        match r {
            Ok(()) => {
                let b = roles@[0] as int;
                let start = 2 + offset;
                let l = old(ledger).deep_view();
                let after = final(ledger).deep_view();
                &&& write_sig_buffer_spec(program_id@, l, roles@, offset, chunk@) == Ok::<
                    Seq<AccountModel>,
                    ProgramFailure,
                >(after)
                &&& after.len() == l.len()
                &&& forall|k: int| 0 <= k < l.len() && k != b ==> #[trigger] after[k] == l[k]
                &&& after[b].key == l[b].key
                &&& after[b].owner == l[b].owner
                &&& after[b].lamports == l[b].lamports
                &&& after[b].data.len() == l[b].data.len()
                &&& forall|j: int|
                    0 <= j < l[b].data.len() && !(start <= j < start + chunk@.len())
                        ==> #[trigger] after[b].data[j] == l[b].data[j]
                &&& forall|j: int|
                    0 <= j < chunk@.len() ==> after[b].data[start + j] == #[trigger] chunk@[j]
            },
            Err(e) => {
                &&& write_sig_buffer_spec(program_id@, old(ledger).deep_view(), roles@, offset, chunk@)
                    == Err::<Seq<AccountModel>, ProgramFailure>(e)
                &&& final(ledger).deep_view() == old(ledger).deep_view()
            },
        },
{
    if roles.len() < 1 {
        return Err(ProgramFailure::NotEnoughAccountKeys);
    }
    let b = roles[0];
    assert(b < ledger@.len()) by {
        assert(roles@[0] < ledger@.len());
    }
    let ghost l0 = ledger.deep_view();
    assert(l0[b as int] == ledger@[b as int].deep_view());
    if !bytes_equal(&ledger[b].owner, program_id) {
        return Err(ProgramFailure::IllegalOwner);
    }
    if ledger[b].data.len() != SIGBUF_LEN || ledger[b].data[0] != SIGBUF_TAG {
        return Err(ProgramFailure::InvalidAccountData);
    }
    let start = 2 + offset as usize;
    let end = match start.checked_add(chunk.len()) {
        Some(e) => e,
        None => return Err(ProgramFailure::Custom(VaultError::BufferTooSmall)),
    };
    if end > SIGBUF_LEN {
        return Err(ProgramFailure::Custom(VaultError::BufferTooSmall));
    }
    write_at(&mut ledger[b].data, start, chunk.as_slice());
    assert(ledger.deep_view() =~= set_data(
        l0,
        b as int,
        l0[b as int].data.subrange(0, start as int) + chunk@ + l0[b as int].data.subrange(
            start + chunk@.len(),
            SIGBUF_LEN as int,
        ),
    ));
    proof {
        lemma_write_sig_buffer_frame(program_id@, l0, roles@, offset, chunk@);
    }
    Ok(())
}

/// The system program `CreateAccount` call that an instruction asks for: the
/// payer funds a new account at a program address, signed for with
/// `signer_seeds`, of `space` bytes owned by `owner`.
#[derive(PartialEq, Eq, Debug)]
pub struct CreateAccount {
    pub payer: usize,
    pub new_account: usize,
    pub system_program: usize,
    pub lamports: u64,
    pub space: u64,
    pub owner: [u8; 32],
    pub signer_seeds: Vec<Vec<u8>>,
}

/// `plan` is the account creation with exactly these parts.
pub open spec fn creates(
    plan: CreateAccount,
    payer: usize,
    new_account: usize,
    system_program: usize,
    lamports: int,
    space: int,
    owner: Seq<u8>,
    signer_seeds: Seq<Seq<u8>>,
) -> bool {
    &&& plan.payer == payer
    &&& plan.new_account == new_account
    &&& plan.system_program == system_program
    &&& plan.lamports == lamports
    &&& plan.space == space
    &&& plan.owner@ == owner
    &&& plan.signer_seeds.deep_view() == signer_seeds
}

/// The checks of an account-creating instruction with roles
/// `[new_account, payer, system_program]`: the new account must sit at the
/// program address found for `seeds`, and the payer must sign; it is funded
/// with `rent_minimum + extra` lamports. `None` where the instruction aborts:
/// no bump seed gives a program address, or, once the checks pass, the
/// funding overflows.
fn plan_creation(
    program_id: &[u8; 32],
    ledger: &Vec<Account>,
    roles: &Vec<usize>,
    seeds: Vec<Vec<u8>>,
    rent_minimum: u64,
    extra: u64,
    space: u64,
) -> (r: Option<Result<CreateAccount, ProgramFailure>>)
    requires
        roles_in(roles@, ledger@),
    ensures
        roles@.len() < 3 ==> r == Some(
            Err::<CreateAccount, ProgramFailure>(ProgramFailure::NotEnoughAccountKeys),
        ),
        roles@.len() >= 3 ==> match found_program_address(seeds.deep_view(), program_id@) {
            None => r is None,
            Some((pda, bump)) => if pda != ledger@[roles@[0] as int].key@ {
                r == Some(Err::<CreateAccount, ProgramFailure>(ProgramFailure::InvalidSeeds))
            } else if !ledger@[roles@[1] as int].is_signer {
                r == Some(
                    Err::<CreateAccount, ProgramFailure>(ProgramFailure::MissingRequiredSignature),
                )
            } else if rent_minimum + extra > u64::MAX {
                r is None
            } else {
                &&& r matches Some(Ok(plan)) && creates(
                    plan,
                    roles@[1],
                    roles@[0],
                    roles@[2],
                    rent_minimum + extra,
                    space as int,
                    program_id@,
                    seeds.deep_view().push(seq![bump]),
                )
                &&& program_address(seeds.deep_view().push(seq![bump]), program_id@) == Some(pda)
            },
        },
{
    if roles.len() < 3 {
        return Some(Err(ProgramFailure::NotEnoughAccountKeys));
    }
    let target = roles[0];
    let payer = roles[1];
    let system_program = roles[2];
    assert(target < ledger@.len() && payer < ledger@.len()) by {
        assert(roles@[0] < ledger@.len());
        assert(roles@[1] < ledger@.len());
    }
    let (pda, bump) = match try_find_program_address(&seeds, program_id) {
        None => return None,
        Some(found) => found,
    };
    if !bytes_equal(&pda, &ledger[target].key) {
        return Some(Err(ProgramFailure::InvalidSeeds));
    }
    if !ledger[payer].is_signer {
        return Some(Err(ProgramFailure::MissingRequiredSignature));
    }
    let lamports = match rent_minimum.checked_add(extra) {
        None => return None,
        Some(total) => total,
    };
    let ghost s0 = seeds.deep_view();
    let mut signer_seeds = seeds;
    let bv = vec![bump];
    signer_seeds.push(bv);
    assert(signer_seeds@[signer_seeds@.len() - 1].deep_view() =~= seq![bump]);
    assert(signer_seeds.deep_view() =~= s0.push(seq![bump]));
    Some(
        Ok(
            CreateAccount {
                payer,
                new_account: target,
                system_program,
                lamports,
                space,
                owner: *program_id,
                signer_seeds,
            },
        ),
    )
}

/// Open a vault bound to `genesis_pubkey`: check the account-creation
/// request (roles `[vault, funder, system_program]`) and plan the creation of
/// the vault at the program address of `[b"vault", genesis]`, funded with the
/// rent-exempt minimum `rent_minimum` of its size plus `deposit`. `None` where
/// the instruction aborts: no bump seed gives a program address, or, once the
/// checks pass, `rent_minimum + deposit` overflows.
pub fn open_vault(
    program_id: &[u8; 32],
    ledger: &Vec<Account>,
    roles: &Vec<usize>,
    genesis: &[u8; HASH_LEN],
    deposit: u64,
    rent_minimum: u64,
) -> (r: Option<Result<CreateAccount, ProgramFailure>>)
    requires
        roles_in(roles@, ledger@),
    ensures
        roles@.len() < 3 ==> r == Some(
            Err::<CreateAccount, ProgramFailure>(ProgramFailure::NotEnoughAccountKeys),
        ),
        roles@.len() >= 3 ==> match found_program_address(vault_seeds_spec(genesis@), program_id@) {
            None => r is None,
            Some((pda, bump)) => if pda != ledger@[roles@[0] as int].key@ {
                r == Some(Err::<CreateAccount, ProgramFailure>(ProgramFailure::InvalidSeeds))
            } else if !ledger@[roles@[1] as int].is_signer {
                r == Some(
                    Err::<CreateAccount, ProgramFailure>(ProgramFailure::MissingRequiredSignature),
                )
            } else if rent_minimum + deposit > u64::MAX {
                r is None
            } else {
                &&& r matches Some(Ok(plan)) && creates(
                    plan,
                    roles@[1],
                    roles@[0],
                    roles@[2],
                    rent_minimum + deposit,
                    VAULT_LEN as int,
                    program_id@,
                    vault_seeds_spec(genesis@).push(seq![bump]),
                )
                &&& program_address(vault_seeds_spec(genesis@).push(seq![bump]), program_id@)
                    == Some(pda)
            },
        },
{
    let seeds = seeds_of(vault_seed(), genesis, None);
    plan_creation(program_id, ledger, roles, seeds, rent_minimum, deposit, VAULT_LEN as u64)
}

/// Create the signature buffer for an in-flight spend: check the
/// account-creation request (roles `[sig_buffer, payer, system_program]`) and
/// plan the creation of the buffer at the program address of
/// `[b"sigbuf", genesis]`, funded with the rent-exempt minimum `rent_minimum`
/// of its size. `None` where no bump seed gives a program address.
pub fn init_sig_buffer(
    program_id: &[u8; 32],
    ledger: &Vec<Account>,
    roles: &Vec<usize>,
    genesis: &[u8; HASH_LEN],
    rent_minimum: u64,
) -> (r: Option<Result<CreateAccount, ProgramFailure>>)
    requires
        roles_in(roles@, ledger@),
    ensures
        roles@.len() < 3 ==> r == Some(
            Err::<CreateAccount, ProgramFailure>(ProgramFailure::NotEnoughAccountKeys),
        ),
        roles@.len() >= 3 ==> match found_program_address(sigbuf_seeds_spec(genesis@), program_id@) {
            None => r is None,
            Some((pda, bump)) => if pda != ledger@[roles@[0] as int].key@ {
                r == Some(Err::<CreateAccount, ProgramFailure>(ProgramFailure::InvalidSeeds))
            } else if !ledger@[roles@[1] as int].is_signer {
                r == Some(
                    Err::<CreateAccount, ProgramFailure>(ProgramFailure::MissingRequiredSignature),
                )
            } else {
                &&& r matches Some(Ok(plan)) && creates(
                    plan,
                    roles@[1],
                    roles@[0],
                    roles@[2],
                    rent_minimum as int,
                    SIGBUF_LEN as int,
                    program_id@,
                    sigbuf_seeds_spec(genesis@).push(seq![bump]),
                )
                &&& program_address(sigbuf_seeds_spec(genesis@).push(seq![bump]), program_id@)
                    == Some(pda)
            },
        },
{
    let seeds = seeds_of(sigbuf_seed(), genesis, None);
    plan_creation(program_id, ledger, roles, seeds, rent_minimum, 0, SIGBUF_LEN as u64)
}

/// Vault data laid out as `[VAULT_TAG][current_pubkey = genesis][bump]`.
pub open spec fn vault_layout(data: Seq<u8>, genesis: Seq<u8>, bump: u8) -> Seq<u8> {
    seq![VAULT_TAG] + genesis + seq![bump] + data.subrange(VAULT_LEN as int, data.len() as int)
}

/// Lay out a freshly created vault: its tag, its current public key (the
/// genesis key) and its bump seed.
pub fn init_vault_data(data: &mut Vec<u8>, genesis: &[u8; HASH_LEN], bump: u8)
    requires
        old(data)@.len() >= VAULT_LEN,
    ensures
        final(data)@ == vault_layout(old(data)@, genesis@, bump),
        final(data)@.len() == old(data)@.len(),
        final(data)@[0] == VAULT_TAG,
        final(data)@.subrange(1, 1 + HASH_LEN) == genesis@,
        final(data)@[29] == bump,
        forall|j: int| VAULT_LEN <= j < old(data)@.len() ==> #[trigger] final(data)@[j] == old(data)@[j],
{
    data.set(0, VAULT_TAG);
    write_at(data, 1, genesis);
    data.set(29, bump);
    assert(data@ =~= vault_layout(old(data)@, genesis@, bump));
    assert(data@.subrange(1, 1 + HASH_LEN) =~= genesis@);
}

/// Signature buffer data laid out as `[SIGBUF_TAG][bump]` before its signature.
pub open spec fn sigbuf_layout(data: Seq<u8>, bump: u8) -> Seq<u8> {
    seq![SIGBUF_TAG, bump] + data.subrange(2, data.len() as int)
}

/// Lay out a freshly created signature buffer: its tag and its bump seed.
pub fn init_sigbuf_data(data: &mut Vec<u8>, bump: u8)
    requires
        old(data)@.len() >= 2,
    ensures
        final(data)@ == sigbuf_layout(old(data)@, bump),
        final(data)@.len() == old(data)@.len(),
        final(data)@[0] == SIGBUF_TAG,
        final(data)@[1] == bump,
        forall|j: int| 2 <= j < old(data)@.len() ==> #[trigger] final(data)@[j] == old(data)@[j],
{
    data.set(0, SIGBUF_TAG);
    data.set(1, bump);
    assert(data@ =~= sigbuf_layout(old(data)@, bump));
}

/// The SPL Token `Transfer` call a token spend asks for: `amount` tokens from
/// `source` to `destination`, authorised by the vault (`authority`) signing
/// with `signer_seeds`.
#[derive(PartialEq, Eq, Debug)]
pub struct TokenTransfer {
    pub token_program: usize,
    pub source: usize,
    pub destination: usize,
    pub authority: usize,
    pub data: Vec<u8>,
    pub signer_seeds: Vec<Vec<u8>>,
}

/// The checks of a token spend, with roles `[vault, sig_buffer, mint,
/// vault_token, destination_token, token_program, rent_refund]`: the vault's
/// bump seed where they pass, or why they fail.
pub open spec fn spend_token_spec(
    program_id: Seq<u8>,
    l: Seq<AccountModel>,
    roles: Seq<usize>,
    genesis: Seq<u8>,
    amount: u64,
    next: Seq<u8>,
) -> Result<u8, ProgramFailure> {
    if roles.len() < 7 {
        Err(ProgramFailure::NotEnoughAccountKeys)
    } else {
        let v = roles[0] as int;
        let b = roles[1] as int;
        let mint = roles[2] as int;
        let dest = roles[4] as int;
        let token_program = roles[5] as int;
        if l[token_program].key != SPL_TOKEN_ID@ {
            Err(ProgramFailure::Custom(VaultError::BadTokenProgram))
        } else {
            match read_vault_spec(program_id, l[v], genesis) {
                Err(e) => Err(e),
                Ok(current) => {
                    let message = spend_token_message_spec(
                        genesis,
                        l[mint].key,
                        amount,
                        l[dest].key,
                        next,
                    );
                    match verify_buffered_spec(program_id, l[b], current, message) {
                        Err(e) => Err(e),
                        Ok(_) => Ok(l[v].data[29]),
                    }
                },
            }
        }
    }
}

/// Check a token spend from the vault bound to `genesis`, authorised by the
/// signature held in the signature buffer over the token spend message, and
/// plan the SPL Token transfer of `amount` from the vault's token account to
/// the destination token account. After the transfer, `finish_spend` with
/// roles `vault`, `sig_buffer` and `rent_refund` rotates the vault and closes
/// the buffer.
pub fn spend_token(
    program_id: &[u8; 32],
    ledger: &Vec<Account>,
    roles: &Vec<usize>,
    genesis: &[u8; HASH_LEN],
    amount: u64,
    next: &[u8; HASH_LEN],
) -> (r: Result<TokenTransfer, ProgramFailure>)
    requires
        roles_in(roles@, ledger@),
    ensures
        match r {
            Ok(t) => {
                &&& spend_token_spec(program_id@, ledger.deep_view(), roles@, genesis@, amount, next@)
                    matches Ok(bump)
                &&& t.token_program == roles@[5]
                &&& t.source == roles@[3]
                &&& t.destination == roles@[4]
                &&& t.authority == roles@[0]
                &&& t.data@ == token_transfer_data_spec(amount)
                &&& t.data@.len() == 9
                &&& t.data@[0] == 3
                &&& vstd::bytes::spec_u64_from_le_bytes(t.data@.subrange(1, 9)) == amount
                &&& t.signer_seeds.deep_view() == vault_seeds_spec(genesis@).push(seq![bump])
            },
            Err(e) => spend_token_spec(program_id@, ledger.deep_view(), roles@, genesis@, amount, next@)
                == Err::<u8, ProgramFailure>(e),
        },
{
    if roles.len() < 7 {
        return Err(ProgramFailure::NotEnoughAccountKeys);
    }
    let v = roles[0];
    let b = roles[1];
    let mint = roles[2];
    let source = roles[3];
    let dest = roles[4];
    let token_program = roles[5];
    assert(v < ledger@.len() && b < ledger@.len() && mint < ledger@.len() && dest < ledger@.len()
        && token_program < ledger@.len()) by {
        assert(roles@[0] < ledger@.len());
        assert(roles@[1] < ledger@.len());
        assert(roles@[2] < ledger@.len());
        assert(roles@[4] < ledger@.len());
        assert(roles@[5] < ledger@.len());
    }
    let ghost l0 = ledger.deep_view();
    assert(l0[v as int] == ledger@[v as int].deep_view());
    assert(l0[b as int] == ledger@[b as int].deep_view());
    assert(l0[mint as int] == ledger@[mint as int].deep_view());
    assert(l0[dest as int] == ledger@[dest as int].deep_view());
    assert(l0[token_program as int] == ledger@[token_program as int].deep_view());
    let spl_token_id = SPL_TOKEN_ID;
    if !bytes_equal(&ledger[token_program].key, &spl_token_id) {
        return Err(ProgramFailure::Custom(VaultError::BadTokenProgram));
    }
    let current = match read_vault(program_id, &ledger[v], genesis) {
        Ok(c) => c,
        Err(e) => return Err(e),
    };
    let bump = ledger[v].data[29];
    let message = spend_token_message(genesis, &ledger[mint].key, amount, &ledger[dest].key, next);
    match verify_buffered(program_id, &ledger[b], &current, message.as_slice()) {
        Ok(()) => {},
        Err(e) => return Err(e),
    }
    let seeds = seeds_of(vault_seed(), genesis, Some(bump));
    assert(seeds.deep_view() =~= vault_seeds_spec(genesis@).push(seq![bump]));
    Ok(
        TokenTransfer {
            token_program,
            source,
            destination: dest,
            authority: v,
            data: token_transfer_data(amount),
            signer_seeds: seeds,
        },
    )
}

} // verus!
