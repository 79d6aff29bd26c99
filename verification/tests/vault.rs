use quantum_vault::vault::account::Account;
use quantum_vault::vault::error::{ProgramFailure, VaultError};
use quantum_vault::vault::layout::{SIGBUF_LEN, SPL_TOKEN_ID, VAULT_LEN};
use quantum_vault::vault::message::{spend_sol_message, spend_token_message, token_transfer_data};
use quantum_vault::vault::processor::{
    close_account, init_sig_buffer, init_sigbuf_data, init_vault_data, open_vault, read_vault,
    rotate, spend_sol, spend_token, verify_buffered, write_sig_buffer, finish_spend,
};
use quantum_vault::{SecretKey, SIGNATURE_BYTES};
use solana_program::pubkey::Pubkey;

const PROGRAM_ID: [u8; 32] = [
    218, 7, 92, 178, 255, 94, 198, 129, 118, 19, 222, 83, 11, 105, 42, 135, 53, 71, 119, 105, 218,
    71, 67, 12, 189, 129, 84, 51, 92, 74, 131, 39,
];
const RENT: u64 = 1_100_000;
const LAMPORTS_PER_SOL: u64 = 1_000_000_000;

fn pda(prefix: &[u8], genesis: &[u8; 28]) -> ([u8; 32], u8) {
    let (p, bump) =
        Pubkey::find_program_address(&[prefix, genesis], &Pubkey::new_from_array(PROGRAM_ID));
    (p.to_bytes(), bump)
}

fn account(key: [u8; 32], owner: [u8; 32], lamports: u64, data: Vec<u8>, is_signer: bool) -> Account {
    Account { key, owner, lamports, data, is_signer }
}

/// A vault bound to `genesis` holding `lamports`, as `open_vault` leaves it.
fn opened_vault(genesis: &[u8; 28], lamports: u64) -> Account {
    let (key, bump) = pda(b"vault", genesis);
    let mut data = vec![0u8; VAULT_LEN];
    init_vault_data(&mut data, genesis, bump);
    account(key, PROGRAM_ID, lamports, data, false)
}

/// A signature buffer for `genesis` holding `sig`.
fn filled_buffer(genesis: &[u8; 28], sig: &[u8]) -> Account {
    let (key, bump) = pda(b"sigbuf", genesis);
    let mut data = vec![0u8; SIGBUF_LEN];
    init_sigbuf_data(&mut data, bump);
    data[2..].copy_from_slice(sig);
    account(key, PROGRAM_ID, RENT, data, false)
}

#[test]
fn error_codes_follow_declaration_order() {
    assert_eq!(VaultError::InvalidSignature.code(), 0);
    assert_eq!(VaultError::InsufficientFunds.code(), 1);
    assert_eq!(VaultError::BadTokenProgram.code(), 2);
    assert_eq!(VaultError::BufferTooSmall.code(), 3);
}

#[test]
fn spl_token_id_is_the_token_program() {
    let expected: Pubkey = "TokenkegQfeZyiNwAJbNbGKPFXCWuBvf9Ss623VQ5DA".parse().unwrap();
    assert_eq!(SPL_TOKEN_ID, expected.to_bytes());
}

#[test]
fn spend_messages_have_their_layout() {
    let genesis = [1u8; 28];
    let dest = [2u8; 32];
    let next = [3u8; 28];
    let m = spend_sol_message(&genesis, 0x0102030405060708, &dest, &next);
    assert_eq!(m.len(), 1 + 28 + 8 + 32 + 28);
    assert_eq!(m[0], 0x01);
    assert_eq!(&m[1..29], &genesis);
    assert_eq!(&m[29..37], &[8, 7, 6, 5, 4, 3, 2, 1]);
    assert_eq!(&m[37..69], &dest);
    assert_eq!(&m[69..], &next);

    let mint = [4u8; 32];
    let t = spend_token_message(&genesis, &mint, 5, &dest, &next);
    assert_eq!(t.len(), 1 + 28 + 32 + 8 + 32 + 28);
    assert_eq!(t[0], 0x02);
    assert_eq!(&t[29..61], &mint);
    assert_eq!(&t[61..69], &[5, 0, 0, 0, 0, 0, 0, 0]);
    assert_ne!(m, t);

    assert_eq!(token_transfer_data(258), vec![3, 2, 1, 0, 0, 0, 0, 0, 0]);
}

#[test]
fn open_vault_plans_the_creation() {
    let genesis = SecretKey::from_seed(&[1u8; 32]).public_key().0;
    let (key, bump) = pda(b"vault", &genesis);
    let ledger = vec![
        account(key, [0u8; 32], 0, vec![], false),
        account([9u8; 32], [0u8; 32], 10 * LAMPORTS_PER_SOL, vec![], true),
        account([0u8; 32], [0u8; 32], 1, vec![], false),
    ];
    let plan = open_vault(&PROGRAM_ID, &ledger, &vec![0, 1, 2], &genesis, 2 * LAMPORTS_PER_SOL, RENT)
        .unwrap()
        .unwrap();
    assert_eq!(plan.payer, 1);
    assert_eq!(plan.new_account, 0);
    assert_eq!(plan.system_program, 2);
    assert_eq!(plan.lamports, RENT + 2 * LAMPORTS_PER_SOL);
    assert_eq!(plan.space, 30);
    assert_eq!(plan.owner, PROGRAM_ID);
    assert_eq!(plan.signer_seeds, vec![b"vault".to_vec(), genesis.to_vec(), vec![bump]]);
}

#[test]
fn open_vault_rejects_bad_requests() {
    let genesis = [5u8; 28];
    let (key, _) = pda(b"vault", &genesis);
    let funder = account([9u8; 32], [0u8; 32], 100, vec![], true);
    let system = account([0u8; 32], [0u8; 32], 1, vec![], false);
    let wrong = vec![account([8u8; 32], [0u8; 32], 0, vec![], false), funder.clone(), system.clone()];
    assert_eq!(
        open_vault(&PROGRAM_ID, &wrong, &vec![0, 1, 2], &genesis, 1, RENT),
        Some(Err(ProgramFailure::InvalidSeeds))
    );
    let mut unsigned_funder = funder.clone();
    unsigned_funder.is_signer = false;
    let unsigned = vec![account(key, [0u8; 32], 0, vec![], false), unsigned_funder, system.clone()];
    assert_eq!(
        open_vault(&PROGRAM_ID, &unsigned, &vec![0, 1, 2], &genesis, 1, RENT),
        Some(Err(ProgramFailure::MissingRequiredSignature))
    );
    assert_eq!(
        open_vault(&PROGRAM_ID, &unsigned, &vec![0, 1], &genesis, 1, RENT),
        Some(Err(ProgramFailure::NotEnoughAccountKeys))
    );
}

#[test]
fn init_sig_buffer_plans_the_creation() {
    let genesis = [6u8; 28];
    let (key, bump) = pda(b"sigbuf", &genesis);
    let ledger = vec![
        account(key, [0u8; 32], 0, vec![], false),
        account([9u8; 32], [0u8; 32], 100, vec![], true),
        account([0u8; 32], [0u8; 32], 1, vec![], false),
    ];
    let plan = init_sig_buffer(&PROGRAM_ID, &ledger, &vec![0, 1, 2], &genesis, RENT).unwrap().unwrap();
    assert_eq!(plan.lamports, RENT);
    assert_eq!(plan.space, SIGBUF_LEN as u64);
    assert_eq!(plan.signer_seeds, vec![b"sigbuf".to_vec(), genesis.to_vec(), vec![bump]]);
    let mut data = vec![0u8; SIGBUF_LEN];
    init_sigbuf_data(&mut data, bump);
    assert_eq!(&data[..2], &[2, bump]);
}

#[test]
fn opened_vault_reads_its_genesis_key() {
    let genesis = SecretKey::from_seed(&[1u8; 32]).public_key().0;
    let vault = opened_vault(&genesis, RENT);
    assert_eq!(vault.data[0], 1);
    assert_eq!(read_vault(&PROGRAM_ID, &vault, &genesis), Ok(genesis));
}

#[test]
fn read_vault_rejects_foreign_accounts() {
    let genesis = [1u8; 28];
    let vault = opened_vault(&genesis, RENT);
    let mut foreign = vault.clone();
    foreign.owner = [3u8; 32];
    assert_eq!(read_vault(&PROGRAM_ID, &foreign, &genesis), Err(ProgramFailure::IllegalOwner));
    let mut short = vault.clone();
    short.data.pop();
    assert_eq!(read_vault(&PROGRAM_ID, &short, &genesis), Err(ProgramFailure::InvalidAccountData));
    let mut retagged = vault.clone();
    retagged.data[0] = 2;
    assert_eq!(read_vault(&PROGRAM_ID, &retagged, &genesis), Err(ProgramFailure::InvalidAccountData));
    assert_eq!(read_vault(&PROGRAM_ID, &vault, &[2u8; 28]), Err(ProgramFailure::InvalidSeeds));
}

#[test]
fn write_sig_buffer_writes_in_bounds_only() {
    let genesis = [1u8; 28];
    let buffer = filled_buffer(&genesis, &[0u8; SIGNATURE_BYTES]);
    let mut ledger = vec![buffer.clone()];
    assert_eq!(write_sig_buffer(&PROGRAM_ID, &mut ledger, &vec![0], 10, &vec![7, 8, 9]), Ok(()));
    assert_eq!(&ledger[0].data[12..15], &[7, 8, 9]);
    assert_eq!(ledger[0].data[11], 0);
    assert_eq!(ledger[0].data[15], 0);

    let before = ledger.clone();
    assert_eq!(
        write_sig_buffer(&PROGRAM_ID, &mut ledger, &vec![0], 1650, &vec![1, 2, 3]),
        Err(ProgramFailure::Custom(VaultError::BufferTooSmall))
    );
    assert_eq!(ledger, before);
    assert_eq!(write_sig_buffer(&PROGRAM_ID, &mut ledger, &vec![0], 1650, &vec![1, 2]), Ok(()));
    assert_eq!(&ledger[0].data[1652..], &[1, 2]);
    assert_eq!(
        write_sig_buffer(&PROGRAM_ID, &mut ledger, &vec![], 0, &vec![1]),
        Err(ProgramFailure::NotEnoughAccountKeys)
    );

    let mut foreign = vec![buffer.clone()];
    foreign[0].owner = [1u8; 32];
    assert_eq!(
        write_sig_buffer(&PROGRAM_ID, &mut foreign, &vec![0], 0, &vec![1]),
        Err(ProgramFailure::IllegalOwner)
    );
    let mut vault_instead = vec![opened_vault(&genesis, RENT)];
    assert_eq!(
        write_sig_buffer(&PROGRAM_ID, &mut vault_instead, &vec![0], 0, &vec![1]),
        Err(ProgramFailure::InvalidAccountData)
    );
}

#[test]
fn rotate_and_close_update_accounts() {
    let mut data = vec![1u8; VAULT_LEN];
    rotate(&mut data, &[9u8; 28]);
    assert_eq!(data[0], 1);
    assert_eq!(&data[1..29], &[9u8; 28]);
    assert_eq!(data[29], 1);

    let mut ledger = vec![
        account([1u8; 32], PROGRAM_ID, 500, vec![4, 5, 6], false),
        account([2u8; 32], [0u8; 32], 70, vec![], false),
    ];
    close_account(&mut ledger, 0, 1);
    assert_eq!(ledger[0].lamports, 0);
    assert_eq!(ledger[0].data, vec![0, 0, 0]);
    assert_eq!(ledger[1].lamports, 570);
}

/// The whole spend path: sign the spend message with the vault's current key,
/// write the signature into the buffer in two chunks, spend, and check that
/// funds moved, the vault rotated and the buffer closed.
#[test]
fn spend_sol_moves_funds_and_rotates() {
    let sk0 = SecretKey::from_seed(&[1u8; 32]);
    let genesis = sk0.public_key().0;
    let next = SecretKey::from_seed(&[2u8; 32]).public_key().0;
    let amount = LAMPORTS_PER_SOL;
    let dest_key = [5u8; 32];

    let vault = opened_vault(&genesis, RENT + 2 * LAMPORTS_PER_SOL);
    let buffer = filled_buffer(&genesis, &[0u8; SIGNATURE_BYTES]);
    let mut ledger = vec![
        vault,
        buffer,
        account(dest_key, [0u8; 32], 0, vec![], false),
        account([6u8; 32], [0u8; 32], 10, vec![], true),
    ];
    let sig = sk0.sign(&spend_sol_message(&genesis, amount, &dest_key, &next)).to_bytes();
    assert_eq!(write_sig_buffer(&PROGRAM_ID, &mut ledger, &vec![1], 0, &sig[..900].to_vec()), Ok(()));
    assert_eq!(write_sig_buffer(&PROGRAM_ID, &mut ledger, &vec![1], 900, &sig[900..].to_vec()), Ok(()));
    assert_eq!(&ledger[1].data[2..], &sig[..]);

    let roles = vec![0, 1, 2, 3];
    assert_eq!(spend_sol(&PROGRAM_ID, &mut ledger, &roles, &genesis, amount, &next, RENT), Ok(()));
    assert_eq!(ledger[2].lamports, amount);
    assert_eq!(ledger[0].lamports, RENT + LAMPORTS_PER_SOL);
    assert_eq!(read_vault(&PROGRAM_ID, &ledger[0], &genesis), Ok(next));
    assert_eq!(ledger[1].lamports, 0);
    assert!(ledger[1].data.iter().all(|&b| b == 0));
    assert_eq!(ledger[3].lamports, 10 + RENT);
}

#[test]
fn spend_sol_rejects_forgery_and_overdraft() {
    let sk0 = SecretKey::from_seed(&[1u8; 32]);
    let genesis = sk0.public_key().0;
    let next = [3u8; 28];
    let dest_key = [5u8; 32];
    let roles = vec![0, 1, 2, 3];
    let make = |amount: u64, signer: &SecretKey| {
        let sig = signer.sign(&spend_sol_message(&genesis, amount, &dest_key, &next)).to_bytes();
        vec![
            opened_vault(&genesis, RENT + 100),
            filled_buffer(&genesis, &sig),
            account(dest_key, [0u8; 32], 0, vec![], false),
            account([6u8; 32], [0u8; 32], 10, vec![], true),
        ]
    };

    // Signed by a different key: rejected, nothing changes.
    let mut ledger = make(50, &SecretKey::from_seed(&[99u8; 32]));
    let before = ledger.clone();
    assert_eq!(
        spend_sol(&PROGRAM_ID, &mut ledger, &roles, &genesis, 50, &next, RENT),
        Err(ProgramFailure::Custom(VaultError::InvalidSignature))
    );
    assert_eq!(ledger, before);

    // Signed for 50 but asked for 60: the message differs, rejected.
    let mut ledger = make(50, &sk0);
    assert_eq!(
        spend_sol(&PROGRAM_ID, &mut ledger, &roles, &genesis, 60, &next, RENT),
        Err(ProgramFailure::Custom(VaultError::InvalidSignature))
    );

    // Validly signed but more than the vault holds above its rent minimum.
    let mut ledger = make(101, &sk0);
    assert_eq!(
        spend_sol(&PROGRAM_ID, &mut ledger, &roles, &genesis, 101, &next, RENT),
        Err(ProgramFailure::Custom(VaultError::InsufficientFunds))
    );
    let mut ledger = make(100, &sk0);
    assert_eq!(spend_sol(&PROGRAM_ID, &mut ledger, &roles, &genesis, 100, &next, RENT), Ok(()));
    assert_eq!(ledger[0].lamports, RENT);

    let mut ledger = make(1, &sk0);
    assert_eq!(
        spend_sol(&PROGRAM_ID, &mut ledger, &vec![0, 1, 2], &genesis, 1, &next, RENT),
        Err(ProgramFailure::NotEnoughAccountKeys)
    );
}

#[test]
fn verify_buffered_checks_owner_and_layout() {
    let sk0 = SecretKey::from_seed(&[1u8; 32]);
    let genesis = sk0.public_key().0;
    let sig = sk0.sign(b"msg").to_bytes();
    let buffer = filled_buffer(&genesis, &sig);
    assert_eq!(verify_buffered(&PROGRAM_ID, &buffer, &genesis, b"msg"), Ok(()));
    assert_eq!(
        verify_buffered(&PROGRAM_ID, &buffer, &genesis, b"other"),
        Err(ProgramFailure::Custom(VaultError::InvalidSignature))
    );
    let mut foreign = buffer.clone();
    foreign.owner = [0u8; 32];
    assert_eq!(verify_buffered(&PROGRAM_ID, &foreign, &genesis, b"msg"), Err(ProgramFailure::IllegalOwner));
    let mut retagged = buffer.clone();
    retagged.data[0] = 1;
    assert_eq!(
        verify_buffered(&PROGRAM_ID, &retagged, &genesis, b"msg"),
        Err(ProgramFailure::InvalidAccountData)
    );
}

#[test]
fn spend_token_checks_and_plans_the_transfer() {
    let sk0 = SecretKey::from_seed(&[1u8; 32]);
    let genesis = sk0.public_key().0;
    let next = [3u8; 28];
    let mint = [11u8; 32];
    let dest_token = [12u8; 32];
    let amount = 250_000_000u64;
    let (_, bump) = pda(b"vault", &genesis);
    let sig = sk0.sign(&spend_token_message(&genesis, &mint, amount, &dest_token, &next)).to_bytes();
    let mut ledger = vec![
        opened_vault(&genesis, RENT),
        filled_buffer(&genesis, &sig),
        account(mint, [0u8; 32], 1, vec![], false),
        account([13u8; 32], SPL_TOKEN_ID, 1, vec![], false),
        account(dest_token, SPL_TOKEN_ID, 1, vec![], false),
        account(SPL_TOKEN_ID, [0u8; 32], 1, vec![], false),
        account([6u8; 32], [0u8; 32], 10, vec![], true),
    ];
    let roles = vec![0, 1, 2, 3, 4, 5, 6];
    let plan = spend_token(&PROGRAM_ID, &ledger, &roles, &genesis, amount, &next).unwrap();
    assert_eq!(plan.token_program, 5);
    assert_eq!(plan.source, 3);
    assert_eq!(plan.destination, 4);
    assert_eq!(plan.authority, 0);
    assert_eq!(plan.data, token_transfer_data(amount));
    assert_eq!(plan.signer_seeds, vec![b"vault".to_vec(), genesis.to_vec(), vec![bump]]);

    finish_spend(&mut ledger, 0, 1, 6, &next);
    assert_eq!(read_vault(&PROGRAM_ID, &ledger[0], &genesis), Ok(next));
    assert_eq!(ledger[1].lamports, 0);
    assert_eq!(ledger[6].lamports, 10 + RENT);

    let mut bad = ledger.clone();
    bad[5].key = [14u8; 32];
    assert_eq!(
        spend_token(&PROGRAM_ID, &bad, &roles, &genesis, amount, &next),
        Err(ProgramFailure::Custom(VaultError::BadTokenProgram))
    );
}

#[test]
fn open_vault_checks_before_it_adds() {
    let genesis = [5u8; 28];
    let (key, _) = pda(b"vault", &genesis);
    let funder = account([9u8; 32], [0u8; 32], 100, vec![], true);
    let system = account([0u8; 32], [0u8; 32], 1, vec![], false);
    // A bad request is refused with its error even where the funding would overflow.
    let wrong = vec![account([8u8; 32], [0u8; 32], 0, vec![], false), funder.clone(), system.clone()];
    assert_eq!(
        open_vault(&PROGRAM_ID, &wrong, &vec![0, 1, 2], &genesis, u64::MAX, RENT),
        Some(Err(ProgramFailure::InvalidSeeds))
    );
    assert_eq!(
        open_vault(&PROGRAM_ID, &wrong, &vec![0], &genesis, u64::MAX, RENT),
        Some(Err(ProgramFailure::NotEnoughAccountKeys))
    );
    // A good request whose funding overflows aborts.
    let good = vec![account(key, [0u8; 32], 0, vec![], false), funder, system];
    assert_eq!(open_vault(&PROGRAM_ID, &good, &vec![0, 1, 2], &genesis, u64::MAX, RENT), None);
    assert!(open_vault(&PROGRAM_ID, &good, &vec![0, 1, 2], &genesis, u64::MAX - RENT, RENT)
        .unwrap()
        .is_ok());
}

#[test]
fn writing_the_buffer_leaves_vaults_alone() {
    let genesis = [1u8; 28];
    let vault = opened_vault(&genesis, RENT);
    let mut ledger = vec![vault.clone(), filled_buffer(&genesis, &[0u8; SIGNATURE_BYTES])];
    assert_eq!(write_sig_buffer(&PROGRAM_ID, &mut ledger, &vec![1], 0, &vec![1, 2, 3]), Ok(()));
    assert_eq!(ledger[0], vault);
    // Pointing the write at the vault is refused.
    assert_eq!(
        write_sig_buffer(&PROGRAM_ID, &mut ledger, &vec![0], 0, &vec![1, 2, 3]),
        Err(ProgramFailure::InvalidAccountData)
    );
    assert_eq!(ledger[0], vault);
}
