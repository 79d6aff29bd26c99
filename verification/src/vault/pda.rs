use vstd::prelude::*;

verus! {

/// The error type of program address derivation.
#[verifier::external_type_specification]
#[verifier::external_body]
pub struct ExPubkeyError(solana_program::pubkey::PubkeyError);

/// The program derived address of `seeds` under `program_id`, as
/// `Pubkey::create_program_address` computes it, or `None` where it fails.
pub uninterp spec fn program_address(seeds: Seq<Seq<u8>>, program_id: Seq<u8>) -> Option<Seq<u8>>;

/// The address and bump seed that `Pubkey::try_find_program_address` finds for
/// `seeds` under `program_id`, or `None` where it finds none.
pub uninterp spec fn found_program_address(seeds: Seq<Seq<u8>>, program_id: Seq<u8>) -> Option<
    (Seq<u8>, u8),
>;

/// `Pubkey::create_program_address`.
///
/// Trusted: the contract claims that the call succeeds exactly when the named
/// result `program_address` of the seeds and program id is `Some`, and then
/// returns that address. Which error it returns otherwise is left unsaid.
#[verifier::external_body]
pub(crate) fn create_program_address(seeds: &Vec<Vec<u8>>, program_id: &[u8; 32]) -> (r: Result<
    [u8; 32],
    solana_program::pubkey::PubkeyError,
>)
    ensures
        match r {
            Ok(address) => program_address(seeds.deep_view(), program_id@) == Some(address@),
            Err(_) => program_address(seeds.deep_view(), program_id@) is None,
        },
{
    let refs: Vec<&[u8]> = seeds.iter().map(|s| s.as_slice()).collect();
    let id = solana_program::pubkey::Pubkey::new_from_array(*program_id);
    solana_program::pubkey::Pubkey::create_program_address(&refs, &id).map(|p| p.to_bytes())
}

/// `Pubkey::try_find_program_address`.
///
/// Trusted: the contract claims that the result is the named value
/// `found_program_address` of the seeds and program id, and, as the source
/// shows (it returns the first bump seed for which `create_program_address`
/// succeeds), that a found address is the program address of the seeds
/// followed by the one-byte bump seed.
#[verifier::external_body]
pub(crate) fn try_find_program_address(seeds: &Vec<Vec<u8>>, program_id: &[u8; 32]) -> (r: Option<
    ([u8; 32], u8),
>)
    ensures
        match r {
            Some((address, bump)) => {
                &&& found_program_address(seeds.deep_view(), program_id@) == Some((address@, bump))
                &&& program_address(seeds.deep_view().push(seq![bump]), program_id@) == Some(
                    address@,
                )
            },
            None => found_program_address(seeds.deep_view(), program_id@) is None,
        },
{
    let refs: Vec<&[u8]> = seeds.iter().map(|s| s.as_slice()).collect();
    let id = solana_program::pubkey::Pubkey::new_from_array(*program_id);
    solana_program::pubkey::Pubkey::try_find_program_address(&refs, &id).map(
        |(p, bump)| (p.to_bytes(), bump),
    )
}

} // verus!
