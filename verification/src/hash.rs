use vstd::prelude::*;

use crate::params::HASH_LEN;

verus! {

/// The full 32-byte Keccak-256 digest of `data`, as `solana_program::keccak`
/// computes it.
pub uninterp spec fn keccak256_digest(data: Seq<u8>) -> Seq<u8>;

/// Keccak-256 through `solana_program::keccak::hash` (the `keccak256`
/// syscall on chain, the `sha3` crate's `Keccak256` elsewhere).
///
/// Trusted: the contract claims only that the 32 bytes returned are the value
/// named `keccak256_digest` of the input bytes, i.e. that the digest is a
/// function of the input alone.
#[verifier::external_body]
#[allow(deprecated)]
fn keccak256(data: &[u8]) -> (digest: [u8; 32])
    ensures
        digest@ == keccak256_digest(data@),
{
    solana_program::keccak::hash(data).to_bytes()
}

/// Keccak-256 of `data`, truncated to its first `HASH_LEN` bytes.
pub open spec fn hash_spec(data: Seq<u8>) -> Seq<u8> {
    Seq::new(HASH_LEN as nat, |i: int| keccak256_digest(data)[i])
}

/// `n` applications of the truncated hash to `x`.
pub open spec fn chain_spec(x: Seq<u8>, n: nat) -> Seq<u8>
    decreases n,
{
    if n == 0 {
        x
    } else {
        hash_spec(chain_spec(x, (n - 1) as nat))
    }
}

/// Keccak-256 of `data`, truncated to `HASH_LEN` bytes.
pub fn keccak(data: &[u8]) -> (out: crate::params::Hash)
    ensures
        out@ == hash_spec(data@),
        out@ == keccak256_digest(data@).subrange(0, HASH_LEN as int),
{
    let full = keccak256(data);
    let mut out = [0u8; HASH_LEN];
    for i in 0..HASH_LEN
        invariant
            full@ == keccak256_digest(data@),
            forall|j: int| 0 <= j < i ==> out@[j] == full@[j],
    {
        out[i] = full[i];
    }
    assert(out@ =~= hash_spec(data@));
    assert(out@ =~= keccak256_digest(data@).subrange(0, HASH_LEN as int));
    out
}

/// Walk a hash chain forward: apply the truncated hash `iterations` times.
pub fn chain(input: crate::params::Hash, iterations: usize) -> (out: crate::params::Hash)
    ensures
        out@ == chain_spec(input@, iterations as nat),
        iterations == 0 ==> out@ == input@,
        iterations > 0 ==> out@ == hash_spec(chain_spec(input@, (iterations - 1) as nat)),
{
    let mut cur = input;
    for k in 0..iterations
        invariant
            cur@ == chain_spec(input@, k as nat),
    {
        cur = keccak(&cur);
    }
    cur
}

/// A chain walk of no steps stays put; one more step hashes the previous
/// value once, which is the same as walking from the hash of the start.
pub proof fn lemma_chain_steps(x: Seq<u8>, n: nat)
    ensures
        chain_spec(x, 0) == x,
        chain_spec(x, n + 1) == hash_spec(chain_spec(x, n)),
        chain_spec(x, n + 1) == chain_spec(hash_spec(x), n),
    decreases n,
{
    if n > 0 {
        lemma_chain_steps(x, (n - 1) as nat);
    }
}

/// Walking `a` steps and then `b` more is walking `a + b` steps.
pub proof fn lemma_chain_compose(x: Seq<u8>, a: nat, b: nat)
    ensures
        chain_spec(chain_spec(x, a), b) == chain_spec(x, a + b),
    decreases b,
{
    if b > 0 {
        lemma_chain_compose(x, a, (b - 1) as nat);
    }
}

/// Every value on a chain after at least one step is a hash, so it has `HASH_LEN` bytes.
pub proof fn lemma_chain_len(x: Seq<u8>, n: nat)
    requires
        x.len() == HASH_LEN,
    ensures
        chain_spec(x, n).len() == HASH_LEN,
    decreases n,
{
    if n > 0 {
        lemma_chain_len(x, (n - 1) as nat);
    }
}

} // verus!
