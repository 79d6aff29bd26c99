use vstd::prelude::*;

use crate::digits::{digits, digits_spec, lemma_digits_bound};
use crate::encoding::{
    all_hash_sized, bytes_equal, copy_hash_into, hash_at, join_hashes, lemma_fill_step, lemma_join_split,
    lemma_split_join, split_hashes,
};
use crate::hash::{chain, chain_spec, hash_spec, keccak, lemma_chain_compose};
use crate::params::{CHAIN_MAX, HASH_LEN, NUM_CHAINS, SIGNATURE_BYTES};

verus! {

/// The compressed public key of a secret key whose chain seeds are `chains`:
/// the hash of all chain tops (each seed walked `CHAIN_MAX` steps), concatenated.
pub open spec fn public_key_spec(chains: Seq<Seq<u8>>) -> Seq<u8> {
    hash_spec(join_hashes(Seq::new(NUM_CHAINS as nat, |i: int| chain_spec(chains[i], CHAIN_MAX as nat))))
}

/// The digits that a signature over `message` encodes.
pub open spec fn message_digits(message: Seq<u8>) -> Seq<u8> {
    digits_spec(hash_spec(message))
}

/// The signature over `message`: chain `i` walked as many steps as digit `i`.
pub open spec fn signature_spec(chains: Seq<Seq<u8>>, message: Seq<u8>) -> Seq<Seq<u8>> {
    Seq::new(
        NUM_CHAINS as nat,
        |i: int| chain_spec(chains[i], message_digits(message)[i] as nat),
    )
}

/// The public key that `elements` over `message` imply: each element walked
/// the remaining `CHAIN_MAX - digit` steps to its chain top, and the tops hashed.
pub open spec fn recovered_key_spec(elements: Seq<Seq<u8>>, message: Seq<u8>) -> Seq<u8> {
    hash_spec(
        join_hashes(
            Seq::new(
                NUM_CHAINS as nat,
                |i: int| chain_spec(elements[i], (CHAIN_MAX - message_digits(message)[i]) as nat),
            ),
        ),
    )
}

/// A signature made with a secret key verifies under that key's public key:
/// for every message, walking each signed element the remaining
/// `CHAIN_MAX - digit` steps recovers exactly the chain tops that the public
/// key commits to.
pub proof fn lemma_signature_verifies(chains: Seq<Seq<u8>>, message: Seq<u8>)
    requires
        chains.len() == NUM_CHAINS,
    ensures
        recovered_key_spec(signature_spec(chains, message), message) == public_key_spec(chains),
{
    let digits = message_digits(message);
    lemma_digits_bound(hash_spec(message));
    let sig = signature_spec(chains, message);
    let recovered = Seq::new(
        NUM_CHAINS as nat,
        |i: int| chain_spec(sig[i], (CHAIN_MAX - digits[i]) as nat),
    );
    let tops = Seq::new(NUM_CHAINS as nat, |i: int| chain_spec(chains[i], CHAIN_MAX as nat));
    assert forall|i: int| 0 <= i < NUM_CHAINS implies recovered[i] == tops[i] by {
        lemma_chain_compose(chains[i], digits[i] as nat, (CHAIN_MAX - digits[i]) as nat);
    }
    assert(recovered =~= tops);
}

/// A signature over one message never yields a signature over a message with
/// a different digest by walking chains forward: some chain would have to be
/// walked backwards, i.e. the hash inverted, because the second message needs
/// a strictly smaller digit on it.
pub proof fn lemma_forgery_needs_inversion(m1: Seq<u8>, m2: Seq<u8>)
    requires
        hash_spec(m1) != hash_spec(m2),
    ensures
        exists|i: int|
            0 <= i < NUM_CHAINS && (message_digits(m2)[i] as int) < (message_digits(m1)[i] as int),
{
    let d1 = hash_spec(m1);
    let d2 = hash_spec(m2);
    crate::digits::lemma_some_digit_drops(d1, d2);
    let i = choose|i: int|
        0 <= i < NUM_CHAINS && (digits_spec(d2)[i] as int) < (digits_spec(d1)[i] as int);
    assert(0 <= i < NUM_CHAINS && (message_digits(m2)[i] as int) < (message_digits(m1)[i] as int));
}

/// The wire format loses nothing: parsing a serialized signature gives the
/// same elements back.
pub proof fn lemma_signature_bytes_roundtrip(sig: Signature)
    ensures
        split_hashes(join_hashes(sig@)) == sig@,
{
    lemma_split_join(sig@);
}

/// The wire format is exact: serializing a parsed buffer gives the same bytes back.
pub proof fn lemma_bytes_signature_roundtrip(bytes: [u8; SIGNATURE_BYTES])
    ensures
        join_hashes(split_hashes(bytes@)) == bytes@,
{
    lemma_join_split(bytes@);
}

/// Verifying a signature and verifying its wire bytes agree: for every key and
/// message, `verify_slice(message, &sig.to_bytes())` accepts exactly when
/// `verify(message, &sig)` does.
pub proof fn lemma_verify_slice_matches_verify(pk: PublicKey, message: Seq<u8>, sig: Signature)
    ensures
        (join_hashes(sig@).len() == SIGNATURE_BYTES && recovered_key_spec(
            split_hashes(join_hashes(sig@)),
            message,
        ) == pk@) == (recovered_key_spec(sig@, message) == pk@),
{
    lemma_split_join(sig@);
}

/// The chain seed that `from_seed` derives for chain `i`: `Keccak(seed || i)`.
pub open spec fn chain_seed_spec(seed: Seq<u8>, i: int) -> Seq<u8> {
    hash_spec(seed.push(i as u8))
}

/// The secret of chain `i` is the truncated Keccak of the seed bytes, in
/// their given order, followed by the single byte `i`.
pub proof fn lemma_chain_seed_is_seed_then_index(seed: Seq<u8>, i: int)
    ensures
        chain_seed_spec(seed, i) == hash_spec(seed + seq![i as u8]),
{
    assert(seed.push(i as u8) =~= seed + seq![i as u8]);
}

/// A WOTS secret key: one secret value per hash chain.
pub struct SecretKey {
    chains: [[u8; HASH_LEN]; NUM_CHAINS],
}

impl View for SecretKey {
    type V = Seq<Seq<u8>>;

    closed spec fn view(&self) -> Seq<Seq<u8>> {
        Seq::new(NUM_CHAINS as nat, |i: int| self.chains@[i]@)
    }
}

/// The compressed public key (the vault commitment).
#[derive(Clone, Copy, PartialEq, Eq, Debug)]
pub struct PublicKey(pub [u8; HASH_LEN]);

impl View for PublicKey {
    type V = Seq<u8>;

    open spec fn view(&self) -> Seq<u8> {
        self.0@
    }
}

/// A WOTS signature: one value per chain.
#[derive(Clone)]
pub struct Signature(pub [[u8; HASH_LEN]; NUM_CHAINS]);

impl View for Signature {
    type V = Seq<Seq<u8>>;

    open spec fn view(&self) -> Seq<Seq<u8>> {
        Seq::new(NUM_CHAINS as nat, |i: int| self.0@[i]@)
    }
}

impl SecretKey {
    /// The secret key has one `HASH_LEN`-byte value per chain.
    pub proof fn lemma_shape(&self)
        ensures
            self@.len() == NUM_CHAINS,
            all_hash_sized(self@),
    {
    }

    /// Deterministically derive a secret key from a 32-byte master seed:
    /// chain `i`'s secret is `Keccak(seed || i)`.
    pub fn from_seed(seed: &[u8; 32]) -> (sk: Self)
        ensures
            sk@ == Seq::new(NUM_CHAINS as nat, |i: int| chain_seed_spec(seed@, i)),
            sk@.len() == NUM_CHAINS,
            forall|i: int|
                0 <= i < NUM_CHAINS ==> #[trigger] sk@[i] == hash_spec(seed@ + seq![i as u8]),
    {
        let mut chains = [[0u8; HASH_LEN]; NUM_CHAINS];
        for i in 0..NUM_CHAINS
            invariant
                forall|j: int| 0 <= j < i ==> chains@[j]@ == chain_seed_spec(seed@, j),
        {
            let mut buf = [0u8; 33];
            for k in 0..32
                invariant
                    forall|j: int| 0 <= j < k ==> buf@[j] == seed@[j],
            {
                buf[k] = seed[k];
            }
            buf[32] = i as u8;
            assert(buf@ =~= seed@.push(i as u8));
            chains[i] = keccak(&buf);
        }
        let sk = SecretKey { chains };
        assert(sk@ =~= Seq::new(NUM_CHAINS as nat, |i: int| chain_seed_spec(seed@, i)));
        assert forall|i: int| 0 <= i < NUM_CHAINS implies #[trigger] sk@[i] == hash_spec(
            seed@ + seq![i as u8],
        ) by {
            lemma_chain_seed_is_seed_then_index(seed@, i);
        }
        sk
    }

    /// Compute the compressed public key: the hash of all chain tops.
    pub fn public_key(&self) -> (pk: PublicKey)
        ensures
            pk@ == public_key_spec(self@),
    {
        let ghost parts = Seq::new(
            NUM_CHAINS as nat,
            |i: int| chain_spec(self@[i], CHAIN_MAX as nat),
        );
        let mut tops = [0u8; SIGNATURE_BYTES];
        for i in 0..NUM_CHAINS
            invariant
                parts == Seq::new(NUM_CHAINS as nat, |i: int| chain_spec(self@[i], CHAIN_MAX as nat)),
                forall|j: int| 0 <= j < i * HASH_LEN ==> tops@[j] == join_hashes(parts)[j],
        {
            let top = chain(self.chains[i], CHAIN_MAX);
            let ghost old_tops = tops@;
            copy_hash_into(&mut tops, i, &top);
            proof {
                lemma_fill_step(tops@, old_tops, parts, i as int);
            }
        }
        assert(tops@ =~= join_hashes(parts));
        PublicKey(keccak(&tops))
    }

    /// Sign `message`. One-time use only: never sign twice with one key.
    pub fn sign(&self, message: &[u8]) -> (sig: Signature)
        ensures
            sig@ == signature_spec(self@, message@),
    {
        let d = digits(&keccak(message));
        let mut sig = [[0u8; HASH_LEN]; NUM_CHAINS];
        for i in 0..NUM_CHAINS
            invariant
                d@ == message_digits(message@),
                forall|j: int|
                    0 <= j < i ==> sig@[j]@ == chain_spec(self@[j], message_digits(message@)[j] as nat),
        {
            sig[i] = chain(self.chains[i], d[i] as usize);
        }
        let sig = Signature(sig);
        assert(sig@ =~= signature_spec(self@, message@));
        sig
    }
}

impl PublicKey {
    /// Recover the public key implied by `sig` over `message` and check that it
    /// matches this one.
    pub fn verify(&self, message: &[u8], sig: &Signature) -> (ok: bool)
        ensures
            ok == (recovered_key_spec(sig@, message@) == self@),
    {
        let d = digits(&keccak(message));
        let ghost parts = Seq::new(
            NUM_CHAINS as nat,
            |i: int| chain_spec(sig@[i], (CHAIN_MAX - message_digits(message@)[i]) as nat),
        );
        let mut tops = [0u8; SIGNATURE_BYTES];
        for i in 0..NUM_CHAINS
            invariant
                d@ == message_digits(message@),
                forall|j: int| 0 <= j < NUM_CHAINS ==> d@[j] <= CHAIN_MAX,
                parts == Seq::new(
                    NUM_CHAINS as nat,
                    |i: int| chain_spec(sig@[i], (CHAIN_MAX - message_digits(message@)[i]) as nat),
                ),
                forall|j: int| 0 <= j < i * HASH_LEN ==> tops@[j] == join_hashes(parts)[j],
        {
            let top = chain(sig.0[i], CHAIN_MAX - d[i] as usize);
            let ghost old_tops = tops@;
            copy_hash_into(&mut tops, i, &top);
            proof {
                lemma_fill_step(tops@, old_tops, parts, i as int);
            }
        }
        assert(tops@ =~= join_hashes(parts));
        let recovered = keccak(&tops);
        bytes_equal(&recovered, &self.0)
    }

    /// Verify a signature given as raw bytes in the wire format. A buffer of the
    /// wrong length is rejected.
    pub fn verify_slice(&self, message: &[u8], sig: &[u8]) -> (ok: bool)
        ensures
            ok == (sig@.len() == SIGNATURE_BYTES && recovered_key_spec(split_hashes(sig@), message@)
                == self@),
    {
        if sig.len() != SIGNATURE_BYTES {
            return false;
        }
        let d = digits(&keccak(message));
        let ghost elements = split_hashes(sig@);
        let ghost parts = Seq::new(
            NUM_CHAINS as nat,
            |i: int| chain_spec(elements[i], (CHAIN_MAX - message_digits(message@)[i]) as nat),
        );
        proof {
            lemma_join_split(sig@);
        }
        let mut tops = [0u8; SIGNATURE_BYTES];
        for i in 0..NUM_CHAINS
            invariant
                sig@.len() == SIGNATURE_BYTES,
                elements == split_hashes(sig@),
                d@ == message_digits(message@),
                forall|j: int| 0 <= j < NUM_CHAINS ==> d@[j] <= CHAIN_MAX,
                parts == Seq::new(
                    NUM_CHAINS as nat,
                    |i: int| chain_spec(elements[i], (CHAIN_MAX - message_digits(message@)[i]) as nat),
                ),
                forall|j: int| 0 <= j < i * HASH_LEN ==> tops@[j] == join_hashes(parts)[j],
        {
            let element = hash_at(sig, i);
            let top = chain(element, CHAIN_MAX - d[i] as usize);
            let ghost old_tops = tops@;
            copy_hash_into(&mut tops, i, &top);
            proof {
                lemma_fill_step(tops@, old_tops, parts, i as int);
            }
        }
        assert(tops@ =~= join_hashes(parts));
        let recovered = keccak(&tops);
        bytes_equal(&recovered, &self.0)
    }
}

impl Signature {
    /// Serialize to the wire format: the elements concatenated.
    pub fn to_bytes(&self) -> (out: [u8; SIGNATURE_BYTES])
        ensures
            out@ == join_hashes(self@),
            forall|i: int, k: int|
                0 <= i < NUM_CHAINS && 0 <= k < HASH_LEN ==> out@[i * HASH_LEN + k]
                    == #[trigger] self.0@[i]@[k],
    {
        let ghost parts = self@;
        let mut out = [0u8; SIGNATURE_BYTES];
        for i in 0..NUM_CHAINS
            invariant
                parts == self@,
                forall|j: int| 0 <= j < i * HASH_LEN ==> out@[j] == join_hashes(parts)[j],
        {
            let ghost old_out = out@;
            copy_hash_into(&mut out, i, &self.0[i]);
            proof {
                lemma_fill_step(out@, old_out, parts, i as int);
            }
        }
        assert(out@ =~= join_hashes(parts));
        assert forall|i: int, k: int| 0 <= i < NUM_CHAINS && 0 <= k < HASH_LEN implies out@[i
            * HASH_LEN + k] == #[trigger] self.0@[i]@[k] by {
            crate::encoding::lemma_slot_in_signature(i, k);
        }
        out
    }

    /// Parse from the wire format: consecutive `HASH_LEN`-byte elements.
    pub fn from_bytes(bytes: &[u8; SIGNATURE_BYTES]) -> (sig: Self)
        ensures
            sig@ == split_hashes(bytes@),
            forall|i: int, k: int|
                0 <= i < NUM_CHAINS && 0 <= k < HASH_LEN ==> #[trigger] sig.0@[i]@[k]
                    == bytes@[i * HASH_LEN + k],
    {
        let mut elements = [[0u8; HASH_LEN]; NUM_CHAINS];
        for i in 0..NUM_CHAINS
            invariant
                forall|j: int|
                    0 <= j < i ==> elements@[j]@ == bytes@.subrange(j * HASH_LEN, j * HASH_LEN + HASH_LEN),
        {
            elements[i] = hash_at(bytes, i);
        }
        let sig = Signature(elements);
        assert(sig@ =~= split_hashes(bytes@));
        sig
    }
}

} // verus!
