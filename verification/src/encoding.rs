use vstd::prelude::*;

use crate::params::{HASH_LEN, NUM_CHAINS, SIGNATURE_BYTES};

verus! {

/// Concatenation of `HASH_LEN`-byte values: byte `j` is byte `j % HASH_LEN`
/// of part `j / HASH_LEN`.
pub open spec fn join_hashes(parts: Seq<Seq<u8>>) -> Seq<u8> {
    Seq::new(
        (parts.len() * HASH_LEN) as nat,
        |j: int| parts[j / (HASH_LEN as int)][j % (HASH_LEN as int)],
    )
}

/// The consecutive `HASH_LEN`-byte pieces of `bytes`.
pub open spec fn split_hashes(bytes: Seq<u8>) -> Seq<Seq<u8>> {
    Seq::new(
        bytes.len() / (HASH_LEN as nat),
        |i: int| bytes.subrange(i * HASH_LEN, i * HASH_LEN + HASH_LEN),
    )
}

/// Every part has `HASH_LEN` bytes.
pub open spec fn all_hash_sized(parts: Seq<Seq<u8>>) -> bool {
    forall|i: int| 0 <= i < parts.len() ==> (#[trigger] parts[i]).len() == HASH_LEN
}

/// Byte `j` of a concatenation lies in part `j / HASH_LEN` at `j % HASH_LEN`.
pub proof fn lemma_hash_slot(j: int, i: int)
    requires
        i * HASH_LEN <= j < i * HASH_LEN + HASH_LEN,
    ensures
        j / (HASH_LEN as int) == i,
        j % (HASH_LEN as int) == j - i * HASH_LEN,
{
    vstd::arithmetic::div_mod::lemma_fundamental_div_mod_converse(
        j,
        HASH_LEN as int,
        i,
        j - i * HASH_LEN,
    );
}

/// Byte `k` of part `i` of a signature-sized buffer sits at `i * HASH_LEN + k`.
pub proof fn lemma_slot_in_signature(i: int, k: int)
    requires
        0 <= i < NUM_CHAINS,
        0 <= k < HASH_LEN,
    ensures
        0 <= i * HASH_LEN + k < SIGNATURE_BYTES,
        (i * HASH_LEN + k) / (HASH_LEN as int) == i,
        (i * HASH_LEN + k) % (HASH_LEN as int) == k,
{
    assert(i * HASH_LEN + k < SIGNATURE_BYTES) by (nonlinear_arith)
        requires
            0 <= i < NUM_CHAINS,
            0 <= k < HASH_LEN,
    ;
    lemma_hash_slot(i * HASH_LEN + k, i);
}

/// Splitting a concatenation of hash-sized parts gives the parts back.
pub proof fn lemma_split_join(parts: Seq<Seq<u8>>)
    requires
        all_hash_sized(parts),
    ensures
        split_hashes(join_hashes(parts)) == parts,
{
    let joined = join_hashes(parts);
    assert(joined.len() / (HASH_LEN as nat) == parts.len()) by {
        vstd::arithmetic::div_mod::lemma_fundamental_div_mod_converse(
            joined.len() as int,
            HASH_LEN as int,
            parts.len() as int,
            0,
        );
    }
    let split = split_hashes(joined);
    assert forall|i: int| 0 <= i < parts.len() implies split[i] == parts[i] by {
        assert forall|k: int| 0 <= k < HASH_LEN implies split[i][k] == parts[i][k] by {
            assert(i * HASH_LEN + k < parts.len() * HASH_LEN) by (nonlinear_arith)
                requires
                    0 <= i < parts.len(),
                    0 <= k < HASH_LEN,
            ;
            lemma_hash_slot(i * HASH_LEN + k, i);
        }
        assert(split[i] =~= parts[i]);
    }
    assert(split =~= parts);
}

/// Concatenating the pieces of a signature-sized buffer gives the buffer back.
pub proof fn lemma_join_split(bytes: Seq<u8>)
    requires
        bytes.len() == SIGNATURE_BYTES,
    ensures
        split_hashes(bytes).len() == NUM_CHAINS,
        all_hash_sized(split_hashes(bytes)),
        join_hashes(split_hashes(bytes)) == bytes,
{
    let split = split_hashes(bytes);
    assert(split.len() == NUM_CHAINS);
    assert forall|i: int| 0 <= i < split.len() implies (#[trigger] split[i]).len() == HASH_LEN by {
        assert(i * HASH_LEN + HASH_LEN <= SIGNATURE_BYTES) by (nonlinear_arith)
            requires
                0 <= i < NUM_CHAINS,
        ;
    }
    let joined = join_hashes(split);
    assert forall|j: int| 0 <= j < bytes.len() implies joined[j] == bytes[j] by {
        let i = j / (HASH_LEN as int);
        assert(0 <= i < NUM_CHAINS);
        assert(i * HASH_LEN <= j < i * HASH_LEN + HASH_LEN) by {
            vstd::arithmetic::div_mod::lemma_fundamental_div_mod(j, HASH_LEN as int);
        }
        lemma_hash_slot(j, i);
    }
    assert(joined =~= bytes);
}

/// One step of filling a buffer part by part: after writing part `i` over a
/// buffer whose first `i` parts were already right, the first `i + 1` are.
pub proof fn lemma_fill_step(new: Seq<u8>, old: Seq<u8>, parts: Seq<Seq<u8>>, i: int)
    requires
        0 <= i < NUM_CHAINS,
        parts.len() == NUM_CHAINS,
        new.len() == SIGNATURE_BYTES,
        forall|j: int| 0 <= j < i * HASH_LEN ==> old[j] == join_hashes(parts)[j],
        forall|j: int|
            0 <= j < SIGNATURE_BYTES ==> #[trigger] new[j] == if i * HASH_LEN <= j < i * HASH_LEN
                + HASH_LEN {
                parts[i][j - i * HASH_LEN]
            } else {
                old[j]
            },
    ensures
        forall|j: int| 0 <= j < (i + 1) * HASH_LEN ==> new[j] == join_hashes(parts)[j],
{
    assert forall|j: int| 0 <= j < (i + 1) * HASH_LEN implies new[j] == join_hashes(parts)[j] by {
        assert((i + 1) * HASH_LEN <= SIGNATURE_BYTES);
        if j >= i * HASH_LEN {
            lemma_hash_slot(j, i);
        }
    }
}

/// Overwrite `out[i * HASH_LEN .. (i + 1) * HASH_LEN]` with `h`.
pub fn copy_hash_into(out: &mut [u8; SIGNATURE_BYTES], i: usize, h: &crate::params::Hash)
    requires
        i < NUM_CHAINS,
    ensures
        forall|j: int|
            0 <= j < SIGNATURE_BYTES ==> #[trigger] final(out)@[j] == if i * HASH_LEN <= j < i
                * HASH_LEN + HASH_LEN {
                h@[j - i * HASH_LEN]
            } else {
                old(out)@[j]
            },
{
    let base = i * HASH_LEN;
    for k in 0..HASH_LEN
        invariant
            base == i * HASH_LEN,
            i < NUM_CHAINS,
            forall|j: int|
                0 <= j < SIGNATURE_BYTES ==> #[trigger] out@[j] == if base <= j < base + k {
                    h@[j - base]
                } else {
                    old(out)@[j]
                },
    {
        out[base + k] = h[k];
    }
}

/// Byte-wise equality of two byte strings.
pub fn bytes_equal(a: &[u8], b: &[u8]) -> (eq: bool)
    ensures
        eq == (a@ == b@),
{
    if a.len() != b.len() {
        return false;
    }
    for k in 0..a.len()
        invariant
            a@.len() == b@.len(),
            forall|j: int| 0 <= j < k ==> a@[j] == b@[j],
    {
        if a[k] != b[k] {
            return false;
        }
    }
    assert(a@ =~= b@);
    true
}

/// The `i`-th `HASH_LEN`-byte piece of a signature-sized buffer.
pub fn hash_at(bytes: &[u8], i: usize) -> (out: crate::params::Hash)
    requires
        bytes@.len() == SIGNATURE_BYTES,
        i < NUM_CHAINS,
    ensures
        out@ == bytes@.subrange(i * HASH_LEN, i * HASH_LEN + HASH_LEN),
{
    let base = i * HASH_LEN;
    let mut out = [0u8; HASH_LEN];
    for k in 0..HASH_LEN
        invariant
            base == i * HASH_LEN,
            i < NUM_CHAINS,
            bytes@.len() == SIGNATURE_BYTES,
            forall|j: int| 0 <= j < k ==> out@[j] == bytes@[base + j],
    {
        out[k] = bytes[base + k];
    }
    assert(out@ =~= bytes@.subrange(i * HASH_LEN, i * HASH_LEN + HASH_LEN));
    out
}

} // verus!
