use vstd::prelude::*;

use crate::params::{CHAIN_MAX, HASH_LEN, MSG_DIGITS, NUM_CHAINS};

verus! {

/// The `i`-th base-16 digit of a digest: byte `i / 2`, high nibble first.
pub open spec fn nibble(d: Seq<u8>, i: int) -> int {
    if i % 2 == 0 {
        d[i / 2] as int / 16
    } else {
        d[i / 2] as int % 16
    }
}

/// `sum(CHAIN_MAX - digit)` over the first `n` message digits of `d`.
pub open spec fn deficit_sum(d: Seq<u8>, n: int) -> int
    decreases n,
{
    if n <= 0 {
        0
    } else {
        deficit_sum(d, n - 1) + (CHAIN_MAX - nibble(d, n - 1))
    }
}

/// The checksum of a digest: `sum(CHAIN_MAX - digit)` over all message digits.
pub open spec fn checksum_spec(d: Seq<u8>) -> int {
    deficit_sum(d, MSG_DIGITS as int)
}

/// The `NUM_CHAINS` base-16 digits of a digest: its `MSG_DIGITS` nibbles
/// (high then low of each byte), then the checksum as three big-endian
/// base-16 digits.
pub open spec fn digits_spec(d: Seq<u8>) -> Seq<u8> {
    let c = checksum_spec(d);
    Seq::new(
        NUM_CHAINS as nat,
        |i: int|
            if i < MSG_DIGITS {
                nibble(d, i) as u8
            } else if i == MSG_DIGITS {
                (c / 256 % 16) as u8
            } else if i == MSG_DIGITS + 1 {
                (c / 16 % 16) as u8
            } else {
                (c % 16) as u8
            },
    )
}

/// Every nibble is a base-16 digit.
pub proof fn lemma_nibble_bound(d: Seq<u8>, i: int)
    requires
        0 <= i < 2 * d.len(),
    ensures
        0 <= nibble(d, i) < 16,
{
}

/// The partial checksum over `n` digits lies in `0 ..= 15 n`.
pub proof fn lemma_deficit_sum_bound(d: Seq<u8>, n: int)
    requires
        0 <= n <= 2 * d.len(),
    ensures
        0 <= deficit_sum(d, n) <= CHAIN_MAX * n,
    decreases n,
{
    if n > 0 {
        lemma_deficit_sum_bound(d, n - 1);
        lemma_nibble_bound(d, n - 1);
    }
}

/// Raising digits never raises the partial checksum, and raising one lowers it.
pub proof fn lemma_deficit_sum_monotone(d1: Seq<u8>, d2: Seq<u8>, n: int)
    requires
        0 <= n,
        forall|j: int| 0 <= j < n ==> nibble(d1, j) <= nibble(d2, j),
    ensures
        deficit_sum(d2, n) <= deficit_sum(d1, n),
        (exists|j: int| 0 <= j < n && nibble(d1, j) < nibble(d2, j)) ==> deficit_sum(d2, n)
            < deficit_sum(d1, n),
    decreases n,
{
    if n > 0 {
        lemma_deficit_sum_monotone(d1, d2, n - 1);
        if exists|j: int| 0 <= j < n && nibble(d1, j) < nibble(d2, j) {
            let j = choose|j: int| 0 <= j < n && nibble(d1, j) < nibble(d2, j);
            if j < n - 1 {
                assert(exists|k: int| 0 <= k < n - 1 && nibble(d1, k) < nibble(d2, k));
            }
        }
    }
}

/// A checksum below `16^3` is exactly the value of its three base-16 digits.
proof fn lemma_three_digits(c: int)
    requires
        0 <= c < 4096,
    ensures
        c == 256 * (c / 256 % 16) + 16 * (c / 16 % 16) + c % 16,
        0 <= c / 256 % 16 < 16,
        0 <= c / 16 % 16 < 16,
        0 <= c % 16 < 16,
{
}

/// Checksum forgery resistance: for two different digests, at least one
/// digit of the second is strictly below the corresponding digit of the
/// first. An attacker holding a signature over the first digest can only
/// walk chains forward (raise digits), so cannot produce the second.
pub proof fn lemma_some_digit_drops(d1: Seq<u8>, d2: Seq<u8>)
    requires
        d1.len() == HASH_LEN,
        d2.len() == HASH_LEN,
        d1 != d2,
    ensures
        exists|i: int| 0 <= i < NUM_CHAINS && (digits_spec(d2)[i] as int) < (digits_spec(d1)[i] as int),
{
    let s1 = digits_spec(d1);
    let s2 = digits_spec(d2);
    if forall|i: int| 0 <= i < NUM_CHAINS ==> (s1[i] as int) <= (s2[i] as int) {
        // The two digests differ in some byte, hence in some nibble.
        let k = choose|k: int| 0 <= k < HASH_LEN && d1[k] != d2[k];
        assert(exists|k: int| 0 <= k < HASH_LEN && d1[k] != d2[k]) by {
            if forall|k: int| 0 <= k < HASH_LEN ==> d1[k] == d2[k] {
                assert(d1 =~= d2);
            }
        }
        assert(d1[k] as int == 16 * (d1[k] as int / 16) + d1[k] as int % 16);
        assert(d2[k] as int == 16 * (d2[k] as int / 16) + d2[k] as int % 16);
        assert(nibble(d1, 2 * k) != nibble(d2, 2 * k) || nibble(d1, 2 * k + 1) != nibble(
            d2,
            2 * k + 1,
        ));
        assert forall|j: int| 0 <= j < MSG_DIGITS implies nibble(d1, j) <= nibble(d2, j) by {
            lemma_nibble_bound(d1, j);
            lemma_nibble_bound(d2, j);
            assert(s1[j] as int == nibble(d1, j));
            assert(s2[j] as int == nibble(d2, j));
        }
        lemma_nibble_bound(d1, 2 * k);
        lemma_nibble_bound(d2, 2 * k);
        lemma_nibble_bound(d1, 2 * k + 1);
        lemma_nibble_bound(d2, 2 * k + 1);
        if nibble(d1, 2 * k) != nibble(d2, 2 * k) {
            assert(nibble(d1, 2 * k) < nibble(d2, 2 * k));
        } else {
            assert(nibble(d1, 2 * k + 1) < nibble(d2, 2 * k + 1));
        }
        lemma_deficit_sum_monotone(d1, d2, MSG_DIGITS as int);
        let c1 = checksum_spec(d1);
        let c2 = checksum_spec(d2);
        assert(c2 < c1);
        lemma_deficit_sum_bound(d1, MSG_DIGITS as int);
        lemma_deficit_sum_bound(d2, MSG_DIGITS as int);
        lemma_three_digits(c1);
        lemma_three_digits(c2);
        assert(s1[MSG_DIGITS as int] as int == c1 / 256 % 16);
        assert(s2[MSG_DIGITS as int] as int == c2 / 256 % 16);
        assert(s1[MSG_DIGITS + 1] as int == c1 / 16 % 16);
        assert(s2[MSG_DIGITS + 1] as int == c2 / 16 % 16);
        assert(s1[MSG_DIGITS + 2] as int == c1 % 16);
        assert(s2[MSG_DIGITS + 2] as int == c2 % 16);
        assert(false);
    }
}

/// Every digit of a digest is a base-16 digit.
pub proof fn lemma_digits_bound(d: Seq<u8>)
    requires
        d.len() == HASH_LEN,
    ensures
        forall|i: int| 0 <= i < NUM_CHAINS ==> #[trigger] digits_spec(d)[i] <= CHAIN_MAX,
{
    assert forall|i: int| 0 <= i < NUM_CHAINS implies #[trigger] digits_spec(d)[i] <= CHAIN_MAX by {
        if i < MSG_DIGITS {
            lemma_nibble_bound(d, i);
        } else {
            lemma_deficit_sum_bound(d, MSG_DIGITS as int);
        }
    }
}

/// The sum of the first `n` entries of `s`.
pub open spec fn prefix_sum(s: Seq<u8>, n: int) -> int
    decreases n,
{
    if n <= 0 {
        0
    } else {
        prefix_sum(s, n - 1) + s[n - 1]
    }
}

/// The partial checksum is `CHAIN_MAX` per digit minus the sum of the digits.
proof fn lemma_deficit_is_complement(d: Seq<u8>, n: int)
    requires
        d.len() == HASH_LEN,
        0 <= n <= MSG_DIGITS,
    ensures
        deficit_sum(d, n) == CHAIN_MAX * n - prefix_sum(digits_spec(d), n),
    decreases n,
{
    if n > 0 {
        lemma_deficit_is_complement(d, n - 1);
        lemma_nibble_bound(d, n - 1);
        assert(digits_spec(d)[n - 1] as int == nibble(d, n - 1));
        assert(CHAIN_MAX == 15);
        assert(CHAIN_MAX * n == CHAIN_MAX * (n - 1) + CHAIN_MAX) by (nonlinear_arith)
            requires
                CHAIN_MAX == 15,
        ;
    }
}

/// What the digits of a digest are, independently of how they are computed:
/// all are base-16 digits; each digest byte is its two message digits, high
/// nibble first; and the last three digits, read as a big-endian base-16
/// number, are `CHAIN_MAX` per message digit minus the sum of the message
/// digits.
pub proof fn lemma_digits_decode(d: Seq<u8>)
    requires
        d.len() == HASH_LEN,
    ensures
        digits_spec(d).len() == NUM_CHAINS,
        forall|i: int| 0 <= i < NUM_CHAINS ==> #[trigger] digits_spec(d)[i] < 16,
        forall|k: int|
            0 <= k < HASH_LEN ==> 16 * digits_spec(d)[2 * k] + digits_spec(d)[2 * k + 1]
                == #[trigger] d[k],
        256 * digits_spec(d)[MSG_DIGITS as int] + 16 * digits_spec(d)[MSG_DIGITS + 1]
            + digits_spec(d)[MSG_DIGITS + 2] == CHAIN_MAX * MSG_DIGITS - prefix_sum(
            digits_spec(d),
            MSG_DIGITS as int,
        ),
{
    let ds = digits_spec(d);
    lemma_digits_bound(d);
    assert forall|k: int| 0 <= k < HASH_LEN implies 16 * ds[2 * k] + ds[2 * k + 1]
        == #[trigger] d[k] by {
        lemma_nibble_bound(d, 2 * k);
        lemma_nibble_bound(d, 2 * k + 1);
        assert((2 * k) / 2 == k && (2 * k) % 2 == 0);
        assert((2 * k + 1) / 2 == k && (2 * k + 1) % 2 == 1);
    }
    lemma_deficit_is_complement(d, MSG_DIGITS as int);
    lemma_deficit_sum_bound(d, MSG_DIGITS as int);
    lemma_three_digits(checksum_spec(d));
}

/// Expand a digest into `NUM_CHAINS` base-16 digits: each byte becomes two
/// nibbles (high then low), followed by a three-digit big-endian checksum
/// `sum(CHAIN_MAX - digit)` over the message digits.
pub fn digits(message_digest: &crate::params::Hash) -> (out: [u8; NUM_CHAINS])
    ensures
        out@ == digits_spec(message_digest@),
        forall|i: int| 0 <= i < NUM_CHAINS ==> out@[i] <= CHAIN_MAX,
        forall|k: int|
            0 <= k < HASH_LEN ==> 16 * out@[2 * k] + out@[2 * k + 1] == #[trigger] message_digest@[k],
        256 * out@[MSG_DIGITS as int] + 16 * out@[MSG_DIGITS + 1] + out@[MSG_DIGITS + 2]
            == CHAIN_MAX * MSG_DIGITS - prefix_sum(out@, MSG_DIGITS as int),
{
    let ghost d = message_digest@;
    let mut out = [0u8; NUM_CHAINS];
    for i in 0..HASH_LEN
        invariant
            d == message_digest@,
            forall|j: int| 0 <= j < 2 * i ==> out@[j] as int == nibble(d, j),
    {
        let b = message_digest[i];
        assert(b >> 4 == b / 16 && b & 0x0f == b % 16) by (bit_vector);
        out[2 * i] = b >> 4;
        out[2 * i + 1] = b & 0x0f;
        assert forall|j: int| 0 <= j < 2 * i + 2 implies out@[j] as int == nibble(d, j) by {
            if j == 2 * i {
                assert(j / 2 == i && j % 2 == 0);
            } else if j == 2 * i + 1 {
                assert(j / 2 == i && j % 2 == 1);
            }
        }
    }
    let mut checksum: u32 = 0;
    for j in 0..MSG_DIGITS
        invariant
            d == message_digest@,
            d.len() == HASH_LEN,
            forall|k: int| 0 <= k < MSG_DIGITS ==> out@[k] as int == nibble(d, k),
            checksum == deficit_sum(d, j as int),
            checksum <= 15 * j,
    {
        proof {
            lemma_nibble_bound(d, j as int);
        }
        checksum += (CHAIN_MAX as u32) - (out[j] as u32);
    }
    proof {
        lemma_deficit_sum_bound(d, MSG_DIGITS as int);
    }
    assert((checksum >> 8) & 0x0f == checksum / 256 % 16) by (bit_vector);
    assert((checksum >> 4) & 0x0f == checksum / 16 % 16) by (bit_vector);
    assert(checksum & 0x0f == checksum % 16) by (bit_vector);
    out[MSG_DIGITS] = ((checksum >> 8) & 0x0f) as u8;
    out[MSG_DIGITS + 1] = ((checksum >> 4) & 0x0f) as u8;
    out[MSG_DIGITS + 2] = (checksum & 0x0f) as u8;
    assert(out@ =~= digits_spec(d)) by {
        assert forall|i: int| 0 <= i < MSG_DIGITS implies out@[i] == digits_spec(d)[i] by {
            lemma_nibble_bound(d, i);
        }
    }
    proof {
        lemma_digits_decode(d);
    }
    assert forall|i: int| 0 <= i < NUM_CHAINS implies out@[i] <= CHAIN_MAX by {
        if i < MSG_DIGITS {
            lemma_nibble_bound(d, i);
        }
    }
    out
}

} // verus!
