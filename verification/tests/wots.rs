use quantum_vault::digits::digits;
use quantum_vault::hash::chain;
use quantum_vault::{
    keccak, PublicKey, SecretKey, Signature, CHAIN_MAX, MSG_DIGITS, NUM_CHAINS, SIGNATURE_BYTES,
};

const SEED: [u8; 32] = [7u8; 32];

#[test]
fn sign_and_verify_roundtrip() {
    let sk = SecretKey::from_seed(&SEED);
    let pk = sk.public_key();
    let msg = b"withdraw 1 SOL to alice";
    let sig = sk.sign(msg);
    assert!(pk.verify(msg, &sig), "valid signature must verify");
}

#[test]
fn wrong_message_is_rejected() {
    let sk = SecretKey::from_seed(&SEED);
    let pk = sk.public_key();
    let sig = sk.sign(b"withdraw 1 SOL to alice");
    assert!(
        !pk.verify(b"withdraw 1 SOL to mallory", &sig),
        "signature must not verify against a different message"
    );
}

#[test]
fn tampered_signature_is_rejected() {
    let sk = SecretKey::from_seed(&SEED);
    let pk = sk.public_key();
    let msg = b"withdraw 1 SOL to alice";
    let mut sig = sk.sign(msg);
    sig.0[0][0] ^= 0xff; // flip a byte
    assert!(!pk.verify(msg, &sig), "tampered signature must be rejected");
}

#[test]
fn wrong_key_is_rejected() {
    let sk = SecretKey::from_seed(&SEED);
    let other_pk = SecretKey::from_seed(&[9u8; 32]).public_key();
    let msg = b"hello";
    let sig = sk.sign(msg);
    assert!(!other_pk.verify(msg, &sig), "must not verify under a foreign key");
}

#[test]
fn verify_slice_matches_verify() {
    let sk = SecretKey::from_seed(&SEED);
    let pk = sk.public_key();
    let msg = b"slice verify";
    let sig = sk.sign(msg);
    let bytes = sig.to_bytes();
    assert!(pk.verify_slice(msg, &bytes), "slice verify must accept a valid sig");
    assert!(!pk.verify_slice(b"other", &bytes), "slice verify must reject wrong msg");
    assert!(!pk.verify_slice(msg, &bytes[..bytes.len() - 1]), "wrong length must be rejected");
}

#[test]
fn signature_wire_roundtrip() {
    let sk = SecretKey::from_seed(&SEED);
    let pk = sk.public_key();
    let msg = b"roundtrip";
    let sig = sk.sign(msg);
    let parsed = Signature::from_bytes(&sig.to_bytes());
    assert!(pk.verify(msg, &parsed), "wire roundtrip must preserve validity");
}

/// The checksum must stop the classic WOTS forgery: an attacker who only
/// raises message digits (hashing forward) cannot also lower the checksum
/// digits without inverting the hash.
#[test]
fn checksum_blocks_digit_raising_forgery() {
    let sk = SecretKey::from_seed(&SEED);
    let pk = sk.public_key();
    let msg = b"pay 1";
    let sig = sk.sign(msg);

    // Forge by advancing every message chain one extra step (raising digits).
    let mut forged = sig.clone();
    for element in forged.0.iter_mut().take(MSG_DIGITS) {
        *element = keccak(element);
    }
    assert!(
        !pk.verify(msg, &forged),
        "raising message digits without fixing checksum must fail"
    );
}

#[test]
fn signature_size_requires_buffer() {
    assert_eq!(SIGNATURE_BYTES, 1652);
    assert!(SIGNATURE_BYTES > 1232);
}

#[test]
fn digit_bounds_hold() {
    let sk = SecretKey::from_seed(&SEED);
    let sig = sk.sign(b"bounds check");
    let _ = sig;
    assert_eq!(NUM_CHAINS, 59);
    assert_eq!(CHAIN_MAX, 15);
}

// ---------------------------------------------------------------------------

#[test]
fn keccak_matches_known_vectors() {
    // Keccak-256("") = c5d24601 86f7233c ..., truncated to 28 bytes.
    let empty = keccak(b"");
    assert_eq!(
        empty.to_vec(),
        vec![
            0xc5, 0xd2, 0x46, 0x01, 0x86, 0xf7, 0x23, 0x3c, 0x92, 0x7e, 0x7d, 0xb2, 0xdc, 0xc7,
            0x03, 0xc0, 0xe5, 0x00, 0xb6, 0x53, 0xca, 0x82, 0x27, 0x3b, 0x7b, 0xfa, 0xd8, 0x04
        ]
    );
    let abc = keccak(b"abc");
    assert_eq!(
        abc.to_vec(),
        vec![
            78, 3, 101, 122, 234, 69, 169, 79, 199, 212, 123, 168, 38, 200, 214, 103, 192, 209,
            230, 227, 58, 100, 160, 54, 236, 68, 245, 143
        ]
    );
}

#[test]
fn chain_walks_compose() {
    let x = keccak(b"start");
    assert_eq!(chain(x, 0), x);
    assert_eq!(chain(x, 1), keccak(&x));
    assert_eq!(chain(chain(x, 3), 4), chain(x, 7));
}

#[test]
fn digits_split_nibbles_and_checksum() {
    let mut d = [0u8; 28];
    d[0] = 0x12;
    d[1] = 0xab;
    let out = digits(&d);
    assert_eq!(&out[..4], &[1, 2, 10, 11]);
    assert!(out[4..MSG_DIGITS].iter().all(|&x| x == 0));
    // checksum = 56 * 15 - (1 + 2 + 10 + 11) = 816 = 0x330
    assert_eq!(&out[MSG_DIGITS..], &[3, 3, 0]);

    let all_ff = digits(&[0xffu8; 28]);
    assert!(all_ff[..MSG_DIGITS].iter().all(|&x| x == 15));
    assert_eq!(&all_ff[MSG_DIGITS..], &[0, 0, 0]);

    let zeros = digits(&[0u8; 28]);
    // checksum = 840 = 0x348
    assert_eq!(&zeros[MSG_DIGITS..], &[3, 4, 8]);
}

#[test]
fn digits_of_abc_digest() {
    let out = digits(&keccak(b"abc"));
    let expected: [u8; 59] = [
        4, 14, 0, 3, 6, 5, 7, 10, 14, 10, 4, 5, 10, 9, 4, 15, 12, 7, 13, 4, 7, 11, 10, 8, 2, 6, 12,
        8, 13, 6, 6, 7, 12, 0, 13, 1, 14, 6, 14, 3, 3, 10, 6, 4, 10, 0, 3, 6, 14, 12, 4, 4, 15, 5,
        8, 15, 1, 9, 6,
    ];
    assert_eq!(out, expected);
}

#[test]
fn some_digit_drops_between_digests() {
    // Different digests: some digit of the second is below the first's.
    let a = digits(&keccak(b"pay 1"));
    let b = digits(&keccak(b"pay 2"));
    assert!((0..NUM_CHAINS).any(|i| b[i] < a[i]));
    assert!((0..NUM_CHAINS).any(|i| a[i] < b[i]));
}

#[test]
fn keys_match_known_values() {
    let sk = SecretKey::from_seed(&SEED);
    let pk = sk.public_key();
    assert_eq!(
        pk,
        PublicKey([
            194, 28, 150, 255, 227, 241, 201, 129, 138, 252, 111, 69, 240, 5, 133, 245, 86, 107,
            163, 170, 39, 44, 128, 250, 158, 180, 246, 235
        ])
    );
    let sig = sk.sign(b"withdraw 1 SOL to alice");
    assert_eq!(
        sig.0[0].to_vec(),
        vec![
            220, 40, 251, 218, 203, 3, 0, 222, 33, 231, 151, 236, 198, 87, 222, 147, 127, 226,
            114, 191, 147, 114, 229, 71, 91, 183, 172, 162
        ]
    );
}

#[test]
fn from_seed_derives_keccak_of_seed_and_index() {
    // Chain 0 of the seed-7 key signs digit-0 elements as the raw secret;
    // its public key commits to keccak(seed || 0) walked 15 steps.
    let mut buf = [7u8; 33];
    buf[32] = 0;
    let secret0 = keccak(&buf);
    assert_eq!(
        secret0.to_vec(),
        vec![
            169, 214, 227, 219, 168, 82, 168, 243, 3, 148, 122, 200, 106, 135, 62, 25, 172, 166, 0,
            60, 154, 121, 58, 208, 125, 110, 245, 37
        ]
    );
}

#[test]
fn wire_format_layout_and_roundtrip() {
    let mut raw = [0u8; SIGNATURE_BYTES];
    for (i, b) in raw.iter_mut().enumerate() {
        *b = (i % 251) as u8;
    }
    let sig = Signature::from_bytes(&raw);
    assert_eq!(sig.0[0][0], 0);
    assert_eq!(sig.0[1][0], 28);
    assert_eq!(sig.0[58][27], ((58 * 28 + 27) % 251) as u8);
    assert_eq!(sig.to_bytes().to_vec(), raw.to_vec());
}

#[test]
fn verify_slice_rejects_every_wrong_length() {
    let sk = SecretKey::from_seed(&SEED);
    let pk = sk.public_key();
    let sig = sk.sign(b"m");
    let mut longer = sig.to_bytes().to_vec();
    longer.push(0);
    assert!(!pk.verify_slice(b"m", &longer));
    assert!(!pk.verify_slice(b"m", &[]));
    assert!(pk.verify_slice(b"m", &longer[..SIGNATURE_BYTES]));
}
