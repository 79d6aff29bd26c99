# quantum_vault

Winternitz one-time signatures (WOTS, `W = 16`) over Keccak-256 truncated to
224 bits, and the logic of a Solana vault whose withdrawals they authorise,
verified with Verus.

- `src/params.rs`, `src/hash.rs`, `src/digits.rs`, `src/encoding.rs`,
  `src/keys.rs`: the signature scheme (hash chains, base-16 digits with
  checksum, key derivation, signing, verification, wire format) and its laws
  (an honest signature verifies; the checksum forces some digit down for any
  other digest; the wire format round-trips).
- `src/vault/`: the vault program's instruction set, errors, account layouts,
  signed spend messages, the checks and state changes of each instruction
  over a model of the instruction's accounts, and its laws (lamports are
  conserved, the vault rotates to the next key, the buffer is closed, only a
  valid signature moves funds; `lifecycle.rs`: every vault keeps its address,
  layout and bump, and its key changes only through a verified spend).
- `app/`: the on-chain glue (entrypoint, Borsh decoding, reading and writing
  the runtime's accounts, cross-program invocations) and the demo.
- `tests/`: tests of the library.
