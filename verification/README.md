# share_accounting

The Stratum V2 share accounting extension: its messages and data types, the routing of
message types to sub-protocols, and the checks a miner runs on the shares, slices and
PPLNS windows that a pool reports, with their contracts proved by Verus.

- `src/` is the verified library.
  - `consts.rs`: message types and channel bits of the extension's messages.
  - `data_types/`: `Hash256`, `Slice`, `PHash` and `Share`, with their byte layouts and
    the encoding of sequences of them.
  - `messages.rs`: the extension's messages and their encoded sizes.
  - `parser.rs`: message kinds, message types, and the sub-protocol of a message type.
  - `verification.rs`: share hashes, fees and difficulty, merkle paths and trees, slice
    and window checks.
  - `sha256.rs`, `uint256.rs`: the calls into `sha2` and `primitive-types`.
- `app/` holds what stays outside the proofs: the `binary_sv2` codec copies of the
  library's data types and messages, the decoding of the extension's messages and of a
  pool's messages of every sub-protocol, their framing, and the floating-point payout
  scores.
- `tests/` exercise the library.
