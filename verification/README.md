# nomic

The Bitcoin peg of the Nomic chain, with its decisions verified by Verus.

- `src/state_machine.rs` redeems work proofs, adds Bitcoin headers and accepts
  deposits. A run asks for what only its surroundings can do with a request, and
  goes on with the reply. `src/chain_laws.rs` states what holds of whole runs.
- `src/relayer.rs`, `src/relayer_loop.rs` and `src/sync.rs` find the Bitcoin
  headers that the peg lacks and relay them, round after round.
- `src/keys.rs`, `src/signer.rs` and `src/signer_loop.rs` are the signatory: its
  key, its signatures and its rounds.
- `src/crypto.rs` and `src/keys.rs` hold what is taken from `sha2`, `bitcoin` and
  `secp256k1` without proof. `src/signer.rs` takes two string functions from the
  standard library in the same way.
- `app/` connects the library to a store, to RPC and to the file system.
