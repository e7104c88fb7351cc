//! The Bitcoin peg of the Nomic chain: the state machine that redeems work
//! proofs, relays headers and accepts deposits, the relayer that feeds it
//! Bitcoin headers, and the signatory that signs its checkpoints.
//!
//! What the peg, the relayer and the signatory decide stands here and is
//! verified. Reading and writing (the key/value store, the header cache, RPC,
//! the file system) is asked for through requests and answered through replies.
//! So are two computations: the work that a hash stands for, and the script that
//! pays a recipient through the signatories.
pub mod blockdata;
pub mod bytes;
pub mod chain_laws;
pub mod crypto;
pub mod keys;
pub mod primitives;
pub mod relay_laws;
pub mod relayer;
pub mod relayer_loop;
pub mod run_laws;
pub mod signer;
pub mod signer_laws;
pub mod signer_loop;
pub mod state_machine;
pub mod sync;
pub mod validators;

