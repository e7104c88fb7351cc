//! What the peg has from `sha2` and `bitcoin`.
use crate::blockdata::{BitcoinTransaction, BitcoinTransactionView};
use bitcoin::util::merkleblock::PartialMerkleTree;
use sha2::{Digest, Sha256};
use vstd::prelude::*;

verus! {

/// The SHA-256 digest of `data`.
pub uninterp spec fn sha256_digest(data: Seq<u8>) -> Seq<u8>;

/// `sha2::Sha256`: the digest of `data`, which is 32 bytes long.
#[verifier::external_body]
pub(crate) fn sha256(data: &Vec<u8>) -> (r: Vec<u8>)
    ensures
        r@ == sha256_digest(data@),
        r@.len() == 32,
{
    let mut hasher = Sha256::new();
    hasher.input(data);
    hasher.result().to_vec()
}

/// The id of `tx`, in the byte order in which it is hashed.
pub uninterp spec fn transaction_id(tx: BitcoinTransactionView) -> Seq<u8>;

/// `bitcoin::Transaction::txid`: the id of `tx`, a function of its version,
/// inputs without witnesses, outputs and lock time.
#[verifier::external_body]
pub(crate) fn txid(tx: &BitcoinTransaction) -> (r: [u8; 32])
    ensures
        r@ == transaction_id(tx@),
{
    let input = tx.input.iter().map(|i| bitcoin::TxIn {
        previous_output: bitcoin::OutPoint {
            txid: bitcoin::hashes::Hash::from_inner(i.previous_output.txid),
            vout: i.previous_output.vout,
        },
        script_sig: i.script_sig.clone().into(),
        sequence: i.sequence,
        witness: Default::default(),
    }).collect();
    let output = tx.output.iter().map(|o| bitcoin::TxOut {
        value: o.value, script_pubkey: o.script_pubkey.clone().into(),
    }).collect();
    let tx = bitcoin::Transaction { version: tx.version, lock_time: tx.lock_time, input, output };
    bitcoin::hashes::Hash::into_inner(tx.txid())
}

/// The merkle root that a consensus encoded partial merkle tree leads to, or
/// what is wrong with the tree.
pub uninterp spec fn extracted_root(proof: Seq<u8>) -> Result<Seq<u8>, Seq<char>>;

/// `bitcoin`'s `PartialMerkleTree::extract_matches` on a consensus encoded
/// tree: the tree's merkle root, or the text of the error. An encoding that
/// `bitcoin::consensus::deserialize` refuses gives that error's text. The
/// transactions that the tree matches are not handed out.
#[verifier::external_body]
pub(crate) fn extract_root(proof: &Vec<u8>) -> (r: Result<[u8; 32], String>)
    ensures
        match r {
            Ok(root) => extracted_root(proof@) == Ok::<Seq<u8>, Seq<char>>(root@),
            Err(e) => extracted_root(proof@) == Err::<Seq<u8>, Seq<char>>(e@),
        },
{
    let tree: PartialMerkleTree = match bitcoin::consensus::deserialize(proof) {
        Ok(tree) => tree,
        Err(e) => return Err(e.to_string()),
    };
    match tree.extract_matches(&mut Vec::new(), &mut Vec::new()) {
        Ok(root) => Ok(bitcoin::hashes::Hash::into_inner(root)),
        Err(e) => Err(format!("{:?}", e)),
    }
}

/// The encoding of the public key that `data` encodes, or what is wrong with
/// `data`.
pub uninterp spec fn parsed_public_key(data: Seq<u8>) -> Result<Seq<u8>, Seq<char>>;

/// `bitcoin::PublicKey::from_slice`: the key, by its encoding, or the text of
/// the error. A key is encoded in 33 or 65 bytes, and its encoding is the
/// `data` it was read from.
#[verifier::external_body]
pub(crate) fn parse_public_key(data: &Vec<u8>) -> (r: Result<Vec<u8>, String>)
    ensures
        match r {
            Ok(key) => {
                &&& parsed_public_key(data@) == Ok::<Seq<u8>, Seq<char>>(key@)
                &&& key@ == data@
                &&& key@.len() == 33 || key@.len() == 65
            },
            Err(e) => parsed_public_key(data@) == Err::<Seq<u8>, Seq<char>>(e@),
        },
{
    match bitcoin::PublicKey::from_slice(data) {
        Ok(key) => Ok(key.to_bytes()),
        Err(e) => Err(e.to_string()),
    }
}

} // verus!
