//! The Bitcoin data that the peg reads, as plain values.
use vstd::prelude::*;

verus! {

/// A Bitcoin block header.
#[derive(Clone, Copy, Debug, PartialEq, Eq)]
pub struct BlockHeader {
    pub version: i32,
    /// The hash of the block before this one.
    pub prev_blockhash: [u8; 32],
    /// The root of the merkle tree of the block's transactions.
    pub merkle_root: [u8; 32],
    pub time: u32,
    pub bits: u32,
    pub nonce: u32,
}

/// A block header together with the height of its block.
#[derive(Clone, Copy, Debug, PartialEq, Eq)]
pub struct EnrichedHeader {
    pub header: BlockHeader,
    pub height: u32,
}

/// The output of an earlier transaction that an input spends.
#[derive(Clone, Copy, Debug, PartialEq, Eq)]
pub struct OutPoint {
    pub txid: [u8; 32],
    pub vout: u32,
}

/// A transaction input. Witness data is left out: a transaction's id does not
/// cover it, and the peg reads nothing else of an input.
#[derive(Debug, PartialEq, Eq)]
pub struct TxIn {
    pub previous_output: OutPoint,
    pub script_sig: Vec<u8>,
    pub sequence: u32,
}

/// A transaction output.
#[derive(Debug, PartialEq, Eq)]
pub struct TxOut {
    /// The amount, in satoshis.
    pub value: u64,
    pub script_pubkey: Vec<u8>,
}

/// A Bitcoin transaction.
#[derive(Debug, PartialEq, Eq)]
pub struct BitcoinTransaction {
    pub version: i32,
    pub lock_time: u32,
    pub input: Vec<TxIn>,
    pub output: Vec<TxOut>,
}

pub ghost struct TxInView {
    pub previous_output: OutPoint,
    pub script_sig: Seq<u8>,
    pub sequence: u32,
}

pub ghost struct TxOutView {
    pub value: u64,
    pub script_pubkey: Seq<u8>,
}

pub ghost struct BitcoinTransactionView {
    pub version: i32,
    pub lock_time: u32,
    pub input: Seq<TxInView>,
    pub output: Seq<TxOutView>,
}

impl View for TxIn {
    type V = TxInView;

    open spec fn view(&self) -> TxInView {
        TxInView {
            previous_output: self.previous_output,
            script_sig: self.script_sig@,
            sequence: self.sequence,
        }
    }
}

impl View for TxOut {
    type V = TxOutView;

    open spec fn view(&self) -> TxOutView {
        TxOutView { value: self.value, script_pubkey: self.script_pubkey@ }
    }
}

impl View for BitcoinTransaction {
    type V = BitcoinTransactionView;

    open spec fn view(&self) -> BitcoinTransactionView {
        BitcoinTransactionView {
            version: self.version,
            lock_time: self.lock_time,
            input: Seq::new(self.input@.len(), |i: int| self.input@[i]@),
            output: Seq::new(self.output@.len(), |i: int| self.output@[i]@),
        }
    }
}

} // verus!
