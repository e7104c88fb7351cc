//! The transactions that the peg's state machine runs.
use crate::blockdata::{BitcoinTransaction, BitcoinTransactionView, BlockHeader};
use crate::bytes::copied;
use vstd::prelude::*;

verus! {

/// Asks for voting power in return for work on a hash of the public key.
#[derive(Debug)]
pub struct WorkProofTransaction {
    pub public_key: Vec<u8>,
    pub nonce: u64,
}

/// Relays Bitcoin block headers, lowest first.
#[derive(Debug)]
pub struct HeaderTransaction {
    pub block_headers: Vec<BlockHeader>,
}

/// Claims a Bitcoin transaction that pays to the signatories.
#[derive(Debug)]
pub struct DepositTransaction {
    /// The height of the block that holds the transaction.
    pub height: u32,
    /// The partial merkle tree of that block, consensus encoded.
    pub proof: Vec<u8>,
    pub tx: BitcoinTransaction,
    /// The position of the transaction in its block.
    pub block_index: u32,
    /// The addresses to credit.
    pub recipients: Vec<[u8; 32]>,
}

/// A transaction of the peg chain.
#[derive(Debug)]
pub enum Transaction {
    WorkProof(WorkProofTransaction),
    Header(HeaderTransaction),
    Deposit(DepositTransaction),
}

/// What the state machine can be asked to run.
#[derive(Debug)]
pub enum Action {
    Transaction(Transaction),
}

pub ghost struct DepositView {
    pub height: u32,
    pub proof: Seq<u8>,
    pub tx: BitcoinTransactionView,
    pub block_index: u32,
    pub recipients: Seq<[u8; 32]>,
}

pub ghost enum ActionView {
    WorkProof { public_key: Seq<u8>, nonce: u64 },
    Header { block_headers: Seq<BlockHeader> },
    Deposit(DepositView),
}

impl View for DepositTransaction {
    type V = DepositView;

    open spec fn view(&self) -> DepositView {
        DepositView {
            height: self.height,
            proof: self.proof@,
            tx: self.tx@,
            block_index: self.block_index,
            recipients: self.recipients@,
        }
    }
}

impl View for Action {
    type V = ActionView;

    open spec fn view(&self) -> ActionView {
        match *self {
            Action::Transaction(Transaction::WorkProof(t)) => ActionView::WorkProof {
                public_key: t.public_key@,
                nonce: t.nonce,
            },
            Action::Transaction(Transaction::Header(t)) => ActionView::Header {
                block_headers: t.block_headers@,
            },
            Action::Transaction(Transaction::Deposit(t)) => ActionView::Deposit(t@),
        }
    }
}

/// A validator's share in the custody of the deposits.
#[derive(Debug, PartialEq, Eq)]
pub struct Signatory {
    /// The encoding of the public key.
    pub key: Vec<u8>,
    pub voting_power: u32,
}

pub ghost struct SignatoryView {
    pub key: Seq<u8>,
    pub voting_power: u32,
}

impl View for Signatory {
    type V = SignatoryView;

    open spec fn view(&self) -> SignatoryView {
        SignatoryView { key: self.key@, voting_power: self.voting_power }
    }
}

impl Signatory {
    /// The signatory that stands for the validator with the public key `key`.
    /// Of the voting power the low 32 bits are kept.
    pub fn of_validator(key: Vec<u8>, power: u64) -> (r: Self)
        ensures
            r@ == (SignatoryView { key: key@, voting_power: (power % 0x1_0000_0000) as u32 }),
    {
        assert(power as u32 == power % 0x1_0000_0000) by (bit_vector);
        Signatory { key, voting_power: power as u32 }
    }
}

/// The signatories, in ascending order of their public keys.
#[derive(Debug, PartialEq, Eq)]
pub struct SignatorySet {
    pub signatories: Vec<Signatory>,
}

impl View for SignatorySet {
    type V = Seq<SignatoryView>;

    open spec fn view(&self) -> Seq<SignatoryView> {
        Seq::new(self.signatories@.len(), |i: int| self.signatories@[i]@)
    }
}

impl SignatorySet {
    /// Another set of the same signatories.
    pub fn duplicate(&self) -> (r: Self)
        ensures
            r@ == self@,
    {
        let mut signatories: Vec<Signatory> = Vec::new();
        let mut i: usize = 0;
        while i < self.signatories.len()
            invariant
                i <= self.signatories@.len(),
                signatories@.len() == i,
                forall|j: int| 0 <= j < i ==> (#[trigger] signatories@[j])@ == self.signatories@[j]@,
            decreases self.signatories@.len() - i,
        {
            let s = &self.signatories[i];
            signatories.push(
                Signatory { key: copied(s.key.as_slice()), voting_power: s.voting_power },
            );
            i += 1;
        }
        let r = SignatorySet { signatories };
        assert(r@ =~= self@);
        r
    }
}

} // verus!
