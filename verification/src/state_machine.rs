//! The core of the Bitcoin peg: redeeming work proofs, adding headers and
//! accepting deposits.
//!
//! A run is a state machine. It asks for what only the surroundings can do (a
//! read or a write of the store, the work of a hash, an operation of the header
//! cache, the script that pays a recipient) with a [`Request`], and goes on
//! with the [`Reply`].
use crate::blockdata::{BlockHeader, EnrichedHeader, TxOut, TxOutView};
use crate::bytes::{be_bytes, bytes_lt, copied, same, to_be_bytes};
use crate::crypto::{
    extract_root, extracted_root, parse_public_key, parsed_public_key, sha256, sha256_digest,
    transaction_id, txid,
};
use crate::primitives::{
    Action, ActionView, DepositTransaction, DepositView, Signatory, SignatorySet, SignatoryView,
    Transaction,
};
use crate::validators::{entries_of, ValidatorSet};
use vstd::prelude::*;

verus! {

/// The least work that a proof is redeemed for.
pub const MIN_WORK: u64 = 0x10_0000;

/// Why a run was refused. What the surroundings or an outside library report
/// is carried as text.
#[derive(Debug)]
pub enum Error {
    /// The deposit's transaction has been accepted before.
    AlreadyProcessed,
    /// No header is known at the deposit's height.
    MerkleRootNotFound,
    /// The deposit's proof leads to another merkle root than the header's.
    MerkleRootMismatch,
    /// The deposit names no recipient.
    RecipientsConsumed,
    /// No output of the deposit's transaction pays the recipient.
    NoDepositOutputs,
    /// The header cache did not add a header.
    HeaderAdd(String),
    /// The header cache failed.
    HeaderCache(String),
    /// The store failed.
    Store(String),
    /// The deposit's proof is malformed.
    Proof(String),
    /// A validator's key is not a public key.
    PublicKey(String),
}

pub ghost enum ErrorView {
    AlreadyProcessed,
    MerkleRootNotFound,
    MerkleRootMismatch,
    RecipientsConsumed,
    NoDepositOutputs,
    HeaderAdd(Seq<char>),
    HeaderCache(Seq<char>),
    Store(Seq<char>),
    Proof(Seq<char>),
    PublicKey(Seq<char>),
}

impl View for Error {
    type V = ErrorView;

    open spec fn view(&self) -> ErrorView {
        match *self {
            Error::AlreadyProcessed => ErrorView::AlreadyProcessed,
            Error::MerkleRootNotFound => ErrorView::MerkleRootNotFound,
            Error::MerkleRootMismatch => ErrorView::MerkleRootMismatch,
            Error::RecipientsConsumed => ErrorView::RecipientsConsumed,
            Error::NoDepositOutputs => ErrorView::NoDepositOutputs,
            Error::HeaderAdd(e) => ErrorView::HeaderAdd(e@),
            Error::HeaderCache(e) => ErrorView::HeaderCache(e@),
            Error::Store(e) => ErrorView::Store(e@),
            Error::Proof(e) => ErrorView::Proof(e@),
            Error::PublicKey(e) => ErrorView::PublicKey(e@),
        }
    }
}

impl ErrorView {
    /// The text of the error.
    pub open spec fn message(self) -> Seq<char> {
        match self {
            ErrorView::AlreadyProcessed => "Transaction was already processed"@,
            ErrorView::MerkleRootNotFound => "Merkle root not found for deposit transaction"@,
            ErrorView::MerkleRootMismatch => "Proof merkle root does not match chain"@,
            ErrorView::RecipientsConsumed => "Consumed all recipients"@,
            ErrorView::NoDepositOutputs => "Transaction does not contain any deposit outputs"@,
            ErrorView::HeaderAdd(e) => "header add err: "@ + e,
            ErrorView::HeaderCache(e) => e,
            ErrorView::Store(e) => e,
            ErrorView::Proof(e) => e,
            ErrorView::PublicKey(e) => e,
        }
    }
}

impl Error {
    /// The text of the error.
    pub fn message(&self) -> (r: String)
        ensures
            r@ == self@.message(),
    {
        match self {
            Error::AlreadyProcessed => "Transaction was already processed".to_owned(),
            Error::MerkleRootNotFound => {
                "Merkle root not found for deposit transaction".to_owned()
            },
            Error::MerkleRootMismatch => "Proof merkle root does not match chain".to_owned(),
            Error::RecipientsConsumed => "Consumed all recipients".to_owned(),
            Error::NoDepositOutputs => {
                "Transaction does not contain any deposit outputs".to_owned()
            },
            Error::HeaderAdd(e) => "header add err: ".to_owned().concat(e.as_str()),
            Error::HeaderCache(e) => e.clone(),
            Error::Store(e) => e.clone(),
            Error::Proof(e) => e.clone(),
            Error::PublicKey(e) => e.clone(),
        }
    }
}

/// The position of the first entry whose key is not a public key.
pub open spec fn refused_at(entries: Seq<(Seq<u8>, u64)>, i: int) -> bool {
    &&& 0 <= i < entries.len()
    &&& parsed_public_key(entries[i].0) is Err
    &&& forall|j: int| 0 <= j < i ==> parsed_public_key(#[trigger] entries[j].0) is Ok
}

/// The signatory that stands for a validator. Of the voting power the low 32
/// bits are kept.
pub open spec fn signatory_of(entry: (Seq<u8>, u64)) -> SignatoryView {
    SignatoryView {
        key: parsed_public_key(entry.0)->Ok_0,
        voting_power: (entry.1 % 0x1_0000_0000) as u32,
    }
}

/// One signatory for each validator, in ascending order of the keys, or what
/// is wrong with the first key that is not a public key.
pub open spec fn signatories_of(validators: Map<Seq<u8>, u64>) -> Result<
    Seq<SignatoryView>,
    ErrorView,
> {
    let entries = entries_of(validators);
    if forall|i: int|
        0 <= i < entries.len() ==> parsed_public_key(#[trigger] entries[i].0) is Ok {
        Ok(Seq::new(entries.len(), |i: int| signatory_of(entries[i])))
    } else {
        let first = choose|i: int| refused_at(entries, i);
        Err(ErrorView::PublicKey(parsed_public_key(entries[first].0)->Err_0))
    }
}

/// The public keys stand in ascending order, each once.
pub open spec fn keys_ascend(signatories: Seq<SignatoryView>) -> bool {
    forall|i: int, j: int|
        0 <= i < j < signatories.len() ==> bytes_lt(
            (#[trigger] signatories[i]).key,
            (#[trigger] signatories[j]).key,
        )
}

/// The signatories that the validators make up, in ascending order of their
/// public keys, which are those of the validators.
pub fn signatories_from_validators(validators: &ValidatorSet) -> (r: Result<SignatorySet, Error>)
    requires
        validators.wf(),
    ensures
        match r {
            Ok(set) => {
                &&& signatories_of(validators@) == Ok::<Seq<SignatoryView>, ErrorView>(set@)
                &&& keys_ascend(set@)
                &&& forall|i: int|
                    0 <= i < set@.len() ==> (#[trigger] set@[i]).key == entries_of(
                        validators@,
                    )[i].0
            },
            Err(e) => signatories_of(validators@) == Err::<Seq<SignatoryView>, ErrorView>(e@),
        },
{
    let ghost entries = entries_of(validators@);
    let mut signatories: Vec<Signatory> = Vec::new();
    let mut i: usize = 0;
    while i < validators.len()
        invariant
            validators.wf(),
            entries == entries_of(validators@),
            i <= entries.len(),
            signatories@.len() == i,
            forall|j: int| 0 <= j < i ==> parsed_public_key(#[trigger] entries[j].0) is Ok,
            forall|j: int| 0 <= j < i ==> (#[trigger] signatories@[j])@ == signatory_of(entries[j]),
            forall|j: int| 0 <= j < i ==> (#[trigger] signatories@[j])@.key == entries[j].0,
        decreases entries.len() - i,
    {
        match parse_public_key(validators.key(i)) {
            Ok(key) => {
                signatories.push(Signatory::of_validator(key, validators.power(i)));
            },
            Err(e) => {
                proof {
                    assert(parsed_public_key(entries[i as int].0) is Err);
                    assert(refused_at(entries, i as int));
                    let k = choose|k: int| refused_at(entries, k);
                    assert(k == i);
                }
                return Err(Error::PublicKey(e));
            },
        }
        i += 1;
    }
    let set = SignatorySet { signatories };
    assert(set@ =~= Seq::new(entries.len(), |i: int| signatory_of(entries[i])));
    proof {
        validators.lemma_ordered();
        assert forall|i: int| 0 <= i < set@.len() implies (#[trigger] set@[i]).key
            == entries[i].0 by {
            assert(signatories@[i]@.key == entries[i].0);
        }
    }
    Ok(set)
}

/// What a run asks of its surroundings.
#[derive(Debug)]
pub enum Request {
    /// The work that `hash` stands for.
    Work { hash: Vec<u8> },
    /// The value of `key` in the store.
    Get { key: Vec<u8> },
    /// Write `value` under `key` in the store.
    Put { key: Vec<u8>, value: Vec<u8> },
    /// Add `header` to the header cache, which checks that it extends a known
    /// chain.
    AddHeader { header: BlockHeader },
    /// Add `header` to the header cache at `height`, unchecked.
    AddHeaderRaw { header: BlockHeader, height: u32 },
    /// The header that the header cache has at `height`.
    HeaderForHeight { height: u32 },
    /// The script of an output that pays `recipient` through `signatories`.
    OutputScript { signatories: SignatorySet, recipient: Vec<u8> },
}

/// What the surroundings answer. A failure is carried as text.
#[derive(Debug)]
pub enum Reply {
    /// To [`Request::Work`].
    Work(u64),
    /// To [`Request::Get`].
    Value(Result<Option<Vec<u8>>, String>),
    /// To [`Request::Put`].
    Put(Result<(), String>),
    /// To [`Request::AddHeader`] and [`Request::AddHeaderRaw`].
    HeaderAdded(Result<(), String>),
    /// To [`Request::HeaderForHeight`].
    Header(Result<Option<BlockHeader>, String>),
    /// To [`Request::OutputScript`].
    Script(Vec<u8>),
}

pub ghost enum RequestView {
    Work { hash: Seq<u8> },
    Get { key: Seq<u8> },
    Put { key: Seq<u8>, value: Seq<u8> },
    AddHeader { header: BlockHeader },
    AddHeaderRaw { header: BlockHeader, height: u32 },
    HeaderForHeight { height: u32 },
    OutputScript { signatories: Seq<SignatoryView>, recipient: Seq<u8> },
}

pub ghost enum ReplyView {
    Work(u64),
    Value(Result<Option<Seq<u8>>, Seq<char>>),
    Put(Result<(), Seq<char>>),
    HeaderAdded(Result<(), Seq<char>>),
    Header(Result<Option<BlockHeader>, Seq<char>>),
    Script(Seq<u8>),
}

impl View for Request {
    type V = RequestView;

    open spec fn view(&self) -> RequestView {
        match *self {
            Request::Work { hash } => RequestView::Work { hash: hash@ },
            Request::Get { key } => RequestView::Get { key: key@ },
            Request::Put { key, value } => RequestView::Put { key: key@, value: value@ },
            Request::AddHeader { header } => RequestView::AddHeader { header },
            Request::AddHeaderRaw { header, height } => RequestView::AddHeaderRaw {
                header,
                height,
            },
            Request::HeaderForHeight { height } => RequestView::HeaderForHeight { height },
            Request::OutputScript { signatories, recipient } => RequestView::OutputScript {
                signatories: signatories@,
                recipient: recipient@,
            },
        }
    }
}

/// A result by the text of its failure.
pub open spec fn result_view<T>(r: Result<T, String>) -> Result<T, Seq<char>> {
    match r {
        Ok(v) => Ok(v),
        Err(e) => Err(e@),
    }
}

/// What a read of the store gave.
pub open spec fn value_view(r: Result<Option<Vec<u8>>, String>) -> Result<
    Option<Seq<u8>>,
    Seq<char>,
> {
    match r {
        Ok(Some(v)) => Ok(Some(v@)),
        Ok(None) => Ok(None),
        Err(e) => Err(e@),
    }
}

impl View for Reply {
    type V = ReplyView;

    open spec fn view(&self) -> ReplyView {
        match *self {
            Reply::Work(work) => ReplyView::Work(work),
            Reply::Value(r) => ReplyView::Value(value_view(r)),
            Reply::Put(r) => ReplyView::Put(result_view(r)),
            Reply::HeaderAdded(r) => ReplyView::HeaderAdded(result_view(r)),
            Reply::Header(r) => ReplyView::Header(result_view(r)),
            Reply::Script(script) => ReplyView::Script(script@),
        }
    }
}

/// A run in progress, by what it waits for.
#[derive(Debug)]
pub enum Run {
    /// The work of a proof.
    Work { public_key: Vec<u8>, hash: Vec<u8> },
    /// Whether the proof has been redeemed before.
    Redeemed { public_key: Vec<u8>, hash: Vec<u8>, work: u64 },
    /// The note that the proof is redeemed now.
    Redeem { hash: Vec<u8> },
    /// The addition of `header`. The headers after it stand in `later`, the
    /// next one last.
    AddHeader { header: BlockHeader, later: Vec<BlockHeader> },
    /// The addition of the first header.
    AddCheckpoint { checkpoint: EnrichedHeader },
    /// Whether the deposit has been processed before.
    Processed { deposit: DepositTransaction, key: Vec<u8> },
    /// The header of the block that holds the deposit.
    FindHeader { deposit: DepositTransaction, key: Vec<u8> },
    /// The script that the deposit has to pay.
    FindScript {
        signatories: SignatorySet,
        recipient: Vec<u8>,
        output: Vec<TxOut>,
        key: Vec<u8>,
    },
    /// The note that the deposit is processed now.
    MarkProcessed { key: Vec<u8> },
    /// Nothing: the run has ended.
    Done { result: Result<(), Error> },
}

pub ghost enum RunView {
    Work { public_key: Seq<u8>, hash: Seq<u8> },
    Redeemed { public_key: Seq<u8>, hash: Seq<u8>, work: u64 },
    Redeem { hash: Seq<u8> },
    /// The headers that are still to be added, the next one first.
    AddHeaders { headers: Seq<BlockHeader> },
    AddCheckpoint { checkpoint: EnrichedHeader },
    Processed { deposit: DepositView, key: Seq<u8> },
    FindHeader { deposit: DepositView, key: Seq<u8> },
    FindScript {
        signatories: Seq<SignatoryView>,
        recipient: Seq<u8>,
        output: Seq<TxOutView>,
        key: Seq<u8>,
    },
    MarkProcessed { key: Seq<u8> },
    Done { result: Result<(), ErrorView> },
}

impl View for Run {
    type V = RunView;

    open spec fn view(&self) -> RunView {
        match *self {
            Run::Work { public_key, hash } => RunView::Work {
                public_key: public_key@,
                hash: hash@,
            },
            Run::Redeemed { public_key, hash, work } => RunView::Redeemed {
                public_key: public_key@,
                hash: hash@,
                work,
            },
            Run::Redeem { hash } => RunView::Redeem { hash: hash@ },
            Run::AddHeader { header, later } => RunView::AddHeaders {
                headers: seq![header] + later@.reverse(),
            },
            Run::AddCheckpoint { checkpoint } => RunView::AddCheckpoint { checkpoint },
            Run::Processed { deposit, key } => RunView::Processed { deposit: deposit@, key: key@ },
            Run::FindHeader { deposit, key } => RunView::FindHeader {
                deposit: deposit@,
                key: key@,
            },
            Run::FindScript { signatories, recipient, output, key } => RunView::FindScript {
                signatories: signatories@,
                recipient: recipient@,
                output: outputs_view(output@),
                key: key@,
            },
            Run::MarkProcessed { key } => RunView::MarkProcessed { key: key@ },
            Run::Done { result } => RunView::Done {
                result: match result {
                    Ok(()) => Ok(()),
                    Err(e) => Err(e@),
                },
            },
        }
    }
}

/// Transaction outputs by their views.
pub open spec fn outputs_view(output: Seq<TxOut>) -> Seq<TxOutView> {
    Seq::new(output.len(), |i: int| output[i]@)
}

/// The hash that the work of a proof is measured on.
pub open spec fn work_proof_hash(public_key: Seq<u8>, nonce: u64) -> Seq<u8> {
    sha256_digest(public_key + be_bytes(nonce))
}

/// The key in the store that marks the transaction with the id `txid` as
/// processed: `tx/` and the id.
pub open spec fn deposit_key(txid: Seq<u8>) -> Seq<u8> {
    seq![0x74u8, 0x78u8, 0x2fu8] + txid
}

/// A run that ended in success.
pub open spec fn accepted() -> RunView {
    RunView::Done { result: Ok(()) }
}

/// A run that was refused.
pub open spec fn refused(e: ErrorView) -> RunView {
    RunView::Done { result: Err(e) }
}

/// A run that has `headers` left to add.
pub open spec fn adding(headers: Seq<BlockHeader>) -> RunView {
    if headers.len() == 0 {
        accepted()
    } else {
        RunView::AddHeaders { headers }
    }
}

/// How a run of `action` starts.
pub open spec fn started(action: ActionView) -> RunView {
    match action {
        ActionView::WorkProof { public_key, nonce } => RunView::Work {
            public_key,
            hash: work_proof_hash(public_key, nonce),
        },
        ActionView::Header { block_headers } => adding(block_headers),
        ActionView::Deposit(deposit) => RunView::Processed {
            deposit,
            key: deposit_key(transaction_id(deposit.tx)),
        },
    }
}

/// Whether one of the outputs carries `script`.
pub open spec fn pays(output: Seq<TxOutView>, script: Seq<u8>) -> bool {
    exists|i: int| 0 <= i < output.len() && (#[trigger] output[i]).script_pubkey == script
}

/// What is wrong with a proof that led to `proof_root`, where the header's
/// merkle root is `chain_root`.
pub open spec fn proof_judged(
    chain_root: Seq<u8>,
    proof_root: Result<Seq<u8>, Seq<char>>,
) -> Option<ErrorView> {
    match proof_root {
        Err(e) => Some(ErrorView::Proof(e)),
        Ok(root) => if root == chain_root {
            None
        } else {
            Some(ErrorView::MerkleRootMismatch)
        },
    }
}

/// How a proven deposit goes on. Every output is held against the script that
/// pays the first recipient.
pub open spec fn outputs_judged(
    deposit: DepositView,
    key: Seq<u8>,
    signatories: Result<Seq<SignatoryView>, ErrorView>,
) -> RunView {
    match signatories {
        Err(e) => refused(e),
        Ok(signatories) => if deposit.tx.output.len() == 0 {
            refused(ErrorView::NoDepositOutputs)
        } else if deposit.recipients.len() == 0 {
            refused(ErrorView::RecipientsConsumed)
        } else {
            RunView::FindScript {
                signatories,
                recipient: deposit.recipients[0]@,
                output: deposit.tx.output,
                key,
            }
        },
    }
}

/// The voting power of `key`, which is 0 for a key that is no validator's.
pub open spec fn power_of(validators: Map<Seq<u8>, u64>, key: Seq<u8>) -> u64 {
    if validators.contains_key(key) {
        validators[key]
    } else {
        0
    }
}

/// The end of a run whose last write gave `r`.
pub open spec fn written(r: Result<(), Seq<char>>) -> RunView {
    match r {
        Ok(()) => accepted(),
        Err(e) => refused(ErrorView::Store(e)),
    }
}

impl RunView {
    /// What the run asks for, if it has not ended.
    pub open spec fn request(self) -> Option<RequestView> {
        match self {
            RunView::Work { hash, .. } => Some(RequestView::Work { hash }),
            RunView::Redeemed { hash, .. } => Some(RequestView::Get { key: hash }),
            RunView::Redeem { hash } => Some(RequestView::Put { key: hash, value: seq![0u8] }),
            RunView::AddHeaders { headers } => Some(RequestView::AddHeader { header: headers[0] }),
            RunView::AddCheckpoint { checkpoint } => Some(
                RequestView::AddHeaderRaw { header: checkpoint.header, height: checkpoint.height },
            ),
            RunView::Processed { key, .. } => Some(RequestView::Get { key }),
            RunView::FindHeader { deposit, .. } => Some(
                RequestView::HeaderForHeight { height: deposit.height },
            ),
            RunView::FindScript { signatories, recipient, .. } => Some(
                RequestView::OutputScript { signatories, recipient },
            ),
            RunView::MarkProcessed { key } => Some(
                RequestView::Put { key, value: Seq::<u8>::empty() },
            ),
            RunView::Done { .. } => None,
        }
    }

    /// Whether `reply` is an answer to what the run asks for.
    pub open spec fn awaits(self, reply: ReplyView) -> bool {
        match self {
            RunView::Work { .. } => reply is Work,
            RunView::Redeemed { .. } => reply is Value,
            RunView::Redeem { .. } => reply is Put,
            RunView::AddHeaders { .. } => reply is HeaderAdded,
            RunView::AddCheckpoint { .. } => reply is HeaderAdded,
            RunView::Processed { .. } => reply is Value,
            RunView::FindHeader { .. } => reply is Header,
            RunView::FindScript { .. } => reply is Script,
            RunView::MarkProcessed { .. } => reply is Put,
            RunView::Done { .. } => false,
        }
    }

    /// Whether `reply` makes the run grant voting power. A failed read counts
    /// as an absent value.
    pub open spec fn grants(self, reply: ReplyView) -> bool {
        &&& self is Redeemed
        &&& !(reply->Value_0 matches Ok(Some(_)))
    }

    /// Whether the voting power that `reply` makes the run grant fits its
    /// integer.
    pub open spec fn grant_fits(self, reply: ReplyView, validators: Map<Seq<u8>, u64>) -> bool {
        self.grants(reply) ==> power_of(validators, self->Redeemed_public_key)
            + self->Redeemed_work <= u64::MAX
    }

    /// How the run goes on after `reply`.
    pub open spec fn resumed(self, reply: ReplyView, validators: Map<Seq<u8>, u64>) -> RunView {
        match self {
            RunView::Work { public_key, hash } => if reply->Work_0 >= MIN_WORK {
                RunView::Redeemed { public_key, hash, work: reply->Work_0 }
            } else {
                accepted()
            },
            RunView::Redeemed { hash, .. } => if self.grants(reply) {
                RunView::Redeem { hash }
            } else {
                accepted()
            },
            RunView::Redeem { .. } => written(reply->Put_0),
            RunView::AddHeaders { headers } => match reply->HeaderAdded_0 {
                Ok(()) => adding(headers.drop_first()),
                Err(e) => refused(ErrorView::HeaderAdd(e)),
            },
            RunView::AddCheckpoint { .. } => match reply->HeaderAdded_0 {
                Ok(()) => accepted(),
                Err(e) => refused(ErrorView::HeaderCache(e)),
            },
            RunView::Processed { deposit, key } => match reply->Value_0 {
                Ok(None) => RunView::FindHeader { deposit, key },
                Ok(Some(_)) => refused(ErrorView::AlreadyProcessed),
                Err(e) => refused(ErrorView::Store(e)),
            },
            RunView::FindHeader { deposit, key } => match reply->Header_0 {
                Ok(Some(header)) => match proof_judged(
                    header.merkle_root@,
                    extracted_root(deposit.proof),
                ) {
                    Some(e) => refused(e),
                    None => outputs_judged(deposit, key, signatories_of(validators)),
                },
                Ok(None) => refused(ErrorView::MerkleRootNotFound),
                Err(e) => refused(ErrorView::HeaderCache(e)),
            },
            RunView::FindScript { output, key, .. } => if pays(output, reply->Script_0) {
                RunView::MarkProcessed { key }
            } else {
                refused(ErrorView::NoDepositOutputs)
            },
            RunView::MarkProcessed { .. } => written(reply->Put_0),
            RunView::Done { .. } => self,
        }
    }

    /// The validators after `reply`.
    pub open spec fn granted(self, reply: ReplyView, validators: Map<Seq<u8>, u64>) -> Map<
        Seq<u8>,
        u64,
    > {
        match self {
            RunView::Redeemed { public_key, work, .. } if self.grants(reply) => validators.insert(
                public_key,
                (power_of(validators, public_key) + work) as u64,
            ),
            _ => validators,
        }
    }
}

/// Whether one of the outputs carries `script`.
fn contains_script(output: &Vec<TxOut>, script: &Vec<u8>) -> (r: bool)
    ensures
        r == pays(outputs_view(output@), script@),
{
    let mut i: usize = 0;
    while i < output.len()
        invariant
            i <= output@.len(),
            forall|j: int| 0 <= j < i ==> (#[trigger] output@[j]).script_pubkey@ != script@,
        decreases output@.len() - i,
    {
        if same(output[i].script_pubkey.as_slice(), script.as_slice()) {
            assert(outputs_view(output@)[i as int].script_pubkey == script@);
            return true;
        }
        i += 1;
    }
    assert forall|j: int| 0 <= j < outputs_view(output@).len() implies (
    #[trigger] outputs_view(output@)[j]).script_pubkey != script@ by {
        assert(outputs_view(output@)[j].script_pubkey == output@[j].script_pubkey@);
    }
    false
}

/// Holds the merkle root that a deposit's proof led to against the one that
/// the chain of headers has.
pub fn judge_proof(chain_root: &[u8; 32], proof_root: Result<[u8; 32], String>) -> (r: Result<
    (),
    Error,
>)
    ensures
        ({
            let root = match proof_root {
                Ok(root) => Ok(root@),
                Err(e) => Err(e@),
            };
            match r {
                Ok(()) => proof_judged(chain_root@, root) is None,
                Err(e) => proof_judged(chain_root@, root) == Some(e@),
            }
        }),
{
    match proof_root {
        Err(e) => Err(Error::Proof(e)),
        Ok(root) => if same(root.as_slice(), chain_root.as_slice()) {
            Ok(())
        } else {
            Err(Error::MerkleRootMismatch)
        },
    }
}

/// Goes on with a proven deposit: it needs an output and a recipient.
pub fn judge_outputs(
    deposit: DepositTransaction,
    key: Vec<u8>,
    signatories: Result<SignatorySet, Error>,
) -> (r: Run)
    ensures
        r@ == outputs_judged(
            deposit@,
            key@,
            match signatories {
                Ok(set) => Ok(set@),
                Err(e) => Err(e@),
            },
        ),
{
    let signatories = match signatories {
        Ok(signatories) => signatories,
        Err(e) => return Run::Done { result: Err(e) },
    };
    if deposit.tx.output.len() == 0 {
        return Run::Done { result: Err(Error::NoDepositOutputs) };
    }
    if deposit.recipients.len() == 0 {
        return Run::Done { result: Err(Error::RecipientsConsumed) };
    }
    let recipient = copied(deposit.recipients[0].as_slice());
    proof {
        assert(outputs_view(deposit.tx.output@) =~= deposit@.tx.output);
    }
    Run::FindScript { signatories, recipient, output: deposit.tx.output, key }
}

/// Goes on to add `later`, of which the next header stands last.
fn add_next(later: Vec<BlockHeader>) -> (r: Run)
    ensures
        r@ == adding(later@.reverse()),
{
    let mut later = later;
    let ghost all = later@;
    match later.pop() {
        None => Run::Done { result: Ok(()) },
        Some(header) => {
            assert(all.reverse() =~= seq![header] + later@.reverse());
            Run::AddHeader { header, later }
        },
    }
}

/// `items` from the last to the first.
fn reversed(items: Vec<BlockHeader>) -> (r: Vec<BlockHeader>)
    ensures
        r@ == items@.reverse(),
{
    let mut items = items;
    let mut r: Vec<BlockHeader> = Vec::new();
    let ghost all = items@;
    while items.len() > 0
        invariant
            items@.len() + r@.len() == all.len(),
            items@ == all.take(items@.len() as int),
            forall|i: int| 0 <= i < r@.len() ==> r@[i] == all[all.len() - 1 - i],
        decreases items@.len(),
    {
        let ghost n = items@.len();
        if let Some(item) = items.pop() {
            assert(item == all[n - 1]);
            r.push(item);
        }
    }
    assert(r@ =~= all.reverse());
    r
}

/// Starts a run of `action`.
pub fn run(action: Action) -> (r: Run)
    ensures
        r@ == started(action@),
        r@ matches RunView::Work { hash, .. } ==> hash.len() == 32,
        r@ matches RunView::Processed { key, .. } ==> key.len() == 35,
{
    match action {
        Action::Transaction(Transaction::WorkProof(work_transaction)) => {
            let mut data = copied(work_transaction.public_key.as_slice());
            let mut nonce = to_be_bytes(work_transaction.nonce);
            data.append(&mut nonce);
            Run::Work { hash: sha256(&data), public_key: work_transaction.public_key }
        },
        Action::Transaction(Transaction::Header(header_transaction)) => {
            let later = reversed(header_transaction.block_headers);
            assert(later@.reverse() =~= header_transaction.block_headers@);
            add_next(later)
        },
        Action::Transaction(Transaction::Deposit(deposit)) => {
            let id = txid(&deposit.tx);
            let mut key: Vec<u8> = vec![0x74, 0x78, 0x2f];
            key.extend_from_slice(id.as_slice());
            assert(key@ =~= deposit_key(id@));
            Run::Processed { deposit, key }
        },
    }
}

/// Starts the run that writes the first header, at genesis.
pub fn initialize(checkpoint: EnrichedHeader) -> (r: Run)
    ensures
        r@ == (RunView::AddCheckpoint { checkpoint }),
{
    Run::AddCheckpoint { checkpoint }
}

impl Run {
    /// What the run asks for, if it has not ended.
    pub fn request(&self) -> (r: Option<Request>)
        ensures
            match r {
                Some(request) => self@.request() == Some(request@),
                None => self@.request() is None,
            },
    {
        match self {
            Run::Work { hash, .. } => Some(Request::Work { hash: copied(hash.as_slice()) }),
            Run::Redeemed { hash, .. } => Some(Request::Get { key: copied(hash.as_slice()) }),
            Run::Redeem { hash } => {
                let value: Vec<u8> = vec![0];
                assert(value@ =~= seq![0u8]);
                Some(Request::Put { key: copied(hash.as_slice()), value })
            },
            Run::AddHeader { header, .. } => Some(Request::AddHeader { header: *header }),
            Run::AddCheckpoint { checkpoint } => Some(
                Request::AddHeaderRaw { header: checkpoint.header, height: checkpoint.height },
            ),
            Run::Processed { key, .. } => Some(Request::Get { key: copied(key.as_slice()) }),
            Run::FindHeader { deposit, .. } => Some(
                Request::HeaderForHeight { height: deposit.height },
            ),
            Run::FindScript { signatories, recipient, .. } => Some(
                Request::OutputScript {
                    signatories: signatories.duplicate(),
                    recipient: copied(recipient.as_slice()),
                },
            ),
            Run::MarkProcessed { key } => {
                let value: Vec<u8> = Vec::new();
                Some(Request::Put { key: copied(key.as_slice()), value })
            },
            Run::Done { .. } => None,
        }
    }

    /// Whether the run can go on with `reply`: it answers what the run asks
    /// for, and the voting power that it makes the run grant fits its integer.
    pub fn accepts(&self, reply: &Reply, validators: &ValidatorSet) -> (r: bool)
        requires
            validators.wf(),
        ensures
            r == (self@.awaits(reply@) && self@.grant_fits(reply@, validators@)),
    {
        match (self, reply) {
            (Run::Work { .. }, Reply::Work(_)) => true,
            (Run::Redeemed { .. }, Reply::Value(Ok(Some(_)))) => true,
            (Run::Redeemed { public_key, work, .. }, Reply::Value(_)) => {
                let power = match validators.get(public_key) {
                    Some(power) => power,
                    None => 0,
                };
                *work <= u64::MAX - power
            },
            (Run::Redeem { .. }, Reply::Put(_)) => true,
            (Run::AddHeader { .. }, Reply::HeaderAdded(_)) => true,
            (Run::AddCheckpoint { .. }, Reply::HeaderAdded(_)) => true,
            (Run::Processed { .. }, Reply::Value(_)) => true,
            (Run::FindHeader { .. }, Reply::Header(_)) => true,
            (Run::FindScript { .. }, Reply::Script(_)) => true,
            (Run::MarkProcessed { .. }, Reply::Put(_)) => true,
            _ => false,
        }
    }

    /// Goes on with the answer to what the run asked for.
    pub fn resume(self, reply: Reply, validators: &mut ValidatorSet) -> (r: Run)
        requires
            old(validators).wf(),
            self@.awaits(reply@),
            self@.grant_fits(reply@, old(validators)@),
        ensures
            final(validators).wf(),
            r@ == self@.resumed(reply@, old(validators)@),
            final(validators)@ == self@.granted(reply@, old(validators)@),
    {
        match (self, reply) {
            (Run::Work { public_key, hash }, Reply::Work(work)) => if work >= MIN_WORK {
                Run::Redeemed { public_key, hash, work }
            } else {
                Run::Done { result: Ok(()) }
            },
            (Run::Redeemed { .. }, Reply::Value(Ok(Some(_)))) => Run::Done { result: Ok(()) },
            (Run::Redeemed { public_key, hash, work }, Reply::Value(_)) => {
                let power = match validators.get(&public_key) {
                    Some(power) => power,
                    None => 0,
                };
                validators.insert(public_key, power + work);
                Run::Redeem { hash }
            },
            (Run::Redeem { .. }, Reply::Put(Ok(()))) => Run::Done { result: Ok(()) },
            (Run::Redeem { .. }, Reply::Put(Err(e))) => Run::Done { result: Err(Error::Store(e)) },
            (Run::AddHeader { header, later }, Reply::HeaderAdded(Ok(()))) => {
                assert((seq![header] + later@.reverse()).drop_first() =~= later@.reverse());
                add_next(later)
            },
            (Run::AddHeader { .. }, Reply::HeaderAdded(Err(e))) => {
                Run::Done { result: Err(Error::HeaderAdd(e)) }
            },
            (Run::AddCheckpoint { .. }, Reply::HeaderAdded(Ok(()))) => Run::Done { result: Ok(()) },
            (Run::AddCheckpoint { .. }, Reply::HeaderAdded(Err(e))) => {
                Run::Done { result: Err(Error::HeaderCache(e)) }
            },
            (Run::Processed { deposit, key }, Reply::Value(Ok(None))) => {
                Run::FindHeader { deposit, key }
            },
            (Run::Processed { .. }, Reply::Value(Ok(Some(_)))) => {
                Run::Done { result: Err(Error::AlreadyProcessed) }
            },
            (Run::Processed { .. }, Reply::Value(Err(e))) => {
                Run::Done { result: Err(Error::Store(e)) }
            },
            (Run::FindHeader { deposit, key }, Reply::Header(Ok(Some(header)))) => {
                let proof_root = extract_root(&deposit.proof);
                match judge_proof(&header.merkle_root, proof_root) {
                    Err(e) => Run::Done { result: Err(e) },
                    Ok(()) => judge_outputs(
                        deposit,
                        key,
                        signatories_from_validators(&*validators),
                    ),
                }
            },
            (Run::FindHeader { .. }, Reply::Header(Ok(None))) => {
                Run::Done { result: Err(Error::MerkleRootNotFound) }
            },
            (Run::FindHeader { .. }, Reply::Header(Err(e))) => {
                Run::Done { result: Err(Error::HeaderCache(e)) }
            },
            (Run::FindScript { output, key, .. }, Reply::Script(script)) => if contains_script(
                &output,
                &script,
            ) {
                Run::MarkProcessed { key }
            } else {
                Run::Done { result: Err(Error::NoDepositOutputs) }
            },
            (Run::MarkProcessed { .. }, Reply::Put(Ok(()))) => Run::Done { result: Ok(()) },
            (Run::MarkProcessed { .. }, Reply::Put(Err(e))) => {
                Run::Done { result: Err(Error::Store(e)) }
            },
            (run, _) => run,
        }
    }
}

} // verus!
