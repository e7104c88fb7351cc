use bitcoin::consensus::encode as bitcoin_encode;
use bitcoin::util::hash::bitcoin_merkle_root;
use bitcoin::util::merkleblock::PartialMerkleTree;
use nomic::blockdata::{BitcoinTransaction, BlockHeader, EnrichedHeader, OutPoint, TxIn, TxOut};
use nomic::primitives::{
    Action, DepositTransaction, HeaderTransaction, Signatory, SignatorySet, Transaction,
    WorkProofTransaction,
};
use nomic::state_machine::{
    initialize, judge_outputs, judge_proof, run, signatories_from_validators, Error, Reply, Request,
    Run, MIN_WORK,
};
use nomic::validators::ValidatorSet;
use std::collections::HashMap;

const MOCK_KEY: [u8; 33] = [
    3, 148, 217, 3, 10, 128, 64, 14, 129, 125, 33, 213, 163, 104, 0, 227, 122, 136, 27, 45, 207,
    44, 64, 24, 35, 166, 166, 118, 25, 12, 200, 183, 98,
];

fn mock_validator_set() -> ValidatorSet {
    let mut vals = ValidatorSet::new();
    vals.insert(MOCK_KEY.to_vec(), 100);
    vals
}

/// Stands for the script that pays a recipient: it depends on all of the
/// signatories and on the recipient.
fn output_script(signatories: &SignatorySet, recipient: &[u8]) -> Vec<u8> {
    let mut script = Vec::new();
    for signatory in &signatories.signatories {
        script.extend_from_slice(&signatory.key);
        script.extend_from_slice(&signatory.voting_power.to_le_bytes());
    }
    script.extend_from_slice(recipient);
    script
}

struct MockNet {
    store: HashMap<Vec<u8>, Vec<u8>>,
    headers: HashMap<u32, BlockHeader>,
    refused_header: Option<BlockHeader>,
    added: Vec<BlockHeader>,
    work: u64,
    fail_get: bool,
    fail_put: bool,
    fail_cache: bool,
    requests: usize,
    validators: ValidatorSet,
}

impl MockNet {
    fn empty() -> Self {
        MockNet {
            store: HashMap::new(),
            headers: HashMap::new(),
            refused_header: None,
            added: Vec::new(),
            work: 0,
            fail_get: false,
            fail_put: false,
            fail_cache: false,
            requests: 0,
            validators: mock_validator_set(),
        }
    }

    fn new(initial_header: bitcoin::BlockHeader) -> Self {
        let mut net = MockNet::empty();
        net.headers.insert(0, header_of(&initial_header));
        net
    }

    fn answer(&mut self, request: Request) -> Reply {
        self.requests += 1;
        match request {
            Request::Work { hash } => {
                assert_eq!(hash.len(), 32);
                Reply::Work(self.work)
            }
            Request::Get { key } => Reply::Value(if self.fail_get {
                Err("store is closed".to_string())
            } else {
                Ok(self.store.get(&key).cloned())
            }),
            Request::Put { key, value } => Reply::Put(if self.fail_put {
                Err("store is full".to_string())
            } else {
                self.store.insert(key, value);
                Ok(())
            }),
            Request::AddHeader { header } => {
                Reply::HeaderAdded(if Some(header) == self.refused_header {
                    Err("HeaderNotFound".to_string())
                } else {
                    self.added.push(header);
                    Ok(())
                })
            }
            Request::AddHeaderRaw { header, height } => Reply::HeaderAdded(if self.fail_cache {
                Err("cache failed".to_string())
            } else {
                self.headers.insert(height, header);
                Ok(())
            }),
            Request::HeaderForHeight { height } => Reply::Header(if self.fail_cache {
                Err("cache failed".to_string())
            } else {
                Ok(self.headers.get(&height).copied())
            }),
            Request::OutputScript { signatories, recipient } => {
                Reply::Script(output_script(&signatories, &recipient))
            }
        }
    }

    fn finish(&mut self, mut run: Run) -> Result<(), Error> {
        while let Some(request) = run.request() {
            let reply = self.answer(request);
            assert!(run.accepts(&reply, &self.validators));
            run = run.resume(reply, &mut self.validators);
        }
        match run {
            Run::Done { result } => result,
            _ => panic!("a run without a request is done"),
        }
    }

    fn run(&mut self, action: Action) -> Result<(), String> {
        let started = run(action);
        self.finish(started).map_err(|e| e.message())
    }
}

fn header_of(header: &bitcoin::BlockHeader) -> BlockHeader {
    BlockHeader {
        version: header.version,
        prev_blockhash: bitcoin::hashes::Hash::into_inner(header.prev_blockhash),
        merkle_root: bitcoin::hashes::Hash::into_inner(header.merkle_root),
        time: header.time,
        bits: header.bits,
        nonce: header.nonce,
    }
}

fn transaction_of(tx: &bitcoin::Transaction) -> BitcoinTransaction {
    BitcoinTransaction {
        version: tx.version,
        lock_time: tx.lock_time,
        input: tx
            .input
            .iter()
            .map(|i| TxIn {
                previous_output: OutPoint {
                    txid: bitcoin::hashes::Hash::into_inner(i.previous_output.txid),
                    vout: i.previous_output.vout,
                },
                script_sig: i.script_sig.to_bytes(),
                sequence: i.sequence,
            })
            .collect(),
        output: tx
            .output
            .iter()
            .map(|o| TxOut { value: o.value, script_pubkey: o.script_pubkey.to_bytes() })
            .collect(),
    }
}

fn build_txout(value: u64, script_pubkey: bitcoin::Script) -> bitcoin::TxOut {
    bitcoin::TxOut { value, script_pubkey }
}

fn build_tx(outputs: Vec<bitcoin::TxOut>) -> bitcoin::Transaction {
    bitcoin::Transaction { version: 2, lock_time: 0, input: vec![], output: outputs }
}

fn build_block(txs: Vec<bitcoin::Transaction>) -> bitcoin::Block {
    let hashes = txs.iter().map(|tx| tx.txid().as_hash());
    let merkle_root = bitcoin_merkle_root(hashes).unwrap().into();

    let header = bitcoin::BlockHeader {
        version: 1,
        prev_blockhash: Default::default(),
        merkle_root,
        time: 1,
        bits: 0x207fffff,
        nonce: 0,
    };

    bitcoin::Block { header, txdata: txs }
}

fn proof_of(block: &bitcoin::Block, tx: &bitcoin::Transaction) -> PartialMerkleTree {
    let txid = tx.txid();
    bitcoin::MerkleBlock::from_block_with_predicate(block, |t| *t == txid).txn
}

fn invalidate_proof(proof: PartialMerkleTree) -> PartialMerkleTree {
    let mut proof_bytes = bitcoin_encode::serialize(&proof);
    proof_bytes[10] ^= 1;
    bitcoin_encode::deserialize(proof_bytes.as_slice()).unwrap()
}

fn deposit(
    height: u32,
    proof: &PartialMerkleTree,
    tx: &bitcoin::Transaction,
    recipients: Vec<[u8; 32]>,
) -> Action {
    Action::Transaction(Transaction::Deposit(DepositTransaction {
        height,
        proof: bitcoin_encode::serialize(proof),
        tx: transaction_of(tx),
        block_index: 0,
        recipients,
    }))
}

fn paying_script() -> bitcoin::Script {
    let signatories = signatories_from_validators(&mock_validator_set()).unwrap();
    output_script(&signatories, &[123; 32]).into()
}

fn work_proof(public_key: &[u8], nonce: u64) -> Action {
    Action::Transaction(Transaction::WorkProof(WorkProofTransaction {
        public_key: public_key.to_vec(),
        nonce,
    }))
}

fn some_header(nonce: u32) -> BlockHeader {
    BlockHeader {
        version: 1,
        prev_blockhash: [7; 32],
        merkle_root: [8; 32],
        time: 1,
        bits: 0x207fffff,
        nonce,
    }
}

#[test]
fn init() {
    let chkpt = EnrichedHeader { header: some_header(42), height: 1_583_000 };
    let mut net = MockNet::empty();
    net.finish(initialize(chkpt)).unwrap();

    let request = Request::HeaderForHeight { height: chkpt.height };
    let header = match net.answer(request) {
        Reply::Header(header) => header.unwrap().unwrap(),
        _ => panic!("not a header"),
    };
    assert_eq!(header, chkpt.header);
}

#[test]
fn init_reports_the_header_cache() {
    let mut net = MockNet::empty();
    net.fail_cache = true;
    let chkpt = EnrichedHeader { header: some_header(42), height: 1 };
    let error = net.finish(initialize(chkpt)).unwrap_err();
    assert!(matches!(error, Error::HeaderCache(_)));
    assert_eq!(error.message(), "cache failed");
}

#[test]
#[should_panic(expected = "Merkle root not found for deposit transaction")]
fn deposit_invalid_height() {
    let tx = build_tx(vec![build_txout(100_000_000, vec![].into())]);
    let block = build_block(vec![tx.clone()]);
    let mut net = MockNet::new(block.header.clone());
    let proof = proof_of(&block, &tx);

    net.run(deposit(100, &proof, &tx, vec![])).unwrap();
}

#[test]
#[should_panic(expected = "Proof merkle root does not match chain")]
fn deposit_invalid_proof() {
    let tx = build_tx(vec![build_txout(100_000_000, vec![].into())]);
    let block = build_block(vec![tx.clone()]);
    let mut net = MockNet::new(block.header.clone());
    let proof = invalidate_proof(proof_of(&block, &tx));

    net.run(deposit(0, &proof, &tx, vec![])).unwrap();
}

#[test]
#[should_panic(expected = "Transaction does not contain any deposit outputs")]
fn deposit_irrelevant() {
    let tx = build_tx(vec![build_txout(100_000_000, vec![].into())]);
    let block = build_block(vec![tx.clone()]);
    let mut net = MockNet::new(block.header.clone());
    let proof = proof_of(&block, &tx);

    net.run(deposit(0, &proof, &tx, vec![[123; 32]])).unwrap();
    net.run(deposit(0, &proof, &tx, vec![[123; 32]])).unwrap();
}

#[test]
#[should_panic(expected = "Transaction was already processed")]
fn deposit_duplicate() {
    let tx = build_tx(vec![build_txout(100_000_000, paying_script())]);
    let block = build_block(vec![tx.clone()]);
    let mut net = MockNet::new(block.header.clone());
    let proof = proof_of(&block, &tx);

    net.run(deposit(0, &proof, &tx, vec![[123; 32]])).unwrap();
    net.run(deposit(0, &proof, &tx, vec![[123; 32]])).unwrap();
}

#[test]
#[should_panic(expected = "Consumed all recipients")]
fn deposit_no_recipients() {
    let tx = build_tx(vec![build_txout(100_000_000, paying_script())]);
    let block = build_block(vec![tx.clone()]);
    let mut net = MockNet::new(block.header.clone());
    let proof = proof_of(&block, &tx);

    net.run(deposit(0, &proof, &tx, vec![])).unwrap();
}

#[test]
fn deposit_ok() {
    let tx = build_tx(vec![build_txout(100_000_000, paying_script())]);
    let block = build_block(vec![tx.clone()]);
    let mut net = MockNet::new(block.header.clone());
    let proof = proof_of(&block, &tx);

    net.run(deposit(0, &proof, &tx, vec![[123; 32]])).unwrap();
}

#[test]
fn deposit_marks_the_transaction_id() {
    let spent = bitcoin::OutPoint {
        txid: bitcoin::hashes::Hash::from_inner([5; 32]),
        vout: 3,
    };
    let mut tx = build_tx(vec![
        build_txout(1, vec![1, 2, 3].into()),
        build_txout(100_000_000, paying_script()),
    ]);
    tx.input.push(bitcoin::TxIn {
        previous_output: spent,
        script_sig: vec![9, 9].into(),
        sequence: 0xffff_fffe,
        witness: bitcoin::Witness::from_vec(vec![vec![1], vec![2, 3]]),
    });
    let other = build_tx(vec![build_txout(7, vec![].into())]);
    let block = build_block(vec![other, tx.clone()]);
    let mut net = MockNet::new(block.header.clone());

    net.run(deposit(0, &proof_of(&block, &tx), &tx, vec![[123; 32], [0; 32]])).unwrap();

    let key = [b"tx/".to_vec(), tx.txid().as_hash().to_vec()].concat();
    assert_eq!(net.store.len(), 1);
    assert_eq!(net.store.get(&key), Some(&vec![]));
    assert_eq!(net.validators.get(&MOCK_KEY.to_vec()), Some(100));
}

#[test]
fn deposit_is_held_against_the_first_recipient_only() {
    let tx = build_tx(vec![build_txout(100_000_000, paying_script())]);
    let block = build_block(vec![tx.clone()]);
    let mut net = MockNet::new(block.header.clone());
    let proof = proof_of(&block, &tx);

    let error = net.run(deposit(0, &proof, &tx, vec![[0; 32], [123; 32]])).unwrap_err();
    assert_eq!(error, "Transaction does not contain any deposit outputs");
    assert!(net.store.is_empty());
}

#[test]
fn deposit_without_outputs() {
    let tx = build_tx(vec![]);
    let block = build_block(vec![tx.clone()]);
    let mut net = MockNet::new(block.header.clone());
    let proof = proof_of(&block, &tx);

    let error = net.run(deposit(0, &proof, &tx, vec![])).unwrap_err();
    assert_eq!(error, "Transaction does not contain any deposit outputs");
}

#[test]
fn deposit_with_malformed_proof() {
    let tx = build_tx(vec![build_txout(100_000_000, paying_script())]);
    let block = build_block(vec![tx.clone()]);
    let mut net = MockNet::new(block.header.clone());
    for proof in [vec![], vec![0, 0, 0, 0, 0, 0]] {
        let started = run(Action::Transaction(Transaction::Deposit(DepositTransaction {
            height: 0,
            proof,
            tx: transaction_of(&tx),
            block_index: 0,
            recipients: vec![[123; 32]],
        })));
        let error = net.finish(started).unwrap_err();
        assert!(matches!(error, Error::Proof(_)));
    }
    assert!(net.store.is_empty());
}

#[test]
fn deposit_with_invalid_validator_key() {
    let tx = build_tx(vec![build_txout(100_000_000, paying_script())]);
    let block = build_block(vec![tx.clone()]);
    let mut net = MockNet::new(block.header.clone());
    net.validators.insert(vec![1, 2, 3], 5);
    let started = run(deposit(0, &proof_of(&block, &tx), &tx, vec![[123; 32]]));
    let error = net.finish(started).unwrap_err();
    assert!(matches!(error, Error::PublicKey(_)));
}

#[test]
fn deposit_reports_the_store_and_the_header_cache() {
    let tx = build_tx(vec![build_txout(100_000_000, paying_script())]);
    let block = build_block(vec![tx.clone()]);
    let proof = proof_of(&block, &tx);

    let mut net = MockNet::new(block.header.clone());
    net.fail_get = true;
    assert_eq!(net.run(deposit(0, &proof, &tx, vec![[123; 32]])).unwrap_err(), "store is closed");

    let mut net = MockNet::new(block.header.clone());
    net.fail_cache = true;
    assert_eq!(net.run(deposit(0, &proof, &tx, vec![[123; 32]])).unwrap_err(), "cache failed");

    let mut net = MockNet::new(block.header.clone());
    net.fail_put = true;
    assert_eq!(net.run(deposit(0, &proof, &tx, vec![[123; 32]])).unwrap_err(), "store is full");
}

#[test]
fn work_proof_hash_is_sha256_of_key_and_nonce() {
    let hash = match run(work_proof(b"abc", 258)) {
        Run::Work { public_key, hash } => {
            assert_eq!(public_key, b"abc".to_vec());
            hash
        }
        _ => panic!("a work proof waits for its work"),
    };
    let expected = [
        0xc1, 0xdd, 0xcc, 0x50, 0xff, 0x7d, 0x3c, 0x48, 0x33, 0xb6, 0x98, 0x31,
        0x75, 0x15, 0x98, 0xe6, 0xa9, 0x86, 0x13, 0x84, 0xea, 0x00, 0xf7, 0x4a,
        0x45, 0xc9, 0xf3, 0x8d, 0x92, 0x64, 0x5e, 0x5c,
    ];
    assert_eq!(hash, expected.to_vec());
}

#[test]
fn work_proof_grants_its_work_once() {
    let mut net = MockNet::empty();
    net.work = MIN_WORK;
    net.run(work_proof(&MOCK_KEY, 1)).unwrap();
    assert_eq!(net.validators.get(&MOCK_KEY.to_vec()), Some(100 + (1 << 20)));
    assert_eq!(net.store.values().collect::<Vec<_>>(), vec![&vec![0u8]]);

    // A replay grants nothing.
    net.run(work_proof(&MOCK_KEY, 1)).unwrap();
    assert_eq!(net.validators.get(&MOCK_KEY.to_vec()), Some(100 + (1 << 20)));
    assert_eq!(net.store.len(), 1);

    // Another proof does, to its own key.
    net.work = MIN_WORK + 5;
    net.run(work_proof(b"newcomer", 1)).unwrap();
    assert_eq!(net.validators.get(&b"newcomer".to_vec()), Some((1 << 20) + 5));
    assert_eq!(net.validators.get(&MOCK_KEY.to_vec()), Some(100 + (1 << 20)));
    assert_eq!(net.store.len(), 2);
}

#[test]
fn work_proof_below_the_minimum() {
    let mut net = MockNet::empty();
    net.work = MIN_WORK - 1;
    net.run(work_proof(&MOCK_KEY, 1)).unwrap();
    assert_eq!(net.validators.get(&MOCK_KEY.to_vec()), Some(100));
    assert!(net.store.is_empty());
    assert_eq!(net.requests, 1);
}

#[test]
fn work_proof_takes_a_failed_read_for_absent() {
    let mut net = MockNet::empty();
    net.work = MIN_WORK;
    net.fail_get = true;
    net.run(work_proof(&MOCK_KEY, 1)).unwrap();
    assert_eq!(net.validators.get(&MOCK_KEY.to_vec()), Some(100 + MIN_WORK));
}

#[test]
fn work_proof_grants_before_the_write() {
    let mut net = MockNet::empty();
    net.work = MIN_WORK;
    net.fail_put = true;
    assert_eq!(net.run(work_proof(&MOCK_KEY, 1)).unwrap_err(), "store is full");
    assert_eq!(net.validators.get(&MOCK_KEY.to_vec()), Some(100 + MIN_WORK));
}

#[test]
fn work_proof_that_overflows_is_not_accepted() {
    let mut validators = ValidatorSet::new();
    validators.insert(vec![1], u64::MAX - 10);
    let full = Run::Redeemed { public_key: vec![1], hash: vec![2], work: 11 };
    assert!(!full.accepts(&Reply::Value(Ok(None)), &validators));
    assert!(full.accepts(&Reply::Value(Ok(Some(vec![0]))), &validators));
    let fits = Run::Redeemed { public_key: vec![1], hash: vec![2], work: 10 };
    assert!(fits.accepts(&Reply::Value(Ok(None)), &validators));
    assert!(!fits.accepts(&Reply::Work(3), &validators));
}

#[test]
fn headers_are_added_in_order() {
    let headers: Vec<BlockHeader> = (0..5).map(some_header).collect();
    let mut net = MockNet::empty();
    let action = Action::Transaction(Transaction::Header(HeaderTransaction {
        block_headers: headers.clone(),
    }));
    net.run(action).unwrap();
    assert_eq!(net.added, headers);
}

#[test]
fn headers_stop_at_the_first_refused() {
    let headers: Vec<BlockHeader> = (0..5).map(some_header).collect();
    let mut net = MockNet::empty();
    net.refused_header = Some(headers[2]);
    let action = Action::Transaction(Transaction::Header(HeaderTransaction {
        block_headers: headers.clone(),
    }));
    assert_eq!(net.run(action).unwrap_err(), "header add err: HeaderNotFound");
    assert_eq!(net.added, headers[..2].to_vec());
}

#[test]
fn no_headers() {
    let mut net = MockNet::empty();
    let action =
        Action::Transaction(Transaction::Header(HeaderTransaction { block_headers: vec![] }));
    net.run(action).unwrap();
    assert_eq!(net.requests, 0);
}

#[test]
fn signatories_stand_in_order_with_truncated_power() {
    let second = {
        let mut key = MOCK_KEY;
        key[0] = 2;
        key
    };
    let mut validators = mock_validator_set();
    validators.insert(second.to_vec(), (7 << 32) + 9);
    let set = signatories_from_validators(&validators).unwrap();
    assert_eq!(
        set.signatories,
        vec![
            Signatory { key: second.to_vec(), voting_power: 9 },
            Signatory { key: MOCK_KEY.to_vec(), voting_power: 100 },
        ]
    );
}

#[test]
fn signatories_report_the_first_invalid_key() {
    let mut validators = mock_validator_set();
    validators.insert(vec![4; 40], 1);
    validators.insert(vec![1; 20], 1);
    let error = signatories_from_validators(&validators).unwrap_err();
    let expected = bitcoin::PublicKey::from_slice(&[1; 20]).unwrap_err().to_string();
    assert_eq!(error.message(), expected);
}

#[test]
fn proofs_are_judged_by_their_root() {
    assert!(judge_proof(&[1; 32], Ok([1; 32])).is_ok());
    assert!(matches!(judge_proof(&[1; 32], Ok([2; 32])), Err(Error::MerkleRootMismatch)));
    let error = judge_proof(&[1; 32], Err("bad tree".to_string())).unwrap_err();
    assert!(matches!(error, Error::Proof(_)));
    assert_eq!(error.message(), "bad tree");
}

#[test]
fn outputs_are_judged_with_the_first_recipient() {
    let deposit = DepositTransaction {
        height: 0,
        proof: vec![],
        tx: BitcoinTransaction {
            version: 1,
            lock_time: 0,
            input: vec![],
            output: vec![TxOut { value: 1, script_pubkey: vec![1] }],
        },
        block_index: 0,
        recipients: vec![[4; 32], [5; 32]],
    };
    let set = SignatorySet { signatories: vec![] };
    let next = judge_outputs(deposit, vec![9], Ok(set));
    match next.request() {
        Some(Request::OutputScript { signatories, recipient }) => {
            assert!(signatories.signatories.is_empty());
            assert_eq!(recipient, vec![4; 32]);
        }
        _ => panic!("a proven deposit waits for its script"),
    }
    let mut validators = ValidatorSet::new();
    let marked = next.resume(Reply::Script(vec![1]), &mut validators);
    assert!(matches!(marked, Run::MarkProcessed { key } if key == vec![9]));
}

#[test]
fn validators_stand_in_ascending_order() {
    let mut validators = ValidatorSet::new();
    assert_eq!(validators.len(), 0);
    for (key, power) in [(vec![2, 1], 5), (vec![1], 6), (vec![2], 7), (vec![], 8), (vec![2, 1], 9)] {
        validators.insert(key, power);
    }
    let listed: Vec<(Vec<u8>, u64)> =
        (0..validators.len()).map(|i| (validators.key(i).clone(), validators.power(i))).collect();
    assert_eq!(listed, vec![(vec![], 8), (vec![1], 6), (vec![2], 7), (vec![2, 1], 9)]);
    assert_eq!(validators.get(&vec![2]), Some(7));
    assert_eq!(validators.get(&vec![3]), None);
}

#[test]
fn numbers_are_written_most_significant_byte_first() {
    assert_eq!(
        nomic::bytes::to_be_bytes(0x0102_0304_0506_0708),
        vec![1, 2, 3, 4, 5, 6, 7, 8]
    );
    assert_eq!(nomic::bytes::to_be_bytes(u64::MAX), vec![255; 8]);
}

#[test]
fn byte_strings_are_ordered_like_dictionaries() {
    assert!(nomic::bytes::lt(&vec![], &vec![0]));
    assert!(nomic::bytes::lt(&vec![1, 9], &vec![2]));
    assert!(!nomic::bytes::lt(&vec![1, 2], &vec![1, 2]));
    assert!(!nomic::bytes::lt(&vec![1, 2, 0], &vec![1, 2]));
    assert!(nomic::bytes::same(&[1, 2], &[1, 2]));
    assert!(!nomic::bytes::same(&[1, 2], &[1, 2, 3]));
}

#[test]
fn marks_outlast_other_runs() {
    let tx = build_tx(vec![build_txout(100_000_000, paying_script())]);
    let block = build_block(vec![tx.clone()]);
    let proof = proof_of(&block, &tx);
    let mut net = MockNet::new(block.header.clone());
    net.run(deposit(0, &proof, &tx, vec![[123; 32]])).unwrap();
    net.work = MIN_WORK;
    net.run(work_proof(&MOCK_KEY, 1)).unwrap();

    net.run(work_proof(&MOCK_KEY, 2)).unwrap();
    let headers = HeaderTransaction { block_headers: vec![some_header(1)] };
    net.run(Action::Transaction(Transaction::Header(headers))).unwrap();
    net.run(deposit(100, &proof, &build_tx(vec![]), vec![])).unwrap_err();

    let power = net.validators.get(&MOCK_KEY.to_vec());
    assert_eq!(power, Some(100 + 2 * MIN_WORK));
    let error = net.run(deposit(0, &proof, &tx, vec![[123; 32]])).unwrap_err();
    assert_eq!(error, "Transaction was already processed");
    net.run(work_proof(&MOCK_KEY, 1)).unwrap();
    assert_eq!(net.validators.get(&MOCK_KEY.to_vec()), power);
    assert_eq!(net.store.len(), 3);
}
