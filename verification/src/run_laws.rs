//! What each step of a run of the peg's state machine does, written out.
use crate::blockdata::{BitcoinTransaction, BlockHeader, EnrichedHeader};
use crate::bytes::{be_bytes, be_value, bytes_lt, law_be_bytes_value, law_be_value_determines};
use crate::chain_laws::{ended, Surroundings};
use crate::crypto::{extracted_root, parsed_public_key, sha256_digest, transaction_id};
use crate::primitives::{
    Action, ActionView, DepositTransaction, DepositView, SignatorySet, SignatoryView,
    Transaction,
};
use crate::state_machine::{
    refused_at, signatories_of, started, Error, ErrorView, Reply, ReplyView, Request,
    RequestView, Run, RunView,
};
use crate::validators::{ascending, entries_of, key_at, lemma_entries_of, powers, ValidatorSet};
use vstd::prelude::*;

verus! {

/// `entries` list `validators`: the keys ascend, and every validator stands there
/// with its voting power.
#[verifier::opaque]
pub open spec fn lists(entries: Seq<(Seq<u8>, u64)>, validators: Map<Seq<u8>, u64>) -> bool {
    &&& forall|i: int, j: int|
        0 <= i < j < entries.len() ==> bytes_lt(#[trigger] entries[i].0, #[trigger] entries[j].0)
    &&& forall|i: int|
        0 <= i < entries.len() ==> validators.contains_key(#[trigger] entries[i].0)
            && validators[entries[i].0] == entries[i].1
    &&& forall|key: Seq<u8>| #[trigger]
        validators.contains_key(key) ==> exists|i: int|
            0 <= i < entries.len() && #[trigger] entries[i].0 == key
}

/// The validators of a set are listed as it lists them.
pub proof fn law_set_listed(validators: &ValidatorSet)
    requires
        validators.wf(),
    ensures
        lists(entries_of(validators@), validators@),
{
    reveal(lists);
    validators.law_listing();
}

/// A listing of the validators is what the signatories are taken from.
proof fn lemma_lists(entries: Seq<(Seq<u8>, u64)>, validators: Map<Seq<u8>, u64>)
    requires
        lists(entries, validators),
    ensures
        entries_of(validators) == entries,
{
    reveal(lists);
    assert(ascending(entries));
    assert forall|key: Seq<u8>| #[trigger] powers(entries).contains_key(key)
        <==> validators.contains_key(key) by {
        if powers(entries).contains_key(key) {
            let i = choose|i: int| key_at(entries, key, i);
            assert(key_at(entries, key, i));
            assert(validators.contains_key(entries[i].0));
        }
        if validators.contains_key(key) {
            let i = choose|i: int| 0 <= i < entries.len() && #[trigger] entries[i].0 == key;
            assert(key_at(entries, key, i));
        }
    }
    assert forall|key: Seq<u8>| #[trigger] powers(entries).contains_key(key) implies powers(
        entries,
    )[key] == validators[key] by {
        let i = choose|i: int| key_at(entries, key, i);
        assert(key_at(entries, key, i));
        assert(validators[entries[i].0] == entries[i].1);
    }
    assert(powers(entries) =~= validators);
    lemma_entries_of(entries);
}

/// `signatories` stand for the validators in `entries`, one for each, in their
/// order: each has the validator's public key and the low 32 bits of its power.
#[verifier::opaque]
pub open spec fn stand_for(
    signatories: Seq<SignatoryView>,
    entries: Seq<(Seq<u8>, u64)>,
) -> bool {
    &&& signatories.len() == entries.len()
    &&& forall|j: int|
        0 <= j < entries.len() ==> {
            &&& parsed_public_key(entries[j].0) == Ok::<Seq<u8>, Seq<char>>(
                (#[trigger] signatories[j]).key,
            )
            &&& signatories[j].voting_power == entries[j].1 % 0x1_0000_0000
        }
}

/// Every validator is a signatory, in ascending order of the keys, with the low
/// 32 bits of its voting power, if every key is a public key.
pub proof fn law_signatories(
    signatories: Seq<SignatoryView>,
    entries: Seq<(Seq<u8>, u64)>,
    validators: Map<Seq<u8>, u64>,
)
    requires
        lists(entries, validators),
        stand_for(signatories, entries),
    ensures
        signatories_of(validators) == Ok::<Seq<SignatoryView>, ErrorView>(signatories),
{
    lemma_lists(entries, validators);
    reveal(stand_for);
    assert forall|j: int| 0 <= j < entries.len() implies parsed_public_key(
        #[trigger] entries[j].0,
    ) is Ok by {
        assert(parsed_public_key(entries[j].0) == Ok::<Seq<u8>, Seq<char>>(signatories[j].key));
    }
    let set = signatories_of(validators)->Ok_0;
    assert forall|j: int| 0 <= j < set.len() implies set[j] == signatories[j] by {
        assert(parsed_public_key(entries[j].0) == Ok::<Seq<u8>, Seq<char>>(signatories[j].key));
        assert(set[j].key == signatories[j].key);
        assert(set[j].voting_power == signatories[j].voting_power);
    }
    assert(set =~= signatories);
}

/// The first validator's key that is no public key decides the error.
pub proof fn law_signatories_refused(
    entries: Seq<(Seq<u8>, u64)>,
    i: int,
    validators: Map<Seq<u8>, u64>,
)
    requires
        lists(entries, validators),
        0 <= i < entries.len(),
        parsed_public_key(entries[i].0) is Err,
        forall|j: int| 0 <= j < i ==> parsed_public_key(#[trigger] entries[j].0) is Ok,
    ensures
        signatories_of(validators) == Err::<Seq<SignatoryView>, ErrorView>(
            ErrorView::PublicKey(parsed_public_key(entries[i].0)->Err_0),
        ),
{
    lemma_lists(entries, validators);
    assert(refused_at(entries, i));
    let k = choose|k: int| refused_at(entries, k);
    assert(refused_at(entries, k));
    assert(k == i) by {
        if k < i {
            assert(parsed_public_key(entries[k].0) is Ok);
        }
        if i < k {
            assert(parsed_public_key(entries[i].0) is Ok);
        }
    }
}

/// The hash that a work proof is measured on is the digest of the public key and
/// the nonce, written in eight bytes, the most significant first. It is the hash
/// that the work is asked of.
pub proof fn law_work_measured(public_key: Seq<u8>, nonce: u64) -> (n: Seq<u8>)
    ensures
        n.len() == 8,
        be_value(n) == nonce,
        started(ActionView::WorkProof { public_key, nonce }) == (RunView::Work {
            public_key,
            hash: sha256_digest(public_key + n),
        }),
        started(ActionView::WorkProof { public_key, nonce }).request() == Some(
            RequestView::Work { hash: sha256_digest(public_key + n) },
        ),
{
    law_be_bytes_value(nonce);
    be_bytes(nonce)
}

/// Different nonces of a public key hash different bytes.
pub proof fn law_nonces_apart(public_key: Seq<u8>, m: Seq<u8>, n: Seq<u8>)
    requires
        m.len() == 8,
        n.len() == 8,
        public_key + m == public_key + n,
    ensures
        be_value(m) == be_value(n),
{
    let k = public_key.len() as int;
    assert((public_key + m).skip(k) =~= m);
    assert((public_key + n).skip(k) =~= n);
}

/// A work proof, from its start to its end. `n` is the nonce in eight bytes. With
/// work of at least 2^20 on the digest of key and nonce, and no mark of it in the
/// store, the public key gains exactly the work, no other key gains or loses any,
/// and the digest is marked with a zero byte. Otherwise nothing changes.
pub proof fn law_work_granted(
    public_key: Seq<u8>,
    nonce: u64,
    n: Seq<u8>,
    validators: Map<Seq<u8>, u64>,
    around: Surroundings,
)
    requires
        n.len() == 8,
        be_value(n) == nonce,
    ensures
        ({
            let hash = sha256_digest(public_key + n);
            let work = (around.work)(hash);
            let power = if validators.contains_key(public_key) {
                validators[public_key] as int
            } else {
                0
            };
            let end = ended(ActionView::WorkProof { public_key, nonce }, validators, around);
            &&& end.run == (RunView::Done { result: Ok(()) })
            &&& end.around.headers == around.headers
            &&& work >= 0x10_0000 && !around.store.contains_key(hash) && power + work <= u64::MAX
                ==> {
                &&& end.validators.contains_key(public_key)
                &&& end.validators[public_key] == power + work
                &&& end.validators.dom() == validators.dom().insert(public_key)
                &&& forall|key: Seq<u8>|
                    key != public_key && #[trigger] validators.contains_key(key)
                        ==> end.validators[key] == validators[key]
                &&& end.around.store == around.store.insert(hash, seq![0u8])
            }
            &&& work < 0x10_0000 || around.store.contains_key(hash) ==> {
                &&& end.validators == validators
                &&& end.around.store == around.store
            }
        }),
{
    law_be_bytes_value(nonce);
    law_be_value_determines(n, be_bytes(nonce));
    reveal_with_fuel(crate::chain_laws::Stage::steps, 4);
}

/// The steps of a work proof, whatever the surroundings answer. A read that
/// failed counts as an absent mark; a write that failed is reported, after the
/// power was granted.
pub proof fn law_work_steps(
    public_key: Seq<u8>,
    hash: Seq<u8>,
    work: u64,
    value: Result<Option<Seq<u8>>, Seq<char>>,
    written: Result<(), Seq<char>>,
    validators: Map<Seq<u8>, u64>,
)
    ensures
        ({
            let asked = RunView::Work { public_key, hash };
            let found = RunView::Redeemed { public_key, hash, work };
            let redeemed = RunView::Redeem { hash };
            let power = if validators.contains_key(public_key) {
                validators[public_key] as int
            } else {
                0
            };
            &&& asked.request() == Some(RequestView::Work { hash })
            &&& asked.awaits(ReplyView::Work(work))
            &&& asked.grant_fits(ReplyView::Work(work), validators)
            &&& asked.granted(ReplyView::Work(work), validators) == validators
            &&& work >= 0x10_0000 ==> asked.resumed(ReplyView::Work(work), validators) == found
            &&& work < 0x10_0000 ==> asked.resumed(ReplyView::Work(work), validators)
                == (RunView::Done { result: Ok(()) })
            &&& found.request() == Some(RequestView::Get { key: hash })
            &&& found.awaits(ReplyView::Value(value))
            &&& match value {
                Ok(Some(_)) => {
                    &&& found.grant_fits(ReplyView::Value(value), validators)
                    &&& found.granted(ReplyView::Value(value), validators) == validators
                    &&& found.resumed(ReplyView::Value(value), validators) == (RunView::Done {
                        result: Ok(()),
                    })
                },
                _ => {
                    &&& found.grant_fits(ReplyView::Value(value), validators) <==> power + work
                        <= u64::MAX
                    &&& power + work <= u64::MAX ==> found.granted(
                        ReplyView::Value(value),
                        validators,
                    ) == validators.insert(public_key, (power + work) as u64)
                    &&& found.resumed(ReplyView::Value(value), validators) == redeemed
                },
            }
            &&& redeemed.request() == Some(RequestView::Put { key: hash, value: seq![0u8] })
            &&& redeemed.awaits(ReplyView::Put(written))
            &&& redeemed.grant_fits(ReplyView::Put(written), validators)
            &&& redeemed.granted(ReplyView::Put(written), validators) == validators
            &&& redeemed.resumed(ReplyView::Put(written), validators) == (RunView::Done {
                result: match written {
                    Ok(()) => Ok(()),
                    Err(e) => Err(ErrorView::Store(e)),
                },
            })
        }),
{
}

/// The steps of a header transaction, whatever the header cache answers: the
/// headers are handed over one by one, in their order, however many there are. The
/// first that is refused ends the run.
pub proof fn law_header_steps(
    headers: Seq<BlockHeader>,
    added: Result<(), Seq<char>>,
    validators: Map<Seq<u8>, u64>,
)
    ensures
        ({
            let run = started(ActionView::Header { block_headers: headers });
            let reply = ReplyView::HeaderAdded(added);
            &&& headers.len() == 0 ==> run == (RunView::Done { result: Ok(()) })
            &&& headers.len() > 0 ==> {
                &&& run == (RunView::AddHeaders { headers })
                &&& run.request() == Some(RequestView::AddHeader { header: headers[0] })
                &&& run.awaits(reply)
                &&& run.grant_fits(reply, validators)
                &&& run.granted(reply, validators) == validators
                &&& run.resumed(reply, validators) == match added {
                    Ok(()) => started(ActionView::Header { block_headers: headers.skip(1) }),
                    Err(e) => RunView::Done { result: Err(ErrorView::HeaderAdd(e)) },
                }
            }
        }),
{
    assert(headers.drop_first() =~= headers.skip(1)) by {
        if headers.len() == 0 {
            assert(headers.skip(1) =~= headers.drop_first());
        }
    }
}

/// The steps of genesis: the checkpoint is handed over at its height, and a
/// failure of the header cache is reported.
pub proof fn law_checkpoint_steps(
    checkpoint: EnrichedHeader,
    added: Result<(), Seq<char>>,
    validators: Map<Seq<u8>, u64>,
)
    ensures
        ({
            let run = RunView::AddCheckpoint { checkpoint };
            let reply = ReplyView::HeaderAdded(added);
            &&& run.request() == Some(
                RequestView::AddHeaderRaw { header: checkpoint.header, height: checkpoint.height },
            )
            &&& run.awaits(reply)
            &&& run.grant_fits(reply, validators)
            &&& run.granted(reply, validators) == validators
            &&& run.resumed(reply, validators) == (RunView::Done {
                result: match added {
                    Ok(()) => Ok(()),
                    Err(e) => Err(ErrorView::HeaderCache(e)),
                },
            })
        }),
{
}

/// The first steps of a deposit, whatever the surroundings answer: the mark of
/// the transaction's id is looked up, then the header at the deposit's height. A
/// mark, a missing header and a failure each end the run.
pub proof fn law_deposit_found(
    deposit: DepositView,
    value: Result<Option<Seq<u8>>, Seq<char>>,
    header: Result<Option<BlockHeader>, Seq<char>>,
    validators: Map<Seq<u8>, u64>,
)
    ensures
        ({
            let key = seq!['t' as u8, 'x' as u8, '/' as u8] + transaction_id(deposit.tx);
            let looked = RunView::Processed { deposit, key };
            let unmarked = RunView::FindHeader { deposit, key };
            &&& started(ActionView::Deposit(deposit)) == looked
            &&& looked.request() == Some(RequestView::Get { key })
            &&& looked.awaits(ReplyView::Value(value))
            &&& looked.grant_fits(ReplyView::Value(value), validators)
            &&& looked.granted(ReplyView::Value(value), validators) == validators
            &&& looked.resumed(ReplyView::Value(value), validators) == match value {
                Ok(None) => unmarked,
                Ok(Some(_)) => RunView::Done { result: Err(ErrorView::AlreadyProcessed) },
                Err(e) => RunView::Done { result: Err(ErrorView::Store(e)) },
            }
            &&& unmarked.request() == Some(RequestView::HeaderForHeight { height: deposit.height })
            &&& unmarked.awaits(ReplyView::Header(header))
            &&& unmarked.grant_fits(ReplyView::Header(header), validators)
            &&& unmarked.granted(ReplyView::Header(header), validators) == validators
            &&& match header {
                Ok(Some(_)) => true,
                Ok(None) => unmarked.resumed(ReplyView::Header(header), validators) == (
                RunView::Done { result: Err(ErrorView::MerkleRootNotFound) }),
                Err(e) => unmarked.resumed(ReplyView::Header(header), validators) == (
                RunView::Done { result: Err(ErrorView::HeaderCache(e)) }),
            }
        }),
{
}

/// A deposit whose header is there is refused if its proof is malformed, or leads
/// to another merkle root than the header's.
pub proof fn law_deposit_unproven(
    deposit: DepositView,
    key: Seq<u8>,
    header: BlockHeader,
    validators: Map<Seq<u8>, u64>,
)
    ensures
        ({
            let run = RunView::FindHeader { deposit, key };
            let next = run.resumed(ReplyView::Header(Ok(Some(header))), validators);
            match extracted_root(deposit.proof) {
                Err(e) => next == (RunView::Done { result: Err(ErrorView::Proof(e)) }),
                Ok(root) => root != header.merkle_root@ ==> next == (RunView::Done {
                    result: Err(ErrorView::MerkleRootMismatch),
                }),
            }
        }),
{
}

/// A proven deposit is refused if a validator's key is no public key. The first
/// such key decides the error.
pub proof fn law_deposit_without_signatories(
    deposit: DepositView,
    key: Seq<u8>,
    header: BlockHeader,
    entries: Seq<(Seq<u8>, u64)>,
    i: int,
    validators: Map<Seq<u8>, u64>,
)
    requires
        extracted_root(deposit.proof) == Ok::<Seq<u8>, Seq<char>>(header.merkle_root@),
        lists(entries, validators),
        0 <= i < entries.len(),
        parsed_public_key(entries[i].0) is Err,
        forall|j: int| 0 <= j < i ==> parsed_public_key(#[trigger] entries[j].0) is Ok,
    ensures
        (RunView::FindHeader { deposit, key }).resumed(
            ReplyView::Header(Ok(Some(header))),
            validators,
        ) == (RunView::Done {
            result: Err(ErrorView::PublicKey(parsed_public_key(entries[i].0)->Err_0)),
        }),
{
    law_signatories_refused(entries, i, validators);
}

/// A proven deposit, with all the signatories there, is refused if its transaction
/// has no outputs, and then if it has no recipients. Otherwise the script is asked
/// for that pays the first recipient through all the signatories, and every output
/// is kept to be held against it.
pub proof fn law_deposit_proven(
    deposit: DepositView,
    key: Seq<u8>,
    header: BlockHeader,
    entries: Seq<(Seq<u8>, u64)>,
    signatories: Seq<SignatoryView>,
    validators: Map<Seq<u8>, u64>,
)
    requires
        extracted_root(deposit.proof) == Ok::<Seq<u8>, Seq<char>>(header.merkle_root@),
        lists(entries, validators),
        stand_for(signatories, entries),
    ensures
        ({
            let run = RunView::FindHeader { deposit, key };
            let next = run.resumed(ReplyView::Header(Ok(Some(header))), validators);
            &&& deposit.tx.output.len() == 0 ==> next == (RunView::Done {
                result: Err(ErrorView::NoDepositOutputs),
            })
            &&& deposit.tx.output.len() > 0 && deposit.recipients.len() == 0 ==> next == (
            RunView::Done { result: Err(ErrorView::RecipientsConsumed) })
            &&& deposit.tx.output.len() > 0 && deposit.recipients.len() > 0 ==> next == (
            RunView::FindScript {
                signatories,
                recipient: deposit.recipients[0]@,
                output: deposit.tx.output,
                key,
            })
        }),
{
    law_signatories(signatories, entries, validators);
}

/// The last steps of a deposit, whatever the surroundings answer. The run asks for
/// the script, and goes on to mark the transaction if an output carries it, at
/// whatever position; it is refused if none does. A write that failed is
/// reported.
pub proof fn law_deposit_paid(
    run: RunView,
    script: Seq<u8>,
    written: Result<(), Seq<char>>,
    validators: Map<Seq<u8>, u64>,
)
    requires
        run is FindScript,
    ensures
        ({
            let output = run->output;
            let key = run->FindScript_key;
            let next = run.resumed(ReplyView::Script(script), validators);
            let marking = RunView::MarkProcessed { key };
            &&& run.request() == Some(
                RequestView::OutputScript {
                    signatories: run->signatories,
                    recipient: run->recipient,
                },
            )
            &&& run.awaits(ReplyView::Script(script))
            &&& run.grant_fits(ReplyView::Script(script), validators)
            &&& run.granted(ReplyView::Script(script), validators) == validators
            &&& forall|i: int|
                0 <= i < output.len() && (#[trigger] output[i]).script_pubkey == script ==> next
                    == marking
            &&& (forall|i: int|
                0 <= i < output.len() ==> (#[trigger] output[i]).script_pubkey != script) ==> next
                == (RunView::Done { result: Err(ErrorView::NoDepositOutputs) })
            &&& marking.request() == Some(RequestView::Put { key, value: Seq::<u8>::empty() })
            &&& marking.awaits(ReplyView::Put(written))
            &&& marking.grant_fits(ReplyView::Put(written), validators)
            &&& marking.granted(ReplyView::Put(written), validators) == validators
            &&& marking.resumed(ReplyView::Put(written), validators) == (RunView::Done {
                result: match written {
                    Ok(()) => Ok(()),
                    Err(e) => Err(ErrorView::Store(e)),
                },
            })
        }),
{
}

/// A deposit that is in order (its id is not marked, the header at its height is
/// known and has the merkle root that the proof leads to, every validator's key is
/// a public key, and there is a recipient) is accepted, and its id marked, if the
/// output at position `i` carries the script that pays the first recipient through
/// the signatories, however many outputs there are.
pub proof fn law_deposit_accepted(
    deposit: DepositView,
    i: int,
    entries: Seq<(Seq<u8>, u64)>,
    signatories: Seq<SignatoryView>,
    validators: Map<Seq<u8>, u64>,
    around: Surroundings,
)
    requires
        in_order(deposit, entries, signatories, validators, around),
        0 <= i < deposit.tx.output.len(),
        deposit.tx.output[i].script_pubkey == (around.script)(
            signatories,
            deposit.recipients[0]@,
        ),
    ensures
        ({
            let end = ended(ActionView::Deposit(deposit), validators, around);
            &&& end.run == (RunView::Done { result: Ok(()) })
            &&& end.validators == validators
            &&& end.around.headers == around.headers
            &&& end.around.store == around.store.insert(
                seq!['t' as u8, 'x' as u8, '/' as u8] + transaction_id(deposit.tx),
                Seq::<u8>::empty(),
            )
        }),
{
    law_signatories(signatories, entries, validators);
    reveal_with_fuel(crate::chain_laws::Stage::steps, 5);
}

/// A deposit that is in order is refused, and nothing is written, if no output
/// carries the script that pays the first recipient through the signatories.
pub proof fn law_deposit_unpaid(
    deposit: DepositView,
    entries: Seq<(Seq<u8>, u64)>,
    signatories: Seq<SignatoryView>,
    validators: Map<Seq<u8>, u64>,
    around: Surroundings,
)
    requires
        in_order(deposit, entries, signatories, validators, around),
        forall|i: int|
            0 <= i < deposit.tx.output.len() ==> (
            #[trigger] deposit.tx.output[i]).script_pubkey != (around.script)(
                signatories,
                deposit.recipients[0]@,
            ),
    ensures
        ({
            let end = ended(ActionView::Deposit(deposit), validators, around);
            &&& end.run == (RunView::Done { result: Err(ErrorView::NoDepositOutputs) })
            &&& end.validators == validators
            &&& end.around.headers == around.headers
            &&& end.around.store == around.store
        }),
{
    law_signatories(signatories, entries, validators);
    reveal_with_fuel(crate::chain_laws::Stage::steps, 5);
}

/// Nothing but its outputs can speak against the deposit. `entries` list the
/// validators, and `signatories` stand for them.
pub open spec fn in_order(
    deposit: DepositView,
    entries: Seq<(Seq<u8>, u64)>,
    signatories: Seq<SignatoryView>,
    validators: Map<Seq<u8>, u64>,
    around: Surroundings,
) -> bool {
    &&& lists(entries, validators)
    &&& stand_for(signatories, entries)
    &&& !around.store.contains_key(
        seq!['t' as u8, 'x' as u8, '/' as u8] + transaction_id(deposit.tx),
    )
    &&& around.headers.contains_key(deposit.height)
    &&& extracted_root(deposit.proof) == Ok::<Seq<u8>, Seq<char>>(
        around.headers[deposit.height].merkle_root@,
    )
    &&& deposit.recipients.len() > 0
}

/// A run that has ended asks for nothing and takes no answer.
pub proof fn law_ended_runs(result: Result<(), ErrorView>, reply: ReplyView)
    ensures
        (RunView::Done { result }).request() is None,
        !(RunView::Done { result }).awaits(reply),
{
}

/// A run takes any answer of the kind that it asks for, and no other.
pub proof fn law_replies_awaited(run: RunView, reply: ReplyView)
    ensures
        run.awaits(reply) <==> match reply {
            ReplyView::Work(_) => run is Work,
            ReplyView::Value(_) => run is Redeemed || run is Processed,
            ReplyView::Put(_) => run is Redeem || run is MarkProcessed,
            ReplyView::HeaderAdded(_) => run is AddHeaders || run is AddCheckpoint,
            ReplyView::Header(_) => run is FindHeader,
            ReplyView::Script(_) => run is FindScript,
        },
{
}

/// The texts of the errors.
pub proof fn law_messages(e: Seq<char>)
    ensures
        ErrorView::AlreadyProcessed.message() == "Transaction was already processed"@,
        ErrorView::MerkleRootNotFound.message() == "Merkle root not found for deposit transaction"@,
        ErrorView::MerkleRootMismatch.message() == "Proof merkle root does not match chain"@,
        ErrorView::RecipientsConsumed.message() == "Consumed all recipients"@,
        ErrorView::NoDepositOutputs.message()
            == "Transaction does not contain any deposit outputs"@,
        ErrorView::HeaderAdd(e).message() == "header add err: "@ + e,
        ErrorView::HeaderCache(e).message() == e,
        ErrorView::Store(e).message() == e,
        ErrorView::Proof(e).message() == e,
        ErrorView::PublicKey(e).message() == e,
{
}

/// The view of an action holds all of its transaction.
pub proof fn law_action_read(action: Action)
    ensures
        match action {
            Action::Transaction(Transaction::WorkProof(t)) => action@ == (ActionView::WorkProof {
                public_key: t.public_key@,
                nonce: t.nonce,
            }),
            Action::Transaction(Transaction::Header(t)) => action@ == (ActionView::Header {
                block_headers: t.block_headers@,
            }),
            Action::Transaction(Transaction::Deposit(t)) => action@ == ActionView::Deposit(t@),
        },
{
}

/// The view of a deposit holds all of it.
pub proof fn law_deposit_read(deposit: DepositTransaction)
    ensures
        deposit@.height == deposit.height,
        deposit@.proof == deposit.proof@,
        deposit@.tx == deposit.tx@,
        deposit@.block_index == deposit.block_index,
        deposit@.recipients == deposit.recipients@,
{
}

/// The view of a transaction holds all of it: every input and every output.
pub proof fn law_transaction_read(tx: BitcoinTransaction)
    ensures
        tx@.version == tx.version,
        tx@.lock_time == tx.lock_time,
        tx@.input.len() == tx.input@.len(),
        forall|i: int|
            0 <= i < tx.input@.len() ==> {
                &&& (#[trigger] tx@.input[i]).previous_output == tx.input@[i].previous_output
                &&& tx@.input[i].script_sig == tx.input@[i].script_sig@
                &&& tx@.input[i].sequence == tx.input@[i].sequence
            },
        tx@.output.len() == tx.output@.len(),
        forall|i: int|
            0 <= i < tx.output@.len() ==> {
                &&& (#[trigger] tx@.output[i]).value == tx.output@[i].value
                &&& tx@.output[i].script_pubkey == tx.output@[i].script_pubkey@
            },
{
}

/// The view of a signatory set holds every signatory.
pub proof fn law_signatories_read(set: SignatorySet)
    ensures
        set@.len() == set.signatories@.len(),
        forall|i: int|
            0 <= i < set@.len() ==> {
                &&& (#[trigger] set@[i]).key == set.signatories@[i].key@
                &&& set@[i].voting_power == set.signatories@[i].voting_power
            },
{
}

/// The view of a request holds all of it.
pub proof fn law_request_read(request: Request)
    ensures
        match request {
            Request::Work { hash } => request@ == (RequestView::Work { hash: hash@ }),
            Request::Get { key } => request@ == (RequestView::Get { key: key@ }),
            Request::Put { key, value } => request@ == (RequestView::Put {
                key: key@,
                value: value@,
            }),
            Request::AddHeader { header } => request@ == (RequestView::AddHeader { header }),
            Request::AddHeaderRaw { header, height } => request@ == (RequestView::AddHeaderRaw {
                header,
                height,
            }),
            Request::HeaderForHeight { height } => request@ == (RequestView::HeaderForHeight {
                height,
            }),
            Request::OutputScript { signatories, recipient } => request@ == (
            RequestView::OutputScript { signatories: signatories@, recipient: recipient@ }),
        },
{
}

/// The view of a reply holds all of it. A value that is there is there, though
/// it may be empty.
pub proof fn law_reply_read(reply: Reply)
    ensures
        match reply {
            Reply::Work(work) => reply@ == ReplyView::Work(work),
            Reply::Value(Ok(Some(value))) => reply@ == ReplyView::Value(Ok(Some(value@))),
            Reply::Value(Ok(None)) => reply@ == ReplyView::Value(Ok(None)),
            Reply::Value(Err(e)) => reply@ == ReplyView::Value(Err(e@)),
            Reply::Put(Ok(())) => reply@ == ReplyView::Put(Ok(())),
            Reply::Put(Err(e)) => reply@ == ReplyView::Put(Err(e@)),
            Reply::HeaderAdded(Ok(())) => reply@ == ReplyView::HeaderAdded(Ok(())),
            Reply::HeaderAdded(Err(e)) => reply@ == ReplyView::HeaderAdded(Err(e@)),
            Reply::Header(Ok(header)) => reply@ == ReplyView::Header(Ok(header)),
            Reply::Header(Err(e)) => reply@ == ReplyView::Header(Err(e@)),
            Reply::Script(script) => reply@ == ReplyView::Script(script@),
        },
{
}

/// The view of an error holds all of it.
pub proof fn law_error_read(error: Error)
    ensures
        match error {
            Error::AlreadyProcessed => error@ == ErrorView::AlreadyProcessed,
            Error::MerkleRootNotFound => error@ == ErrorView::MerkleRootNotFound,
            Error::MerkleRootMismatch => error@ == ErrorView::MerkleRootMismatch,
            Error::RecipientsConsumed => error@ == ErrorView::RecipientsConsumed,
            Error::NoDepositOutputs => error@ == ErrorView::NoDepositOutputs,
            Error::HeaderAdd(e) => error@ == ErrorView::HeaderAdd(e@),
            Error::HeaderCache(e) => error@ == ErrorView::HeaderCache(e@),
            Error::Store(e) => error@ == ErrorView::Store(e@),
            Error::Proof(e) => error@ == ErrorView::Proof(e@),
            Error::PublicKey(e) => error@ == ErrorView::PublicKey(e@),
        },
{
}

/// The view of a run holds all of it: the headers in the order in which they are
/// added, and every output.
pub proof fn law_run_read(run: Run)
    ensures
        match run {
            Run::Work { public_key, hash } => run@ == (RunView::Work {
                public_key: public_key@,
                hash: hash@,
            }),
            Run::Redeemed { public_key, hash, work } => run@ == (RunView::Redeemed {
                public_key: public_key@,
                hash: hash@,
                work,
            }),
            Run::Redeem { hash } => run@ == (RunView::Redeem { hash: hash@ }),
            Run::AddHeader { header, later } => {
                &&& run@ matches RunView::AddHeaders { headers }
                &&& headers.len() == later@.len() + 1
                &&& headers[0] == header
                &&& forall|i: int|
                    0 <= i < later@.len() ==> headers[later@.len() - i] == #[trigger] later@[i]
            },
            Run::AddCheckpoint { checkpoint } => run@ == (RunView::AddCheckpoint { checkpoint }),
            Run::Processed { deposit, key } => run@ == (RunView::Processed {
                deposit: deposit@,
                key: key@,
            }),
            Run::FindHeader { deposit, key } => run@ == (RunView::FindHeader {
                deposit: deposit@,
                key: key@,
            }),
            Run::FindScript { signatories, recipient, output, key } => {
                &&& run@ matches RunView::FindScript {
                    signatories: s,
                    recipient: r,
                    output: o,
                    key: k,
                }
                &&& s == signatories@
                &&& r == recipient@
                &&& k == key@
                &&& o.len() == output@.len()
                &&& forall|i: int|
                    0 <= i < o.len() ==> {
                        &&& (#[trigger] o[i]).value == output@[i].value
                        &&& o[i].script_pubkey == output@[i].script_pubkey@
                    }
            },
            Run::MarkProcessed { key } => run@ == (RunView::MarkProcessed { key: key@ }),
            Run::Done { result: Ok(()) } => run@ == (RunView::Done { result: Ok(()) }),
            Run::Done { result: Err(e) } => run@ == (RunView::Done { result: Err(e@) }),
        },
{
}

} // verus!
