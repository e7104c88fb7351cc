//! What holds of whole runs of the peg's state machine.
use crate::blockdata::{BlockHeader, EnrichedHeader};
use crate::crypto::{extracted_root, transaction_id};
use crate::primitives::{ActionView, DepositView, SignatoryView};
use crate::state_machine::{
    accepted, adding, deposit_key, pays, power_of, refused, signatories_of, started,
    work_proof_hash, ErrorView, ReplyView, RequestView, RunView, MIN_WORK,
};
use vstd::prelude::*;

verus! {

/// Surroundings whose store does not fail.
#[verifier::ext_equal]
pub ghost struct Surroundings {
    /// The work that a hash stands for.
    pub work: spec_fn(Seq<u8>) -> u64,
    /// The script that pays a recipient through signatories.
    pub script: spec_fn(Seq<SignatoryView>, Seq<u8>) -> Seq<u8>,
    /// What the header cache makes of its headers and one more.
    pub extend: spec_fn(Map<u32, BlockHeader>, BlockHeader) -> Result<
        Map<u32, BlockHeader>,
        Seq<char>,
    >,
    /// The contents of the store, apart from what the header cache keeps.
    pub store: Map<Seq<u8>, Seq<u8>>,
    /// The headers in the header cache, by height.
    pub headers: Map<u32, BlockHeader>,
}

impl Surroundings {
    /// The answer to `request`.
    pub open spec fn answer(self, request: RequestView) -> ReplyView {
        match request {
            RequestView::Work { hash } => ReplyView::Work((self.work)(hash)),
            RequestView::Get { key } => ReplyView::Value(
                Ok(
                    if self.store.contains_key(key) {
                        Some(self.store[key])
                    } else {
                        None
                    },
                ),
            ),
            RequestView::Put { .. } => ReplyView::Put(Ok(())),
            RequestView::AddHeader { header } => ReplyView::HeaderAdded(
                match (self.extend)(self.headers, header) {
                    Ok(_) => Ok(()),
                    Err(e) => Err(e),
                },
            ),
            RequestView::AddHeaderRaw { .. } => ReplyView::HeaderAdded(Ok(())),
            RequestView::HeaderForHeight { height } => ReplyView::Header(
                Ok(
                    if self.headers.contains_key(height) {
                        Some(self.headers[height])
                    } else {
                        None
                    },
                ),
            ),
            RequestView::OutputScript { signatories, recipient } => ReplyView::Script(
                (self.script)(signatories, recipient),
            ),
        }
    }

    /// The surroundings after they answered `request`.
    pub open spec fn after(self, request: RequestView) -> Self {
        match request {
            RequestView::Put { key, value } => self.stored(key, value),
            RequestView::AddHeader { header } => match (self.extend)(self.headers, header) {
                Ok(headers) => Surroundings { headers, ..self },
                Err(_) => self,
            },
            RequestView::AddHeaderRaw { header, height } => Surroundings {
                headers: self.headers.insert(height, header),
                ..self
            },
            _ => self,
        }
    }

    /// Whether the proof has enough work and has not been redeemed before.
    pub open spec fn redeems(self, public_key: Seq<u8>, nonce: u64) -> bool {
        let hash = work_proof_hash(public_key, nonce);
        (self.work)(hash) >= MIN_WORK && !self.store.contains_key(hash)
    }

    /// The surroundings with `value` stored under `key`.
    pub open spec fn stored(self, key: Seq<u8>, value: Seq<u8>) -> Self {
        Surroundings { store: self.store.insert(key, value), ..self }
    }
}

/// Where a run, the validators and the surroundings stand.
#[verifier::ext_equal]
pub ghost struct Stage {
    pub run: RunView,
    pub validators: Map<Seq<u8>, u64>,
    pub around: Surroundings,
}

impl Stage {
    /// The stage after one request has been answered.
    pub open spec fn step(self) -> Stage {
        match self.run.request() {
            None => self,
            Some(request) => {
                let reply = self.around.answer(request);
                Stage {
                    run: self.run.resumed(reply, self.validators),
                    validators: self.run.granted(reply, self.validators),
                    around: self.around.after(request),
                }
            },
        }
    }

    /// The stage after at most `n` requests have been answered.
    pub open spec fn steps(self, n: nat) -> Stage
        decreases n,
    {
        if n == 0 {
            self
        } else {
            self.step().steps((n - 1) as nat)
        }
    }
}

/// The surroundings answer what a run asks for.
pub proof fn law_answers_fit(run: RunView, around: Surroundings)
    requires
        run.request() is Some,
    ensures
        run.awaits(around.answer(run.request()->0)),
{
}

/// The number of requests that a run of `action` makes at most.
pub open spec fn requests_of(action: ActionView) -> nat {
    match action {
        ActionView::WorkProof { .. } => 3,
        ActionView::Header { block_headers } => block_headers.len(),
        ActionView::Deposit(_) => 4,
    }
}

/// Where a run of `action` ends.
pub open spec fn ended(
    action: ActionView,
    validators: Map<Seq<u8>, u64>,
    around: Surroundings,
) -> Stage {
    Stage { run: started(action), validators, around }.steps(requests_of(action))
}

/// A work proof is redeemed, if its work is enough and it has not been redeemed
/// before: its public key gains exactly the work, and the hash is stored.
/// Otherwise nothing changes. It is accepted either way.
pub proof fn law_work_proof(
    public_key: Seq<u8>,
    nonce: u64,
    validators: Map<Seq<u8>, u64>,
    around: Surroundings,
)
    requires
        around.redeems(public_key, nonce) ==> power_of(validators, public_key) + (around.work)(
            work_proof_hash(public_key, nonce),
        ) <= u64::MAX,
    ensures
        ({
            let hash = work_proof_hash(public_key, nonce);
            let work = (around.work)(hash);
            let end = ended(ActionView::WorkProof { public_key, nonce }, validators, around);
            &&& end.run == accepted()
            &&& if around.redeems(public_key, nonce) {
                &&& end.validators == validators.insert(
                    public_key,
                    (power_of(validators, public_key) + work) as u64,
                )
                &&& end.around == around.stored(hash, seq![0u8])
            } else {
                &&& end.validators == validators
                &&& end.around == around
            }
        }),
{
    reveal_with_fuel(Stage::steps, 4);
}

/// Steps never take a key out of the store, and leave the work of every hash as
/// it is.
proof fn lemma_steps_keep(stage: Stage, n: nat)
    ensures
        forall|key: Seq<u8>| #[trigger]
            stage.around.store.contains_key(key) ==> stage.steps(n).around.store.contains_key(key),
        stage.steps(n).around.work == stage.around.work,
    decreases n,
{
    if n > 0 {
        lemma_steps_keep(stage.step(), (n - 1) as nat);
        assert forall|key: Seq<u8>| #[trigger] stage.around.store.contains_key(key) implies stage.steps(
            n,
        ).around.store.contains_key(key) by {
            assert(stage.step().around.store.contains_key(key));
        }
    }
}

/// What is stored stays stored over a run.
pub proof fn law_marks_stay(
    action: ActionView,
    validators: Map<Seq<u8>, u64>,
    around: Surroundings,
    key: Seq<u8>,
)
    requires
        around.store.contains_key(key),
    ensures
        ended(action, validators, around).around.store.contains_key(key),
{
    lemma_steps_keep(Stage { run: started(action), validators, around }, requests_of(action));
}

/// The validators and the surroundings after runs of `actions`, one after the
/// other.
pub open spec fn ended_all(
    actions: Seq<ActionView>,
    validators: Map<Seq<u8>, u64>,
    around: Surroundings,
) -> (Map<Seq<u8>, u64>, Surroundings)
    decreases actions.len(),
{
    if actions.len() == 0 {
        (validators, around)
    } else {
        let (before, stage) = ended_all(actions.drop_last(), validators, around);
        let end = ended(actions.last(), before, stage);
        (end.validators, end.around)
    }
}

/// The work of every hash stays as it is over any sequence of runs.
proof fn lemma_work_stays(
    actions: Seq<ActionView>,
    validators: Map<Seq<u8>, u64>,
    around: Surroundings,
)
    ensures
        ended_all(actions, validators, around).1.work == around.work,
    decreases actions.len(),
{
    if actions.len() > 0 {
        lemma_work_stays(actions.drop_last(), validators, around);
        let (validators, around) = ended_all(actions.drop_last(), validators, around);
        let action = actions.last();
        lemma_steps_keep(Stage { run: started(action), validators, around }, requests_of(action));
    }
}

/// What is stored stays stored over any sequence of runs.
pub proof fn law_marks_stay_over_runs(
    actions: Seq<ActionView>,
    validators: Map<Seq<u8>, u64>,
    around: Surroundings,
    key: Seq<u8>,
)
    requires
        around.store.contains_key(key),
    ensures
        ended_all(actions, validators, around).1.store.contains_key(key),
    decreases actions.len(),
{
    if actions.len() > 0 {
        law_marks_stay_over_runs(actions.drop_last(), validators, around, key);
        let (before, stage) = ended_all(actions.drop_last(), validators, around);
        law_marks_stay(actions.last(), before, stage, key);
    }
}

/// A proof cannot be replayed: after a run of it, and after any runs since,
/// another run of the same proof is accepted, grants nothing and writes nothing.
pub proof fn law_work_proof_not_replayed(
    public_key: Seq<u8>,
    nonce: u64,
    validators: Map<Seq<u8>, u64>,
    around: Surroundings,
    since: Seq<ActionView>,
)
    requires
        around.redeems(public_key, nonce) ==> power_of(validators, public_key) + (around.work)(
            work_proof_hash(public_key, nonce),
        ) <= u64::MAX,
    ensures
        ({
            let action = ActionView::WorkProof { public_key, nonce };
            let once = ended(action, validators, around);
            let (later_validators, later) = ended_all(since, once.validators, once.around);
            let twice = ended(action, later_validators, later);
            &&& twice.run == accepted()
            &&& twice.validators == later_validators
            &&& twice.around == later
        }),
{
    let action = ActionView::WorkProof { public_key, nonce };
    let hash = work_proof_hash(public_key, nonce);
    law_work_proof(public_key, nonce, validators, around);
    let once = ended(action, validators, around);
    lemma_work_stays(since, once.validators, once.around);
    if (around.work)(hash) >= MIN_WORK {
        assert(once.around.store.contains_key(hash));
        law_marks_stay_over_runs(since, once.validators, once.around, hash);
    }
    let (later_validators, later) = ended_all(since, once.validators, once.around);
    law_work_proof(public_key, nonce, later_validators, later);
}

/// No step of a run takes voting power away, and only the public key of the
/// proof that is being redeemed can gain some.
pub proof fn law_power_only_granted(
    run: RunView,
    reply: ReplyView,
    validators: Map<Seq<u8>, u64>,
    key: Seq<u8>,
)
    requires
        run.awaits(reply),
        run.grant_fits(reply, validators),
    ensures
        power_of(run.granted(reply, validators), key) >= power_of(validators, key),
        power_of(run.granted(reply, validators), key) != power_of(validators, key) ==> {
            &&& run is Redeemed
            &&& run->Redeemed_public_key == key
        },
{
}

/// Why a deposit is refused, if it is: the first of these that holds.
pub open spec fn deposit_refusal(
    deposit: DepositView,
    validators: Map<Seq<u8>, u64>,
    around: Surroundings,
) -> Option<ErrorView> {
    if around.store.contains_key(deposit_key(transaction_id(deposit.tx))) {
        Some(ErrorView::AlreadyProcessed)
    } else if !around.headers.contains_key(deposit.height) {
        Some(ErrorView::MerkleRootNotFound)
    } else if extracted_root(deposit.proof) is Err {
        Some(ErrorView::Proof(extracted_root(deposit.proof)->Err_0))
    } else if extracted_root(deposit.proof)->Ok_0 != around.headers[deposit.height].merkle_root@ {
        Some(ErrorView::MerkleRootMismatch)
    } else if signatories_of(validators) is Err {
        Some(signatories_of(validators)->Err_0)
    } else if deposit.tx.output.len() == 0 {
        Some(ErrorView::NoDepositOutputs)
    } else if deposit.recipients.len() == 0 {
        Some(ErrorView::RecipientsConsumed)
    } else if !pays(
        deposit.tx.output,
        (around.script)(signatories_of(validators)->Ok_0, deposit.recipients[0]@),
    ) {
        Some(ErrorView::NoDepositOutputs)
    } else {
        None
    }
}

/// A deposit is accepted exactly if nothing speaks against it, and is then
/// marked as processed. A refused deposit writes nothing. The validators stay
/// as they are either way.
pub proof fn law_deposit(
    deposit: DepositView,
    validators: Map<Seq<u8>, u64>,
    around: Surroundings,
)
    ensures
        ({
            let end = ended(ActionView::Deposit(deposit), validators, around);
            &&& end.validators == validators
            &&& match deposit_refusal(deposit, validators, around) {
                Some(e) => end.run == refused(e) && end.around == around,
                None => {
                    &&& end.run == accepted()
                    &&& end.around == around.stored(
                        deposit_key(transaction_id(deposit.tx)),
                        Seq::<u8>::empty(),
                    )
                },
            }
        }),
{
    reveal_with_fuel(Stage::steps, 5);
}

/// A transaction is deposited once: after an accepted deposit, and after any
/// runs since, every deposit of a transaction with the same id is refused and
/// writes nothing.
pub proof fn law_deposit_once(
    deposit: DepositView,
    again: DepositView,
    validators: Map<Seq<u8>, u64>,
    around: Surroundings,
    since: Seq<ActionView>,
)
    requires
        deposit_refusal(deposit, validators, around) is None,
        transaction_id(again.tx) == transaction_id(deposit.tx),
    ensures
        ({
            let once = ended(ActionView::Deposit(deposit), validators, around);
            let (later_validators, later) = ended_all(since, once.validators, once.around);
            let twice = ended(ActionView::Deposit(again), later_validators, later);
            &&& twice.run == refused(ErrorView::AlreadyProcessed)
            &&& twice.validators == later_validators
            &&& twice.around == later
        }),
{
    law_deposit(deposit, validators, around);
    let once = ended(ActionView::Deposit(deposit), validators, around);
    let key = deposit_key(transaction_id(deposit.tx));
    assert(once.around.store.contains_key(key));
    law_marks_stay_over_runs(since, once.validators, once.around, key);
    let (later_validators, later) = ended_all(since, once.validators, once.around);
    law_deposit(again, later_validators, later);
}

/// The marks of redeemed proofs and of processed transactions do not get in
/// each other's way: a hash of 32 bytes is never the key of a transaction with
/// an id of 32 bytes, and different ids have different keys.
pub proof fn law_store_keys(hash: Seq<u8>, txid: Seq<u8>, other: Seq<u8>)
    requires
        hash.len() == 32,
        txid.len() == 32,
        other.len() == 32,
    ensures
        hash != deposit_key(txid),
        deposit_key(txid) == deposit_key(other) ==> txid == other,
{
    assert(deposit_key(txid).len() == 35);
    assert(deposit_key(txid).skip(3) =~= txid);
    assert(deposit_key(other).skip(3) =~= other);
}

/// What the header cache makes of `headers`, one after the other: what it
/// ends up with, and what is wrong with the first header that it refuses.
pub open spec fn extended(around: Surroundings, headers: Seq<BlockHeader>) -> (
    Map<u32, BlockHeader>,
    Option<Seq<char>>,
)
    decreases headers.len(),
{
    if headers.len() == 0 {
        (around.headers, None)
    } else {
        match (around.extend)(around.headers, headers[0]) {
            Err(e) => (around.headers, Some(e)),
            Ok(more) => extended(Surroundings { headers: more, ..around }, headers.drop_first()),
        }
    }
}

/// A run that has ended stays where it is.
proof fn lemma_steps_done(stage: Stage, n: nat)
    requires
        stage.run is Done,
    ensures
        stage.steps(n) == stage,
    decreases n,
{
    if n > 0 {
        lemma_steps_done(stage, (n - 1) as nat);
    }
}

/// The headers of a transaction are added in their order, up to the first that
/// the header cache refuses. Nothing else changes.
pub proof fn law_headers(
    block_headers: Seq<BlockHeader>,
    validators: Map<Seq<u8>, u64>,
    around: Surroundings,
)
    ensures
        ({
            let end = ended(ActionView::Header { block_headers }, validators, around);
            let (headers, refusal) = extended(around, block_headers);
            &&& end.validators == validators
            &&& end.around == Surroundings { headers, ..around }
            &&& end.run == match refusal {
                None => accepted(),
                Some(e) => refused(ErrorView::HeaderAdd(e)),
            }
        }),
    decreases block_headers.len(),
{
    let first = Stage { run: adding(block_headers), validators, around };
    if block_headers.len() > 0 {
        let n = (block_headers.len() - 1) as nat;
        match (around.extend)(around.headers, block_headers[0]) {
            Err(e) => {
                lemma_steps_done(first.step(), n);
            },
            Ok(more) => {
                let rest = Surroundings { headers: more, ..around };
                law_headers(block_headers.drop_first(), validators, rest);
            },
        }
    }
}

/// After genesis the header cache has the checkpoint at its height.
pub proof fn law_initialized(
    checkpoint: EnrichedHeader,
    validators: Map<Seq<u8>, u64>,
    around: Surroundings,
)
    ensures
        ({
            let run = RunView::AddCheckpoint { checkpoint };
            let end = Stage { run, validators, around }.steps(1);
            let request = RequestView::HeaderForHeight { height: checkpoint.height };
            &&& end.run == accepted()
            &&& end.validators == validators
            &&& end.around.answer(request) == ReplyView::Header(Ok(Some(checkpoint.header)))
        }),
{
    reveal_with_fuel(Stage::steps, 2);
}

} // verus!
