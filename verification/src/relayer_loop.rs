//! The rounds of the relayer.
//!
//! A round does the work that the state asks for, reports the event, takes note
//! of the tip and moves on. The rounds never end: a failure leads back to the
//! start.
use crate::relayer::{
    law_connected, next_state, observe_tip, tip_after, tip_notice, BlockHash, RelayerError, RelayerEvent,
    RelayerOutcome, RelayerState, RelayerStateMachine, RelayerWork, TipNotice,
};
use vstd::prelude::*;

verus! {

/// The seconds that the relayer waits on [`TipNotice::Wait`].
pub const WAIT_SECONDS: u64 = 10;

/// A relayer between two rounds.
#[derive(Debug)]
pub struct Relayer<R, P> {
    pub machine: RelayerStateMachine<R, P>,
    /// The latest common ancestor that was found.
    pub latest_tip: Option<BlockHash>,
}

impl<R, P> Relayer<R, P> {
    /// A relayer before its first round.
    pub open spec fn started() -> Self {
        Relayer {
            machine: RelayerStateMachine {
                state: RelayerState::InitializeBitcoinRpc,
                rpc: None,
                peg_client: None,
            },
            latest_tip: None,
        }
    }

    /// The relayer after a round in which the work came to `outcome` and
    /// `event` was reported.
    pub open spec fn after(self, outcome: RelayerOutcome<R, P>, event: RelayerEvent) -> Self {
        Relayer {
            machine: self.machine.moved(outcome, event),
            latest_tip: tip_after(self.latest_tip, event),
        }
    }

    /// What the relayer has to do before it can go on.
    pub fn work(&self) -> (r: RelayerWork<'_>)
        ensures
            r == self.machine.due(),
    {
        self.machine.work()
    }

    /// One round, given what came of the work that the state asks for: the
    /// event that is reported is applied once, and the tip is taken note of.
    pub fn round(self, outcome: RelayerOutcome<R, P>) -> (r: (Self, Option<TipNotice>))
        requires
            self.machine.awaits(outcome),
        ensures
            exists|event: RelayerEvent|
                {
                    &&& #[trigger] self.machine.reports(outcome, event)
                    &&& r.0 == self.after(outcome, event)
                    &&& r.1 == tip_notice(self.latest_tip, event)
                },
    {
        let Relayer { mut machine, mut latest_tip } = self;
        let event = machine.run(outcome);
        let notice = observe_tip(&mut latest_tip, &event);
        let RelayerStateMachine { state, rpc, peg_client } = machine;
        let next = Relayer {
            machine: RelayerStateMachine { state: state.next(event), rpc, peg_client },
            latest_tip,
        };
        assert(self.machine.reports(outcome, event));
        assert(next == self.after(outcome, event));
        (next, notice)
    }
}

/// Starts the relayer.
pub fn start<R, P>() -> (r: Relayer<R, P>)
    ensures
        r == Relayer::<R, P>::started(),
{
    Relayer { machine: RelayerStateMachine::new(), latest_tip: None }
}

/// Rounds of a relayer, one after the other.
pub ghost struct Rounds<R, P> {
    /// The relayer before each round, and after the last.
    pub stages: Seq<Relayer<R, P>>,
    /// What the work of each round came to.
    pub outcomes: Seq<RelayerOutcome<R, P>>,
    /// The event that each round reported.
    pub events: Seq<RelayerEvent>,
    /// What each round did about the tip.
    pub notices: Seq<Option<TipNotice>>,
}

impl<R, P> Rounds<R, P> {
    /// The relayer starts, and each round takes the relayer before it to the
    /// relayer after it.
    pub open spec fn valid(self) -> bool {
        let n = self.events.len();
        &&& self.stages.len() == n + 1
        &&& self.outcomes.len() == n
        &&& self.notices.len() == n
        &&& self.stages[0] == Relayer::<R, P>::started()
        &&& forall|k: int| 0 <= k < n ==> #[trigger] self.is_round(k)
    }

    /// Round `k` is what [`Relayer::round`] does.
    pub open spec fn is_round(self, k: int) -> bool {
        let before = self.stages[k];
        &&& before.machine.awaits(self.outcomes[k])
        &&& before.machine.reports(self.outcomes[k], self.events[k])
        &&& self.stages[k + 1] == before.after(self.outcomes[k], self.events[k])
        &&& self.notices[k] == tip_notice(before.latest_tip, self.events[k])
    }
}

/// The state that `events` lead to, from the start, each applied once and in
/// their order.
pub open spec fn state_after(events: Seq<RelayerEvent>) -> RelayerState
    decreases events.len(),
{
    if events.len() == 0 {
        RelayerState::InitializeBitcoinRpc
    } else {
        next_state(state_after(events.drop_last()), events.last())
    }
}

/// The common ancestor that the last of `events` to report one reports.
pub open spec fn last_tip(events: Seq<RelayerEvent>) -> Option<BlockHash>
    decreases events.len(),
{
    if events.len() == 0 {
        None
    } else {
        match events.last() {
            RelayerEvent::ComputeCommonAncestorSuccess { common_block_hash } => Some(
                common_block_hash,
            ),
            _ => last_tip(events.drop_last()),
        }
    }
}

/// After any number of rounds the state is the one that the reported events lead
/// to, each applied once and in their order. The connections that the state
/// takes are there, and the latest known tip is the common ancestor that was
/// reported last.
pub proof fn law_rounds<R, P>(rounds: Rounds<R, P>, n: int)
    requires
        rounds.valid(),
        0 <= n <= rounds.events.len(),
    ensures
        rounds.stages[n].machine.state == state_after(rounds.events.take(n)),
        rounds.stages[n].machine.connected(),
        rounds.stages[n].latest_tip == last_tip(rounds.events.take(n)),
    decreases n,
{
    if n > 0 {
        let k = n - 1;
        law_rounds(rounds, k);
        assert(rounds.is_round(k));
        assert(rounds.events.take(n).drop_last() =~= rounds.events.take(k));
        assert(rounds.events.take(n).last() == rounds.events[k]);
        law_connected(rounds.stages[k].machine, rounds.outcomes[k], rounds.events[k]);
    }
}

/// A round waits exactly if it finds a common ancestor that is the first or the
/// same as the one found last. It tells of a new tip exactly if it finds another
/// one. The one it finds is then the latest known tip; a round that finds none
/// does neither and leaves the latest known tip as it was.
pub proof fn law_waits<R, P>(rounds: Rounds<R, P>, k: int)
    requires
        rounds.valid(),
        0 <= k < rounds.events.len(),
    ensures
        ({
            let before = last_tip(rounds.events.take(k));
            match rounds.events[k] {
                RelayerEvent::ComputeCommonAncestorSuccess { common_block_hash } => {
                    &&& rounds.notices[k] == Some(TipNotice::Wait) <==> before is None
                        || before->0@ == common_block_hash@
                    &&& rounds.notices[k] == Some(TipNotice::NewTip(common_block_hash)) <==> before
                        is Some && before->0@ != common_block_hash@
                    &&& rounds.stages[k + 1].latest_tip == Some(common_block_hash)
                },
                _ => {
                    &&& rounds.notices[k] is None
                    &&& rounds.stages[k + 1].latest_tip == before
                },
            }
        }),
{
    law_rounds(rounds, k);
    assert(rounds.is_round(k));
}

/// No failure ends the rounds: there is an outcome that any state goes on with,
/// and the round after a failure starts anew.
pub proof fn law_goes_on<R, P>(rounds: Rounds<R, P>, n: int)
    requires
        rounds.valid(),
        0 <= n <= rounds.events.len(),
    ensures
        exists|outcome: RelayerOutcome<R, P>| rounds.stages[n].machine.awaits(outcome),
        n < rounds.events.len() && rounds.stages[n].machine.state is Failure ==> {
            &&& rounds.events[n] == RelayerEvent::Restart
            &&& rounds.stages[n + 1].machine.state == RelayerState::InitializeBitcoinRpc
        },
{
    let machine = rounds.stages[n].machine;
    let outcome: RelayerOutcome<R, P> = match machine.due() {
        RelayerWork::ConnectRpc => RelayerOutcome::Rpc(None),
        RelayerWork::ConnectPegClient => RelayerOutcome::PegClient(None),
        RelayerWork::FetchPegBlockHashes => RelayerOutcome::PegBlockHashes(None),
        RelayerWork::ComputeCommonAncestor { .. } => RelayerOutcome::CommonAncestor(
            Err(RelayerError {  }),
        ),
        RelayerWork::FetchLinkingHeaders { .. } => RelayerOutcome::LinkingHeaders(arbitrary()),
        RelayerWork::BroadcastHeaderTransactions { .. } => RelayerOutcome::Broadcast(Ok(())),
        RelayerWork::Nothing => RelayerOutcome::Nothing,
    };
    assert(machine.awaits(outcome));
    if n < rounds.events.len() {
        assert(rounds.is_round(n));
    }
}

} // verus!
