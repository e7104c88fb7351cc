//! The relayer: it watches the Bitcoin network and relays new block headers to
//! the peg.
use crate::blockdata::BlockHeader;
use crate::bytes::same;
use crate::primitives::HeaderTransaction;
use vstd::prelude::*;

verus! {

/// The hash of a Bitcoin block.
pub type BlockHash = [u8; 32];

/// The number of headers that one transaction relays at most.
pub const BATCH_SIZE: usize = 100;

/// What the relayer is about to do.
#[derive(Debug)]
pub enum RelayerState {
    InitializeBitcoinRpc,
    InitializePegClient,
    FetchPegBlockHashes,
    ComputeCommonAncestor { peg_block_hashes: Vec<BlockHash> },
    FetchLinkingHeaders { common_block_hash: BlockHash },
    BuildHeaderTransactions { linking_headers: Vec<BlockHeader> },
    BroadcastHeaderTransactions { header_transactions: Vec<HeaderTransaction> },
    Failure { event: RelayerEvent },
}

/// What came of it.
#[derive(Debug)]
pub enum RelayerEvent {
    InitializeBitcoinRpcSuccess,
    InitializeBitcoinRpcFailure,
    InitializePegClientSuccess,
    InitializePegClientFailure,
    FetchPegBlockHashesSuccess { peg_block_hashes: Vec<BlockHash> },
    FetchPegBlockHashesFailure,
    ComputeCommonAncestorSuccess { common_block_hash: BlockHash },
    ComputeCommonAncestorFailure,
    FetchLinkingHeadersSuccess { linking_headers: Vec<BlockHeader> },
    FetchLinkingHeadersFailure,
    BuiltHeaderTransactions { header_transactions: Vec<HeaderTransaction> },
    BroadcastHeaderTransactionsSuccess,
    BroadcastHeaderTransactionsFailure,
    Restart,
}

/// The state that `event` leads to. An event that its state does not provide
/// for is a failure.
pub open spec fn next_state(state: RelayerState, event: RelayerEvent) -> RelayerState {
    match (state, event) {
        (
            RelayerState::InitializeBitcoinRpc,
            RelayerEvent::InitializeBitcoinRpcSuccess,
        ) => RelayerState::InitializePegClient,
        (
            RelayerState::InitializePegClient,
            RelayerEvent::InitializePegClientSuccess,
        ) => RelayerState::FetchPegBlockHashes,
        (
            RelayerState::FetchPegBlockHashes,
            RelayerEvent::FetchPegBlockHashesSuccess { peg_block_hashes },
        ) => RelayerState::ComputeCommonAncestor { peg_block_hashes },
        (
            RelayerState::FetchPegBlockHashes,
            RelayerEvent::FetchPegBlockHashesFailure,
        ) => RelayerState::FetchPegBlockHashes,
        (
            RelayerState::ComputeCommonAncestor { .. },
            RelayerEvent::ComputeCommonAncestorSuccess { common_block_hash },
        ) => RelayerState::FetchLinkingHeaders { common_block_hash },
        (
            RelayerState::FetchLinkingHeaders { .. },
            RelayerEvent::FetchLinkingHeadersSuccess { linking_headers },
        ) => RelayerState::BuildHeaderTransactions { linking_headers },
        (
            RelayerState::BuildHeaderTransactions { .. },
            RelayerEvent::BuiltHeaderTransactions { header_transactions },
        ) => RelayerState::BroadcastHeaderTransactions { header_transactions },
        (
            RelayerState::BroadcastHeaderTransactions { .. },
            RelayerEvent::BroadcastHeaderTransactionsSuccess,
        ) => RelayerState::FetchPegBlockHashes,
        (
            RelayerState::BroadcastHeaderTransactions { header_transactions },
            RelayerEvent::BroadcastHeaderTransactionsFailure,
        ) => RelayerState::BroadcastHeaderTransactions { header_transactions },
        (
            RelayerState::Failure { .. },
            RelayerEvent::Restart,
        ) => RelayerState::InitializeBitcoinRpc,
        (_, event) => RelayerState::Failure { event },
    }
}

impl RelayerState {
    /// The state that `event` leads to.
    pub fn next(self, event: RelayerEvent) -> (r: Self)
        ensures
            r == next_state(self, event),
    {
        match (self, event) {
            (RelayerState::InitializeBitcoinRpc, RelayerEvent::InitializeBitcoinRpcSuccess) => {
                RelayerState::InitializePegClient
            },
            (RelayerState::InitializePegClient, RelayerEvent::InitializePegClientSuccess) => {
                RelayerState::FetchPegBlockHashes
            },
            (
                RelayerState::FetchPegBlockHashes,
                RelayerEvent::FetchPegBlockHashesSuccess { peg_block_hashes },
            ) => RelayerState::ComputeCommonAncestor { peg_block_hashes },
            (RelayerState::FetchPegBlockHashes, RelayerEvent::FetchPegBlockHashesFailure) => {
                RelayerState::FetchPegBlockHashes
            },
            (
                RelayerState::ComputeCommonAncestor { .. },
                RelayerEvent::ComputeCommonAncestorSuccess { common_block_hash },
            ) => RelayerState::FetchLinkingHeaders { common_block_hash },
            (
                RelayerState::FetchLinkingHeaders { .. },
                RelayerEvent::FetchLinkingHeadersSuccess { linking_headers },
            ) => RelayerState::BuildHeaderTransactions { linking_headers },
            (
                RelayerState::BuildHeaderTransactions { .. },
                RelayerEvent::BuiltHeaderTransactions { header_transactions },
            ) => RelayerState::BroadcastHeaderTransactions { header_transactions },
            (
                RelayerState::BroadcastHeaderTransactions { .. },
                RelayerEvent::BroadcastHeaderTransactionsSuccess,
            ) => RelayerState::FetchPegBlockHashes,
            (
                RelayerState::BroadcastHeaderTransactions { header_transactions },
                RelayerEvent::BroadcastHeaderTransactionsFailure,
            ) => RelayerState::BroadcastHeaderTransactions { header_transactions },
            // Restart loop on failure
            (RelayerState::Failure { .. }, RelayerEvent::Restart) => {
                RelayerState::InitializeBitcoinRpc
            },
            (_, event) => RelayerState::Failure { event },
        }
    }
}

/// A step of the relayer failed.
#[derive(Debug, Clone, Copy, PartialEq, Eq, Structural)]
pub struct RelayerError {}

impl RelayerError {
    pub fn new() -> (r: Self)
        ensures
            r == (RelayerError {  }),
    {
        RelayerError {  }
    }
}

/// A Bitcoin RPC call failed.
#[derive(Debug)]
pub struct RpcError {
    pub message: String,
}

/// The headers of transactions, batch by batch.
pub open spec fn transactions_view(transactions: Seq<HeaderTransaction>) -> Seq<Seq<BlockHeader>> {
    Seq::new(transactions.len(), |i: int| transactions[i].block_headers@)
}

/// `headers` in batches of [`BATCH_SIZE`], in their order; the last batch holds
/// what is left.
pub open spec fn batches(headers: Seq<BlockHeader>) -> Seq<Seq<BlockHeader>> {
    Seq::new(
        ((headers.len() + BATCH_SIZE - 1) / (BATCH_SIZE as int)) as nat,
        |i: int|
            headers.subrange(
                i * BATCH_SIZE,
                if (i + 1) * BATCH_SIZE < headers.len() {
                    (i + 1) * BATCH_SIZE
                } else {
                    headers.len() as int
                },
            ),
    )
}

/// Reverses `headers` in place.
fn reverse(headers: &mut Vec<BlockHeader>)
    ensures
        final(headers)@ == old(headers)@.reverse(),
{
    let n = headers.len();
    let mut i: usize = 0;
    let ghost all = headers@;
    while i < n / 2
        invariant
            n == headers@.len(),
            n == all.len(),
            i <= n / 2,
            forall|j: int| 0 <= j < i ==> #[trigger] headers@[j] == all[n - 1 - j],
            forall|j: int| n - i <= j < n ==> #[trigger] headers@[j] == all[n - 1 - j],
            forall|j: int| i <= j < n - i ==> #[trigger] headers@[j] == all[j],
        decreases n / 2 - i,
    {
        let a = headers[i];
        let b = headers[n - 1 - i];
        headers.set(i, b);
        headers.set(n - 1 - i, a);
        i += 1;
    }
    assert(headers@ =~= all.reverse());
}

/// Reverses `headers`, which are listed from the tip down, and makes
/// transactions of them, lowest header first.
pub fn build_header_transactions(headers: &mut Vec<BlockHeader>) -> (r: Vec<HeaderTransaction>)
    ensures
        final(headers)@ == old(headers)@.reverse(),
        transactions_view(r@) == batches(old(headers)@.reverse()),
{
    reverse(headers);
    let ghost all = headers@;
    let mut r: Vec<HeaderTransaction> = Vec::new();
    let mut at: usize = 0;
    while at < headers.len()
        invariant
            all == headers@,
            at <= all.len(),
            at == r@.len() * BATCH_SIZE || at == all.len(),
            r@.len() <= batches(all).len(),
            at < all.len() ==> r@.len() < batches(all).len(),
            at == all.len() ==> r@.len() == batches(all).len(),
            forall|j: int|
                0 <= j < r@.len() ==> (#[trigger] r@[j]).block_headers@ == batches(all)[j],
        decreases all.len() - at,
    {
        let end = if headers.len() - at > BATCH_SIZE {
            at + BATCH_SIZE
        } else {
            headers.len()
        };
        let mut block_headers: Vec<BlockHeader> = Vec::new();
        let mut i: usize = at;
        while i < end
            invariant
                at <= i <= end <= all.len(),
                all == headers@,
                block_headers@ == all.subrange(at as int, i as int),
            decreases end - i,
        {
            block_headers.push(headers[i]);
            i += 1;
            assert(block_headers@ =~= all.subrange(at as int, i as int));
        }
        assert(block_headers@ == batches(all)[r@.len() as int]);
        r.push(HeaderTransaction { block_headers });
        at = end;
    }
    assert(transactions_view(r@) =~= batches(all));
    r
}

/// The batches hold the headers in their order, each once.
pub proof fn law_batches_whole(headers: Seq<BlockHeader>)
    ensures
        batches(headers).flatten() == headers,
    decreases headers.len(),
{
    let all = batches(headers);
    if headers.len() > 0 {
        let n = all.len();
        let cut = (n - 1) * BATCH_SIZE;
        let front = headers.take(cut);
        assert(batches(front) =~= all.drop_last()) by {
            assert forall|i: int| 0 <= i < n - 1 implies batches(front)[i] == all[i] by {
                assert(batches(front)[i] =~= all[i]);
            }
        }
        law_batches_whole(front);
        all.drop_last().lemma_flatten_push(all.last());
        assert(all =~= all.drop_last().push(all.last()));
        assert(headers =~= front + all.last());
    } else {
        assert(all =~= Seq::<Seq<BlockHeader>>::empty());
        assert(all.flatten() =~= headers);
    }
}

/// No batch is empty or holds more than [`BATCH_SIZE`] headers, and only the
/// last can hold fewer.
pub proof fn law_batches_full(headers: Seq<BlockHeader>, i: int)
    requires
        0 <= i < batches(headers).len(),
    ensures
        0 < batches(headers)[i].len() <= BATCH_SIZE,
        i < batches(headers).len() - 1 ==> batches(headers)[i].len() == BATCH_SIZE,
{
}

/// The relayer's state and its connections: `R` is a connection to the full
/// node, `P` one to the peg.
#[derive(Debug)]
pub struct RelayerStateMachine<R, P> {
    pub state: RelayerState,
    pub rpc: Option<R>,
    pub peg_client: Option<P>,
}

/// What the surroundings have to do in a state.
#[derive(Debug)]
pub enum RelayerWork<'a> {
    /// Connect to the full node.
    ConnectRpc,
    /// Connect to the peg.
    ConnectPegClient,
    /// Ask the peg for the hashes of the blocks that it knows.
    FetchPegBlockHashes,
    /// Find the highest of these blocks that is in the longest chain.
    ComputeCommonAncestor { peg_block_hashes: &'a Vec<BlockHash> },
    /// Fetch the headers that connect this block to the tip.
    FetchLinkingHeaders { common_block_hash: BlockHash },
    /// Send these transactions to the peg.
    BroadcastHeaderTransactions { header_transactions: &'a Vec<HeaderTransaction> },
    /// Nothing.
    Nothing,
}

/// What came of the work.
#[derive(Debug)]
pub enum RelayerOutcome<R, P> {
    Rpc(Option<R>),
    PegClient(Option<P>),
    PegBlockHashes(Option<Vec<BlockHash>>),
    CommonAncestor(Result<BlockHash, RelayerError>),
    LinkingHeaders(Result<Vec<BlockHeader>, RpcError>),
    Broadcast(Result<(), RelayerError>),
    Nothing,
}

impl<R, P> RelayerStateMachine<R, P> {
    /// What the state asks for. Without the connection that it takes, nothing.
    pub open spec fn due(&self) -> RelayerWork<'_> {
        match self.state {
            RelayerState::InitializeBitcoinRpc => RelayerWork::ConnectRpc,
            RelayerState::InitializePegClient => RelayerWork::ConnectPegClient,
            RelayerState::FetchPegBlockHashes if self.peg_client is Some => {
                RelayerWork::FetchPegBlockHashes
            },
            RelayerState::ComputeCommonAncestor { peg_block_hashes } if self.rpc is Some => {
                RelayerWork::ComputeCommonAncestor { peg_block_hashes: &peg_block_hashes }
            },
            RelayerState::FetchLinkingHeaders { common_block_hash } if self.rpc is Some => {
                RelayerWork::FetchLinkingHeaders { common_block_hash }
            },
            RelayerState::BroadcastHeaderTransactions {
                header_transactions,
            } if self.peg_client is Some => RelayerWork::BroadcastHeaderTransactions {
                header_transactions: &header_transactions,
            },
            _ => RelayerWork::Nothing,
        }
    }

    /// Whether `outcome` is an outcome of the work that the state asks for.
    pub open spec fn awaits(&self, outcome: RelayerOutcome<R, P>) -> bool {
        match self.due() {
            RelayerWork::ConnectRpc => outcome is Rpc,
            RelayerWork::ConnectPegClient => outcome is PegClient,
            RelayerWork::FetchPegBlockHashes => outcome is PegBlockHashes,
            RelayerWork::ComputeCommonAncestor { .. } => outcome is CommonAncestor,
            RelayerWork::FetchLinkingHeaders { .. } => outcome is LinkingHeaders,
            RelayerWork::BroadcastHeaderTransactions { .. } => outcome is Broadcast,
            RelayerWork::Nothing => outcome is Nothing,
        }
    }

    /// Whether `event` is what `outcome` comes to in this state.
    pub open spec fn reports(
        &self,
        outcome: RelayerOutcome<R, P>,
        event: RelayerEvent,
    ) -> bool {
        match self.state {
            RelayerState::InitializeBitcoinRpc => event == (if outcome->Rpc_0 is Some {
                RelayerEvent::InitializeBitcoinRpcSuccess
            } else {
                RelayerEvent::InitializeBitcoinRpcFailure
            }),
            RelayerState::InitializePegClient => event == (if outcome->PegClient_0 is Some {
                RelayerEvent::InitializePegClientSuccess
            } else {
                RelayerEvent::InitializePegClientFailure
            }),
            RelayerState::FetchPegBlockHashes => event == (match outcome {
                RelayerOutcome::PegBlockHashes(Some(peg_block_hashes)) => {
                    RelayerEvent::FetchPegBlockHashesSuccess { peg_block_hashes }
                },
                _ => RelayerEvent::FetchPegBlockHashesFailure,
            }),
            RelayerState::ComputeCommonAncestor { .. } => event == (match outcome {
                RelayerOutcome::CommonAncestor(Ok(common_block_hash)) => {
                    RelayerEvent::ComputeCommonAncestorSuccess { common_block_hash }
                },
                _ => RelayerEvent::ComputeCommonAncestorFailure,
            }),
            RelayerState::FetchLinkingHeaders { .. } => event == (match outcome {
                RelayerOutcome::LinkingHeaders(Ok(linking_headers)) => {
                    RelayerEvent::FetchLinkingHeadersSuccess { linking_headers }
                },
                _ => RelayerEvent::FetchLinkingHeadersFailure,
            }),
            RelayerState::BuildHeaderTransactions { linking_headers } => {
                &&& event matches RelayerEvent::BuiltHeaderTransactions { header_transactions }
                &&& transactions_view(header_transactions@) == batches(linking_headers@.reverse())
            },
            RelayerState::BroadcastHeaderTransactions { .. } => event == (match outcome {
                RelayerOutcome::Broadcast(Ok(())) => {
                    RelayerEvent::BroadcastHeaderTransactionsSuccess
                },
                _ => RelayerEvent::BroadcastHeaderTransactionsFailure,
            }),
            RelayerState::Failure { .. } => event == RelayerEvent::Restart,
        }
    }

    /// The connection to the full node after `outcome`.
    pub open spec fn rpc_after(&self, outcome: RelayerOutcome<R, P>) -> Option<R> {
        match outcome {
            RelayerOutcome::Rpc(Some(rpc)) => Some(rpc),
            _ => self.rpc,
        }
    }

    /// The connection to the peg after `outcome`.
    pub open spec fn peg_client_after(&self, outcome: RelayerOutcome<R, P>) -> Option<P> {
        match outcome {
            RelayerOutcome::PegClient(Some(peg_client)) => Some(peg_client),
            _ => self.peg_client,
        }
    }

    /// A relayer that has yet to connect.
    pub fn new() -> (r: Self)
        ensures
            r.state == RelayerState::InitializeBitcoinRpc,
            r.rpc is None,
            r.peg_client is None,
    {
        RelayerStateMachine {
            state: RelayerState::InitializeBitcoinRpc,
            rpc: None,
            peg_client: None,
        }
    }

    /// What the state asks for.
    pub fn work(&self) -> (r: RelayerWork<'_>)
        ensures
            r == self.due(),
    {
        match &self.state {
            RelayerState::InitializeBitcoinRpc => RelayerWork::ConnectRpc,
            RelayerState::InitializePegClient => RelayerWork::ConnectPegClient,
            RelayerState::FetchPegBlockHashes => if self.peg_client.is_some() {
                RelayerWork::FetchPegBlockHashes
            } else {
                RelayerWork::Nothing
            },
            RelayerState::ComputeCommonAncestor { peg_block_hashes } => if self.rpc.is_some() {
                RelayerWork::ComputeCommonAncestor { peg_block_hashes }
            } else {
                RelayerWork::Nothing
            },
            RelayerState::FetchLinkingHeaders { common_block_hash } => if self.rpc.is_some() {
                RelayerWork::FetchLinkingHeaders { common_block_hash: *common_block_hash }
            } else {
                RelayerWork::Nothing
            },
            RelayerState::BroadcastHeaderTransactions { header_transactions } => {
                if self.peg_client.is_some() {
                    RelayerWork::BroadcastHeaderTransactions { header_transactions }
                } else {
                    RelayerWork::Nothing
                }
            },
            _ => RelayerWork::Nothing,
        }
    }

    /// Runs the state, given what came of the work that it asks for: keeps a
    /// new connection and reports the event.
    pub fn run(&mut self, outcome: RelayerOutcome<R, P>) -> (r: RelayerEvent)
        requires
            old(self).awaits(outcome),
        ensures
            old(self).reports(outcome, r),
            final(self).state == old(self).state,
            final(self).rpc == old(self).rpc_after(outcome),
            final(self).peg_client == old(self).peg_client_after(outcome),
    {
        match outcome {
            RelayerOutcome::Rpc(Some(rpc)) => {
                self.rpc = Some(rpc);
                RelayerEvent::InitializeBitcoinRpcSuccess
            },
            RelayerOutcome::Rpc(None) => RelayerEvent::InitializeBitcoinRpcFailure,
            RelayerOutcome::PegClient(Some(peg_client)) => {
                self.peg_client = Some(peg_client);
                RelayerEvent::InitializePegClientSuccess
            },
            RelayerOutcome::PegClient(None) => RelayerEvent::InitializePegClientFailure,
            RelayerOutcome::PegBlockHashes(Some(peg_block_hashes)) => {
                RelayerEvent::FetchPegBlockHashesSuccess { peg_block_hashes }
            },
            RelayerOutcome::PegBlockHashes(None) => RelayerEvent::FetchPegBlockHashesFailure,
            RelayerOutcome::CommonAncestor(Ok(common_block_hash)) => {
                RelayerEvent::ComputeCommonAncestorSuccess { common_block_hash }
            },
            RelayerOutcome::CommonAncestor(Err(_)) => RelayerEvent::ComputeCommonAncestorFailure,
            RelayerOutcome::LinkingHeaders(Ok(linking_headers)) => {
                RelayerEvent::FetchLinkingHeadersSuccess { linking_headers }
            },
            RelayerOutcome::LinkingHeaders(Err(_)) => RelayerEvent::FetchLinkingHeadersFailure,
            RelayerOutcome::Broadcast(Ok(())) => RelayerEvent::BroadcastHeaderTransactionsSuccess,
            RelayerOutcome::Broadcast(Err(_)) => RelayerEvent::BroadcastHeaderTransactionsFailure,
            RelayerOutcome::Nothing => match &self.state {
                RelayerState::FetchPegBlockHashes => RelayerEvent::FetchPegBlockHashesFailure,
                RelayerState::ComputeCommonAncestor { .. } => {
                    RelayerEvent::ComputeCommonAncestorFailure
                },
                RelayerState::FetchLinkingHeaders { .. } => {
                    RelayerEvent::FetchLinkingHeadersFailure
                },
                RelayerState::BuildHeaderTransactions { linking_headers } => {
                    let mut headers = linking_headers.clone();
                    assert(headers@ =~= linking_headers@);
                    let header_transactions = build_header_transactions(&mut headers);
                    RelayerEvent::BuiltHeaderTransactions { header_transactions }
                },
                RelayerState::BroadcastHeaderTransactions { .. } => {
                    RelayerEvent::BroadcastHeaderTransactionsFailure
                },
                _ => RelayerEvent::Restart,
            },
        }
    }

    /// Where the relayer stands after it ran its state with `outcome` and
    /// moved on with `event`.
    pub open spec fn moved(self, outcome: RelayerOutcome<R, P>, event: RelayerEvent) -> Self {
        RelayerStateMachine {
            state: next_state(self.state, event),
            rpc: self.rpc_after(outcome),
            peg_client: self.peg_client_after(outcome),
        }
    }

    /// The connections that the state takes are there.
    pub open spec fn connected(self) -> bool {
        match self.state {
            RelayerState::InitializeBitcoinRpc => true,
            RelayerState::Failure { .. } => true,
            RelayerState::InitializePegClient => self.rpc is Some,
            _ => self.rpc is Some && self.peg_client is Some,
        }
    }
}

/// A relayer that moves on from state to state always has the connections that
/// its state takes, from the start.
pub proof fn law_connected<R, P>(
    machine: RelayerStateMachine<R, P>,
    outcome: RelayerOutcome<R, P>,
    event: RelayerEvent,
)
    requires
        machine.connected(),
        machine.awaits(outcome),
        machine.reports(outcome, event),
    ensures
        machine.moved(outcome, event).connected(),
        machine.due() is Nothing ==> machine.state is BuildHeaderTransactions || machine.state
            is Failure,
{
}

/// A relayer that moves on never meets an event that its state does not
/// provide for: it enters the failure state only where connecting, finding the
/// common ancestor or fetching the linking headers failed.
pub proof fn law_failures<R, P>(
    machine: RelayerStateMachine<R, P>,
    outcome: RelayerOutcome<R, P>,
    event: RelayerEvent,
)
    requires
        machine.awaits(outcome),
        machine.reports(outcome, event),
    ensures
        machine.moved(outcome, event).state is Failure <==> {
            ||| event is InitializeBitcoinRpcFailure
            ||| event is InitializePegClientFailure
            ||| event is ComputeCommonAncestorFailure
            ||| event is FetchLinkingHeadersFailure
        },
{
}

/// The failure state keeps the last event until a restart, which begins anew.
pub proof fn law_restart(failed: RelayerEvent, event: RelayerEvent)
    ensures
        next_state(RelayerState::Failure { event: failed }, event) == (if event is Restart {
            RelayerState::InitializeBitcoinRpc
        } else {
            RelayerState::Failure { event }
        }),
{
}

/// A round without failures relays all linking headers, lowest first, in
/// batches, and comes back to where it began.
pub proof fn law_round(
    peg_block_hashes: Vec<BlockHash>,
    common_block_hash: BlockHash,
    linking_headers: Vec<BlockHeader>,
    header_transactions: Vec<HeaderTransaction>,
)
    requires
        transactions_view(header_transactions@) == batches(linking_headers@.reverse()),
    ensures
        ({
            let fetched = next_state(
                RelayerState::FetchPegBlockHashes,
                RelayerEvent::FetchPegBlockHashesSuccess { peg_block_hashes },
            );
            let found = next_state(
                fetched,
                RelayerEvent::ComputeCommonAncestorSuccess { common_block_hash },
            );
            let linked = next_state(
                found,
                RelayerEvent::FetchLinkingHeadersSuccess { linking_headers },
            );
            let built = next_state(
                linked,
                RelayerEvent::BuiltHeaderTransactions { header_transactions },
            );
            &&& fetched == RelayerState::ComputeCommonAncestor { peg_block_hashes }
            &&& found == RelayerState::FetchLinkingHeaders { common_block_hash }
            &&& linked == RelayerState::BuildHeaderTransactions { linking_headers }
            &&& built == RelayerState::BroadcastHeaderTransactions { header_transactions }
            &&& next_state(built, RelayerEvent::BroadcastHeaderTransactionsFailure) == built
            &&& next_state(built, RelayerEvent::BroadcastHeaderTransactionsSuccess)
                == RelayerState::FetchPegBlockHashes
            &&& transactions_view(header_transactions@).flatten() == linking_headers@.reverse()
        }),
{
    law_batches_whole(linking_headers@.reverse());
}

/// What the relayer does about a common ancestor before it moves on.
#[derive(Debug, Clone, Copy, PartialEq, Eq)]
pub enum TipNotice {
    /// Tell that the tip is new.
    NewTip(BlockHash),
    /// Wait before the next round.
    Wait,
}

/// The latest known tip after `event`.
pub open spec fn tip_after(latest_tip: Option<BlockHash>, event: RelayerEvent) -> Option<BlockHash> {
    match event {
        RelayerEvent::ComputeCommonAncestorSuccess { common_block_hash } => Some(common_block_hash),
        _ => latest_tip,
    }
}

/// What the relayer does about the common ancestor that `event` reports, if it
/// does: one that differs from the latest known tip is a new tip; otherwise the
/// relayer waits.
pub open spec fn tip_notice(latest_tip: Option<BlockHash>, event: RelayerEvent) -> Option<TipNotice> {
    match event {
        RelayerEvent::ComputeCommonAncestorSuccess { common_block_hash } => Some(
            if latest_tip is Some && latest_tip->0@ != common_block_hash@ {
                TipNotice::NewTip(common_block_hash)
            } else {
                TipNotice::Wait
            },
        ),
        _ => None,
    }
}

/// Takes note of the common ancestor that `event` reports, if it does.
pub fn observe_tip(latest_tip: &mut Option<BlockHash>, event: &RelayerEvent) -> (r: Option<
    TipNotice,
>)
    ensures
        *final(latest_tip) == tip_after(*old(latest_tip), *event),
        r == tip_notice(*old(latest_tip), *event),
{
    match event {
        RelayerEvent::ComputeCommonAncestorSuccess { common_block_hash } => {
            let changed = match latest_tip {
                Some(tip) => !same(tip.as_slice(), common_block_hash.as_slice()),
                None => false,
            };
            *latest_tip = Some(*common_block_hash);
            if changed {
                Some(TipNotice::NewTip(*common_block_hash))
            } else {
                Some(TipNotice::Wait)
            }
        },
        _ => None,
    }
}

} // verus!
