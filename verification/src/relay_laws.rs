//! What each step of the relayer does, written out.
use crate::blockdata::BlockHeader;
use crate::primitives::HeaderTransaction;
use crate::relayer::{
    batches, law_batches_full, next_state, tip_after, tip_notice,
    transactions_view, BlockHash, RelayerError, RelayerEvent, RelayerOutcome, RelayerState,
    RelayerStateMachine, RelayerWork, RpcError, TipNotice,
};
use crate::relayer_loop::Relayer;
use crate::sync::{
    response_view, searching, AncestorSearch, AncestorView, BlockHeaderInfo, LinkingReply,
    LinkingReplyView, LinkingRequest, LinkingSearch, LinkingView,
};
use vstd::prelude::*;

verus! {

/// The transitions that go on: each state with the events that it provides for.
pub proof fn law_transitions(
    hashes: Vec<BlockHash>,
    hash: BlockHash,
    headers: Vec<BlockHeader>,
    transactions: Vec<HeaderTransaction>,
    failed: RelayerEvent,
)
    ensures
        next_state(
            RelayerState::InitializeBitcoinRpc,
            RelayerEvent::InitializeBitcoinRpcSuccess,
        ) == RelayerState::InitializePegClient,
        next_state(
            RelayerState::InitializePegClient,
            RelayerEvent::InitializePegClientSuccess,
        ) == RelayerState::FetchPegBlockHashes,
        next_state(
            RelayerState::FetchPegBlockHashes,
            RelayerEvent::FetchPegBlockHashesSuccess { peg_block_hashes: hashes },
        ) == (RelayerState::ComputeCommonAncestor { peg_block_hashes: hashes }),
        next_state(
            RelayerState::FetchPegBlockHashes,
            RelayerEvent::FetchPegBlockHashesFailure,
        ) == RelayerState::FetchPegBlockHashes,
        next_state(
            RelayerState::ComputeCommonAncestor { peg_block_hashes: hashes },
            RelayerEvent::ComputeCommonAncestorSuccess { common_block_hash: hash },
        ) == (RelayerState::FetchLinkingHeaders { common_block_hash: hash }),
        next_state(
            RelayerState::FetchLinkingHeaders { common_block_hash: hash },
            RelayerEvent::FetchLinkingHeadersSuccess { linking_headers: headers },
        ) == (RelayerState::BuildHeaderTransactions { linking_headers: headers }),
        next_state(
            RelayerState::BuildHeaderTransactions { linking_headers: headers },
            RelayerEvent::BuiltHeaderTransactions { header_transactions: transactions },
        ) == (RelayerState::BroadcastHeaderTransactions { header_transactions: transactions }),
        next_state(
            RelayerState::BroadcastHeaderTransactions { header_transactions: transactions },
            RelayerEvent::BroadcastHeaderTransactionsSuccess,
        ) == RelayerState::FetchPegBlockHashes,
        next_state(
            RelayerState::BroadcastHeaderTransactions { header_transactions: transactions },
            RelayerEvent::BroadcastHeaderTransactionsFailure,
        ) == (RelayerState::BroadcastHeaderTransactions { header_transactions: transactions }),
        next_state(
            RelayerState::Failure { event: failed },
            RelayerEvent::Restart,
        ) == RelayerState::InitializeBitcoinRpc,
{
}

/// Whether `state` provides for `event`.
pub open spec fn provides_for(state: RelayerState, event: RelayerEvent) -> bool {
    match state {
        RelayerState::InitializeBitcoinRpc => event is InitializeBitcoinRpcSuccess,
        RelayerState::InitializePegClient => event is InitializePegClientSuccess,
        RelayerState::FetchPegBlockHashes => event is FetchPegBlockHashesSuccess || event
            is FetchPegBlockHashesFailure,
        RelayerState::ComputeCommonAncestor { .. } => event is ComputeCommonAncestorSuccess,
        RelayerState::FetchLinkingHeaders { .. } => event is FetchLinkingHeadersSuccess,
        RelayerState::BuildHeaderTransactions { .. } => event is BuiltHeaderTransactions,
        RelayerState::BroadcastHeaderTransactions { .. } => event
            is BroadcastHeaderTransactionsSuccess || event is BroadcastHeaderTransactionsFailure,
        RelayerState::Failure { .. } => event is Restart,
    }
}

/// Every other event is a failure, and is kept.
pub proof fn law_other_events_fail(state: RelayerState, event: RelayerEvent)
    requires
        !provides_for(state, event),
    ensures
        next_state(state, event) == (RelayerState::Failure { event }),
{
}

/// The work that each state asks for. Work that takes a connection is asked for
/// exactly if the connection is there.
pub proof fn law_work_due<R, P>(machine: RelayerStateMachine<R, P>)
    ensures
        match machine.state {
            RelayerState::InitializeBitcoinRpc => machine.due() == RelayerWork::ConnectRpc,
            RelayerState::InitializePegClient => machine.due() == RelayerWork::ConnectPegClient,
            RelayerState::FetchPegBlockHashes => {
                &&& machine.peg_client is Some ==> machine.due() == RelayerWork::FetchPegBlockHashes
                &&& machine.peg_client is None ==> machine.due() == RelayerWork::Nothing
            },
            RelayerState::ComputeCommonAncestor { peg_block_hashes } => {
                &&& machine.rpc is Some ==> machine.due() == (RelayerWork::ComputeCommonAncestor {
                    peg_block_hashes: &peg_block_hashes,
                })
                &&& machine.rpc is None ==> machine.due() == RelayerWork::Nothing
            },
            RelayerState::FetchLinkingHeaders { common_block_hash } => {
                &&& machine.rpc is Some ==> machine.due() == (RelayerWork::FetchLinkingHeaders {
                    common_block_hash,
                })
                &&& machine.rpc is None ==> machine.due() == RelayerWork::Nothing
            },
            RelayerState::BuildHeaderTransactions { .. } => machine.due() == RelayerWork::Nothing,
            RelayerState::BroadcastHeaderTransactions { header_transactions } => {
                &&& machine.peg_client is Some ==> machine.due() == (
                RelayerWork::BroadcastHeaderTransactions {
                    header_transactions: &header_transactions,
                })
                &&& machine.peg_client is None ==> machine.due() == RelayerWork::Nothing
            },
            RelayerState::Failure { .. } => machine.due() == RelayerWork::Nothing,
        },
{
}

/// Every outcome of the work that is due is taken, whatever it holds.
pub proof fn law_outcomes_taken<R, P>(
    machine: RelayerStateMachine<R, P>,
    outcome: RelayerOutcome<R, P>,
)
    ensures
        machine.awaits(outcome) <==> match outcome {
            RelayerOutcome::Rpc(_) => machine.state is InitializeBitcoinRpc,
            RelayerOutcome::PegClient(_) => machine.state is InitializePegClient,
            RelayerOutcome::PegBlockHashes(_) => machine.state is FetchPegBlockHashes
                && machine.peg_client is Some,
            RelayerOutcome::CommonAncestor(_) => machine.state is ComputeCommonAncestor
                && machine.rpc is Some,
            RelayerOutcome::LinkingHeaders(_) => machine.state is FetchLinkingHeaders
                && machine.rpc is Some,
            RelayerOutcome::Broadcast(_) => machine.state is BroadcastHeaderTransactions
                && machine.peg_client is Some,
            RelayerOutcome::Nothing => {
                ||| machine.state is BuildHeaderTransactions
                ||| machine.state is Failure
                ||| (machine.state is ComputeCommonAncestor || machine.state is FetchLinkingHeaders)
                    && machine.rpc is None
                ||| (machine.state is FetchPegBlockHashes || machine.state
                    is BroadcastHeaderTransactions) && machine.peg_client is None
            },
        },
{
}

/// Where a round leads, by what the work came to. What succeeded moves the
/// relayer on with what was found, though it be nothing: no block hashes, no
/// linking headers. Connections are kept but for a new one.
pub proof fn law_outcomes<R, P>(
    machine: RelayerStateMachine<R, P>,
    outcome: RelayerOutcome<R, P>,
    event: RelayerEvent,
)
    requires
        machine.awaits(outcome),
        machine.reports(outcome, event),
    ensures
        ({
            let next = machine.moved(outcome, event);
            &&& next.rpc == match outcome {
                RelayerOutcome::Rpc(Some(rpc)) => Some(rpc),
                _ => machine.rpc,
            }
            &&& next.peg_client == match outcome {
                RelayerOutcome::PegClient(Some(peg_client)) => Some(peg_client),
                _ => machine.peg_client,
            }
            &&& match outcome {
                RelayerOutcome::Rpc(Some(_)) => next.state == RelayerState::InitializePegClient,
                RelayerOutcome::Rpc(None) => next.state == (RelayerState::Failure {
                    event: RelayerEvent::InitializeBitcoinRpcFailure,
                }),
                RelayerOutcome::PegClient(Some(_)) => next.state
                    == RelayerState::FetchPegBlockHashes,
                RelayerOutcome::PegClient(None) => next.state == (RelayerState::Failure {
                    event: RelayerEvent::InitializePegClientFailure,
                }),
                RelayerOutcome::PegBlockHashes(Some(hashes)) => next.state == (
                RelayerState::ComputeCommonAncestor { peg_block_hashes: hashes }),
                RelayerOutcome::PegBlockHashes(None) => next.state
                    == RelayerState::FetchPegBlockHashes,
                RelayerOutcome::CommonAncestor(Ok(hash)) => next.state == (
                RelayerState::FetchLinkingHeaders { common_block_hash: hash }),
                RelayerOutcome::CommonAncestor(Err(_)) => next.state == (RelayerState::Failure {
                    event: RelayerEvent::ComputeCommonAncestorFailure,
                }),
                RelayerOutcome::LinkingHeaders(Ok(headers)) => next.state == (
                RelayerState::BuildHeaderTransactions { linking_headers: headers }),
                RelayerOutcome::LinkingHeaders(Err(_)) => next.state == (RelayerState::Failure {
                    event: RelayerEvent::FetchLinkingHeadersFailure,
                }),
                RelayerOutcome::Broadcast(Ok(())) => next.state
                    == RelayerState::FetchPegBlockHashes,
                RelayerOutcome::Broadcast(Err(_)) => next.state == machine.state,
                RelayerOutcome::Nothing => match machine.state {
                    RelayerState::FetchPegBlockHashes => next.state == machine.state,
                    RelayerState::ComputeCommonAncestor { .. } => next.state == (
                    RelayerState::Failure { event: RelayerEvent::ComputeCommonAncestorFailure }),
                    RelayerState::FetchLinkingHeaders { .. } => next.state == (
                    RelayerState::Failure { event: RelayerEvent::FetchLinkingHeadersFailure }),
                    RelayerState::BuildHeaderTransactions { .. } => next.state
                        is BroadcastHeaderTransactions,
                    RelayerState::BroadcastHeaderTransactions { .. } => next.state
                        == machine.state,
                    _ => next.state == RelayerState::InitializeBitcoinRpc,
                },
            }
        }),
{
}

/// The failure state is entered only if the work itself failed, or if the
/// connection that it takes is missing.
pub proof fn law_failure_only_of_work<R, P>(
    machine: RelayerStateMachine<R, P>,
    outcome: RelayerOutcome<R, P>,
    event: RelayerEvent,
)
    requires
        machine.awaits(outcome),
        machine.reports(outcome, event),
    ensures
        machine.moved(outcome, event).state is Failure <==> {
            ||| outcome matches RelayerOutcome::Rpc(None)
            ||| outcome matches RelayerOutcome::PegClient(None)
            ||| outcome matches RelayerOutcome::CommonAncestor(Err(_))
            ||| outcome matches RelayerOutcome::LinkingHeaders(Err(_))
            ||| outcome is Nothing && (machine.state is ComputeCommonAncestor || machine.state
                is FetchLinkingHeaders)
        },
{
}

/// From the linking headers, which are listed from the tip down, transactions are
/// built that hold each header once, the lowest first, 100 to a transaction.
pub proof fn law_transactions_built<R, P>(
    machine: RelayerStateMachine<R, P>,
    event: RelayerEvent,
)
    requires
        machine.state is BuildHeaderTransactions,
        machine.reports(RelayerOutcome::Nothing, event),
    ensures
        ({
            let headers = machine.state->linking_headers@;
            let next = machine.moved(RelayerOutcome::Nothing, event);
            &&& next.state matches RelayerState::BroadcastHeaderTransactions { header_transactions }
            &&& holds_in_order(header_transactions@, headers.reverse())
        }),
{
    law_batches_placed(
        event->header_transactions@,
        machine.state->linking_headers@.reverse(),
    );
}

/// `transactions` hold `headers`, each at its place and none left over: 100 in each
/// transaction but the last, which holds at least one and at most 100.
pub open spec fn holds_in_order(
    transactions: Seq<HeaderTransaction>,
    headers: Seq<BlockHeader>,
) -> bool {
    &&& forall|i: int, j: int|
        0 <= i < transactions.len() && 0 <= j < (#[trigger] transactions[i]).block_headers@.len()
            ==> i * 100 + j < headers.len() && #[trigger] transactions[i].block_headers@[j]
            == headers[i * 100 + j]
    &&& forall|i: int|
        0 <= i < transactions.len() ==> {
            &&& 1 <= (#[trigger] transactions[i]).block_headers@.len() <= 100
            &&& i < transactions.len() - 1 ==> transactions[i].block_headers@.len() == 100
        }
    &&& headers.len() == 0 ==> transactions.len() == 0
    &&& headers.len() > 0 ==> {
        &&& transactions.len() > 0
        &&& (transactions.len() - 1) * 100 + transactions.last().block_headers@.len()
            == headers.len()
    }
}

/// The transactions that are built of headers hold them in their order, 100 to a
/// transaction.
pub proof fn law_batches_placed(transactions: Seq<HeaderTransaction>, headers: Seq<BlockHeader>)
    requires
        transactions_view(transactions) == batches(headers),
    ensures
        holds_in_order(transactions, headers),
{
    assert(transactions_view(transactions).len() == transactions.len());
    assert forall|i: int| 0 <= i < transactions.len() implies {
        &&& 1 <= (#[trigger] transactions[i]).block_headers@.len() <= 100
        &&& i < transactions.len() - 1 ==> transactions[i].block_headers@.len() == 100
    } by {
        assert(transactions_view(transactions)[i] == transactions[i].block_headers@);
        law_batches_full(headers, i);
    }
    assert forall|i: int, j: int|
        0 <= i < transactions.len() && 0 <= j < (
        #[trigger] transactions[i]).block_headers@.len() implies i * 100 + j < headers.len()
        && #[trigger] transactions[i].block_headers@[j] == headers[i * 100 + j] by {
        assert(transactions_view(transactions)[i] == transactions[i].block_headers@);
        law_batches_full(headers, i);
    }
    if transactions.len() > 0 {
        let i = transactions.len() - 1;
        assert(transactions_view(transactions)[i] == transactions[i].block_headers@);
    }
}

/// What a round does about a common ancestor, and which tip is known then.
pub proof fn law_tip(latest: Option<BlockHash>, hash: BlockHash, event: RelayerEvent)
    ensures
        ({
            let found = RelayerEvent::ComputeCommonAncestorSuccess { common_block_hash: hash };
            &&& tip_after(latest, found) == Some(hash)
            &&& latest is None ==> tip_notice(latest, found) == Some(TipNotice::Wait)
            &&& latest is Some && latest->0@ == hash@ ==> tip_notice(latest, found) == Some(
                TipNotice::Wait,
            )
            &&& latest is Some && latest->0@ != hash@ ==> tip_notice(latest, found) == Some(
                TipNotice::NewTip(hash),
            )
            &&& event !is ComputeCommonAncestorSuccess ==> {
                &&& tip_after(latest, event) == latest
                &&& tip_notice(latest, event) is None
            }
        }),
{
}

/// A round moves the relayer's state machine and takes note of the tip, and a
/// relayer starts without connections and without a tip.
pub proof fn law_round_parts<R, P>(
    relayer: Relayer<R, P>,
    outcome: RelayerOutcome<R, P>,
    event: RelayerEvent,
)
    ensures
        relayer.after(outcome, event).machine == relayer.machine.moved(outcome, event),
        relayer.after(outcome, event).latest_tip == match event {
            RelayerEvent::ComputeCommonAncestorSuccess { common_block_hash } => Some(
                common_block_hash,
            ),
            _ => relayer.latest_tip,
        },
        Relayer::<R, P>::started().machine.state == RelayerState::InitializeBitcoinRpc,
        Relayer::<R, P>::started().machine.rpc is None,
        Relayer::<R, P>::started().machine.peg_client is None,
        Relayer::<R, P>::started().latest_tip is None,
{
}

/// A search among no blocks fails. Otherwise the highest block is asked for. A
/// block with confirmations, or with none yet, however many they are, ends the
/// search with the hash that the full node reports. One with a negative number, or
/// on which the RPC library fails to read -1, makes the search go on among the
/// blocks below it. Any other failure ends the search.
pub proof fn law_ancestor_steps(
    hashes: Seq<BlockHash>,
    info: BlockHeaderInfo,
    message: Seq<char>,
)
    ensures
        hashes.len() == 0 ==> searching(hashes) == (AncestorView::Done {
            result: Err(RelayerError {  }),
        }),
        hashes.len() > 0 ==> searching(hashes) == (AncestorView::Ask { hashes }),
        hashes.len() > 0 ==> ({
            let search = AncestorView::Ask { hashes };
            let lower = searching(hashes.take(hashes.len() - 1));
            let strict =
                "JSON-RPC error: JSON decode error: invalid value: integer `-1`, expected u32"@;
            &&& info.confirmations >= 0 ==> search.resumed(Ok(info)) == (AncestorView::Done {
                result: Ok(info.hash),
            })
            &&& info.confirmations < 0 ==> search.resumed(Ok(info)) == lower
            &&& message == strict ==> search.resumed(Err(message)) == lower
            &&& message != strict ==> search.resumed(Err(message)) == (AncestorView::Done {
                result: Err(RelayerError {  }),
            })
        }),
{
    if hashes.len() > 0 {
        assert(hashes.drop_last() =~= hashes.take(hashes.len() - 1));
    }
}

/// Whether the full node's answer passes over a block: a negative number of
/// confirmations, or the RPC library's failure to read -1.
pub open spec fn passed_over(answer: Result<BlockHeaderInfo, Seq<char>>) -> bool {
    match answer {
        Ok(info) => info.confirmations < 0,
        Err(message) => message
            == "JSON-RPC error: JSON decode error: invalid value: integer `-1`, expected u32"@,
    }
}

/// A whole search, given what the full node answers for each block: it ends with
/// the hash of the highest block whose number of confirmations is not negative, if
/// all blocks above it are passed over. Another failure on that block ends it with
/// an error.
pub proof fn law_ancestor_found(
    hashes: Seq<BlockHash>,
    i: int,
    node: spec_fn(BlockHash) -> Result<BlockHeaderInfo, Seq<char>>,
)
    requires
        0 <= i < hashes.len(),
        forall|j: int| i < j < hashes.len() ==> passed_over(node(#[trigger] hashes[j])),
    ensures
        match node(hashes[i]) {
            Ok(info) => info.confirmations >= 0 ==> searching(hashes).answered(node, hashes.len())
                == (AncestorView::Done { result: Ok(info.hash) }),
            Err(message) => !passed_over(node(hashes[i])) ==> searching(hashes).answered(
                node,
                hashes.len(),
            ) == (AncestorView::Done { result: Err(RelayerError {  }) }),
        },
    decreases hashes.len(),
{
    let n = hashes.len();
    let last = hashes[n - 1];
    assert(hashes.last() == last);
    let rest = hashes.take(n - 1);
    assert(hashes.drop_last() =~= rest);
    if i == n - 1 {
        if !passed_over(node(last)) {
            let done = searching(hashes).resumed(node(last));
            assert(done is Done);
            assert(done.answered(node, (n - 1) as nat) == done);
        }
    } else {
        assert(passed_over(node(last)));
        assert(rest[i] == hashes[i]);
        assert forall|j: int| i < j < rest.len() implies passed_over(node(#[trigger] rest[j])) by {
            assert(rest[j] == hashes[j]);
        }
        law_ancestor_found(rest, i, node);
        assert(searching(hashes).answered(node, n) == searching(rest).answered(node, rest.len()));
    }
}

/// A whole search fails if all blocks are passed over.
pub proof fn law_ancestor_missing(
    hashes: Seq<BlockHash>,
    node: spec_fn(BlockHash) -> Result<BlockHeaderInfo, Seq<char>>,
)
    requires
        forall|j: int| 0 <= j < hashes.len() ==> passed_over(node(#[trigger] hashes[j])),
    ensures
        searching(hashes).answered(node, hashes.len()) == (AncestorView::Done {
            result: Err(RelayerError {  }),
        }),
    decreases hashes.len(),
{
    if hashes.len() > 0 {
        let n = hashes.len();
        let rest = hashes.take(n - 1);
        assert(hashes.drop_last() =~= rest);
        assert(hashes.last() == hashes[n - 1]);
        assert forall|j: int| 0 <= j < rest.len() implies passed_over(node(#[trigger] rest[j])) by {
            assert(rest[j] == hashes[j]);
        }
        law_ancestor_missing(rest, node);
        assert(searching(hashes).answered(node, n) == searching(rest).answered(node, rest.len()));
    }
}

/// The steps of a walk, whatever the full node answers and however many headers
/// have been fetched. It asks for the tip, then for header after header, each that
/// of the block that the last one builds on. The tip or a header that builds on the
/// common block ends it with all the headers so far; a failure ends it with the
/// failure.
pub proof fn law_walk_steps(
    common: BlockHash,
    hash: BlockHash,
    headers: Seq<BlockHeader>,
    tip: Result<BlockHash, Seq<char>>,
    header: Result<BlockHeader, Seq<char>>,
)
    ensures
        ({
            let start = LinkingView::FindTip { common };
            let found = start.resumed(LinkingReplyView::BestBlockHash(tip));
            &&& start.request() == Some(LinkingRequest::BestBlockHash)
            &&& start.awaits(LinkingReplyView::BestBlockHash(tip))
            &&& match tip {
                Err(e) => found == (LinkingView::Done { result: Err(e) }),
                Ok(tip) => {
                    &&& tip@ == common@ ==> found == (LinkingView::Done {
                        result: Ok(Seq::<BlockHeader>::empty()),
                    })
                    &&& tip@ != common@ ==> found == (LinkingView::FetchHeader {
                        common,
                        hash: tip,
                        headers: Seq::<BlockHeader>::empty(),
                    })
                },
            }
        }),
        ({
            let walk = LinkingView::FetchHeader { common, hash, headers };
            let next = walk.resumed(LinkingReplyView::BlockHeader(header));
            &&& walk.request() == Some(LinkingRequest::BlockHeader { hash })
            &&& walk.awaits(LinkingReplyView::BlockHeader(header))
            &&& match header {
                Err(e) => next == (LinkingView::Done { result: Err(e) }),
                Ok(header) => {
                    &&& header.prev_blockhash@ == common@ ==> next == (LinkingView::Done {
                        result: Ok(headers.push(header)),
                    })
                    &&& header.prev_blockhash@ != common@ ==> next == (LinkingView::FetchHeader {
                        common,
                        hash: header.prev_blockhash,
                        headers: headers.push(header),
                    })
                },
            }
        }),
{
}

/// A walk that has ended asks for nothing, and a walk takes no answer but the one
/// that it asks for.
pub proof fn law_walk_ended(
    result: Result<Seq<BlockHeader>, Seq<char>>,
    walk: LinkingView,
    reply: LinkingReplyView,
)
    ensures
        (LinkingView::Done { result }).request() is None,
        walk.awaits(reply) <==> match reply {
            LinkingReplyView::BestBlockHash(_) => walk is FindTip,
            LinkingReplyView::BlockHeader(_) => walk is FetchHeader,
        },
{
}

/// The views of the searches and of what they are answered hold all of it.
pub proof fn law_searches_read(
    ancestor: AncestorSearch,
    response: Result<BlockHeaderInfo, RpcError>,
    walk: LinkingSearch,
    reply: LinkingReply,
)
    ensures
        match ancestor {
            AncestorSearch::Ask { hash, earlier } => {
                &&& ancestor@ matches AncestorView::Ask { hashes }
                &&& hashes == earlier@ + seq![hash]
            },
            AncestorSearch::Done { result } => ancestor@ == (AncestorView::Done { result }),
        },
        match response {
            Ok(info) => response_view(response) == Ok::<BlockHeaderInfo, Seq<char>>(info),
            Err(e) => response_view(response) == Err::<BlockHeaderInfo, Seq<char>>(e.message@),
        },
        match walk {
            LinkingSearch::FindTip { common } => walk@ == (LinkingView::FindTip { common }),
            LinkingSearch::FetchHeader { common, hash, headers } => walk@ == (
            LinkingView::FetchHeader { common, hash, headers: headers@ }),
            LinkingSearch::Done { result: Ok(headers) } => walk@ == (LinkingView::Done {
                result: Ok(headers@),
            }),
            LinkingSearch::Done { result: Err(e) } => walk@ == (LinkingView::Done {
                result: Err(e.message@),
            }),
        },
        match reply {
            LinkingReply::BestBlockHash(Ok(hash)) => reply@ == LinkingReplyView::BestBlockHash(
                Ok(hash),
            ),
            LinkingReply::BestBlockHash(Err(e)) => reply@ == LinkingReplyView::BestBlockHash(
                Err(e.message@),
            ),
            LinkingReply::BlockHeader(Ok(header)) => reply@ == LinkingReplyView::BlockHeader(
                Ok(header),
            ),
            LinkingReply::BlockHeader(Err(e)) => reply@ == LinkingReplyView::BlockHeader(
                Err(e.message@),
            ),
        },
{
    if let AncestorSearch::Ask { hash, earlier } = ancestor {
        assert(earlier@.push(hash) =~= earlier@ + seq![hash]);
    }
}

/// The view of transactions holds the headers of each.
pub proof fn law_transactions_read(transactions: Seq<HeaderTransaction>)
    ensures
        transactions_view(transactions).len() == transactions.len(),
        forall|i: int|
            0 <= i < transactions.len() ==> #[trigger] transactions_view(transactions)[i]
                == transactions[i].block_headers@,
{
}

} // verus!
