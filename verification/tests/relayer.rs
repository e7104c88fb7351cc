use nomic::blockdata::BlockHeader;
use nomic::primitives::HeaderTransaction;
use nomic::relayer::{
    build_header_transactions, observe_tip, RelayerError, RelayerEvent, RelayerOutcome,
    RelayerState, RelayerStateMachine, RelayerWork, RpcError, TipNotice, BATCH_SIZE,
};
use nomic::relayer_loop::{start, Relayer, WAIT_SECONDS};
use nomic::sync::{
    broadcast_header_transactions, compute_common_ancestor, fetch_linking_headers, AncestorSearch,
    BlockHeaderInfo, LinkingReply, LinkingRequest, LinkingSearch, MANY_HEADERS,
};

fn hash(n: u32) -> [u8; 32] {
    let mut hash = [0; 32];
    hash[..4].copy_from_slice(&n.to_le_bytes());
    hash
}

/// The header of the block `hash(n)`, which builds on `hash(n - 1)`.
fn header(n: u32) -> BlockHeader {
    BlockHeader {
        version: 1,
        prev_blockhash: hash(n - 1),
        merkle_root: [n as u8; 32],
        time: n,
        bits: 0x207fffff,
        nonce: 0,
    }
}

fn failed(message: &str) -> RpcError {
    RpcError { message: message.to_string() }
}

fn search(
    hashes: &[u32],
    node: &dyn Fn([u8; 32]) -> Result<BlockHeaderInfo, RpcError>,
) -> (Result<[u8; 32], RelayerError>, Vec<[u8; 32]>) {
    let hashes: Vec<[u8; 32]> = hashes.iter().map(|n| hash(*n)).collect();
    let mut asked = Vec::new();
    let mut search = compute_common_ancestor(&hashes);
    loop {
        search = match search {
            AncestorSearch::Done { result } => return (result, asked),
            AncestorSearch::Ask { hash, .. } => {
                asked.push(hash);
                search.resume(node(hash))
            }
        };
    }
}

fn info(hash: [u8; 32], confirmations: i32) -> Result<BlockHeaderInfo, RpcError> {
    Ok(BlockHeaderInfo { hash, confirmations })
}

#[test]
fn ancestor_is_the_highest_block_in_the_longest_chain() {
    let node = |h: [u8; 32]| info(h, if h[0] <= 3 { 0 } else { -1 });
    let (result, asked) = search(&[1, 2, 3, 4, 5], &node);
    assert_eq!(result, Ok(hash(3)));
    assert_eq!(asked, vec![hash(5), hash(4), hash(3)]);
}

#[test]
fn ancestor_is_the_hash_that_the_node_reports() {
    let node = |_| info([9; 32], 7);
    assert_eq!(search(&[1, 2], &node), (Ok([9; 32]), vec![hash(2)]));
}

#[test]
fn ancestor_search_skips_what_the_library_does_not_decode() {
    let strict = "JSON-RPC error: JSON decode error: invalid value: integer `-1`, expected u32";
    let node = |h: [u8; 32]| if h[0] == 3 { Err(failed(strict)) } else { info(h, 1) };
    assert_eq!(search(&[1, 2, 3], &node), (Ok(hash(2)), vec![hash(3), hash(2)]));
}

#[test]
fn ancestor_search_ends_at_another_failure() {
    let node = |h: [u8; 32]| if h[0] == 3 { Err(failed("JSON-RPC error")) } else { info(h, 1) };
    assert_eq!(search(&[1, 2, 3], &node), (Err(RelayerError::new()), vec![hash(3)]));
}

#[test]
fn ancestor_search_finds_none() {
    let node = |h| info(h, -1);
    assert_eq!(search(&[1, 2], &node), (Err(RelayerError::new()), vec![hash(2), hash(1)]));
    assert_eq!(search(&[], &node), (Err(RelayerError::new()), vec![]));
}

/// Walks a chain whose tip is `hash(tip)`; the block `hash(broken)` is missing.
fn walk(common: u32, tip: u32, broken: u32) -> (Result<Vec<BlockHeader>, String>, usize) {
    let mut long = 0;
    let mut search = fetch_linking_headers(hash(common));
    while let Some(request) = search.request() {
        search = search.resume(match request {
            LinkingRequest::BestBlockHash => LinkingReply::BestBlockHash(Ok(hash(tip))),
            LinkingRequest::BlockHeader { hash: h } => {
                let n = u32::from_le_bytes([h[0], h[1], h[2], h[3]]);
                LinkingReply::BlockHeader(if n == broken {
                    Err(failed("Block not found"))
                } else {
                    Ok(header(n))
                })
            }
        });
        if search.is_long() {
            long += 1;
        }
    }
    match search {
        LinkingSearch::Done { result } => (result.map_err(|e| e.message), long),
        _ => panic!("a walk without a request is done"),
    }
}

#[test]
fn linking_headers_lead_from_the_tip_to_the_common_block() {
    assert_eq!(walk(3, 6, 0), (Ok(vec![header(6), header(5), header(4)]), 0));
    assert_eq!(walk(3, 4, 0), (Ok(vec![header(4)]), 0));
}

#[test]
fn linking_headers_of_a_synced_peg() {
    assert_eq!(walk(6, 6, 0), (Ok(vec![]), 0));
}

#[test]
fn linking_headers_report_a_failure() {
    assert_eq!(walk(3, 6, 5), (Err("Block not found".to_string()), 0));
    let search = fetch_linking_headers(hash(1));
    let failed_search = search.resume(LinkingReply::BestBlockHash(Err(failed("no tip"))));
    match failed_search {
        LinkingSearch::Done { result: Err(e) } => assert_eq!(e.message, "no tip"),
        _ => panic!("a failed walk is done"),
    }
}

#[test]
fn linking_headers_warn_when_there_are_many() {
    assert_eq!(MANY_HEADERS, 2016);
    // The warning is for every header above 2016 that does not end the walk.
    assert_eq!(walk(1, 1 + 2016, 0).1, 0);
    assert_eq!(walk(1, 1 + 2017, 0).1, 0);
    assert_eq!(walk(1, 1 + 2018, 0).1, 1);
    assert_eq!(walk(1, 1 + 2020, 0).1, 3);
}

#[test]
fn header_transactions_are_reversed_and_batched() {
    let mut headers: Vec<BlockHeader> = (1..=250).rev().map(header).collect();
    let transactions = build_header_transactions(&mut headers);
    let lowest_first: Vec<BlockHeader> = (1..=250).map(header).collect();
    assert_eq!(headers, lowest_first);
    let batches: Vec<Vec<BlockHeader>> =
        transactions.into_iter().map(|t| t.block_headers).collect();
    assert_eq!(batches.iter().map(|b| b.len()).collect::<Vec<_>>(), vec![100, 100, 50]);
    assert_eq!(batches.concat(), lowest_first);
}

#[test]
fn header_transactions_of_whole_batches() {
    assert_eq!(BATCH_SIZE, 100);
    for (count, batches) in [(0, 0), (1, 1), (99, 1), (100, 1), (101, 2), (200, 2)] {
        let mut headers: Vec<BlockHeader> = (1..=count).rev().map(header).collect();
        assert_eq!(build_header_transactions(&mut headers).len(), batches);
    }
}

#[test]
fn relayed_headers_connect_the_common_block_to_the_tip() {
    let mut headers = walk(3, 300, 0).0.unwrap();
    let sent: Vec<BlockHeader> = build_header_transactions(&mut headers)
        .into_iter()
        .flat_map(|transaction| transaction.block_headers)
        .collect();
    assert_eq!(sent.len(), 297);
    assert_eq!(sent[0].prev_blockhash, hash(3));
    assert_eq!(sent[296], header(300));
    assert_eq!(sent, (4..=300).map(header).collect::<Vec<_>>());
}

fn transactions(count: u32) -> Vec<HeaderTransaction> {
    (1..=count).map(|n| HeaderTransaction { block_headers: vec![header(n)] }).collect()
}

fn broadcast(count: u32, refused: u32) -> (Result<(), RelayerError>, Vec<BlockHeader>) {
    let mut sent = Vec::new();
    let mut broadcast = broadcast_header_transactions(transactions(count));
    while let Some(transaction) = broadcast.next() {
        let first = transaction.block_headers[0];
        sent.push(first);
        broadcast.record(first != header(refused));
    }
    (broadcast.result(), sent)
}

#[test]
fn broadcast_sends_every_transaction() {
    assert_eq!(broadcast(3, 9), (Ok(()), vec![header(1), header(2), header(3)]));
    assert_eq!(broadcast(0, 9), (Ok(()), vec![]));
}

#[test]
fn broadcast_is_an_error_if_any_transaction_is_not_taken() {
    for refused in 1..=3 {
        let (result, sent) = broadcast(3, refused);
        assert_eq!(result, Err(RelayerError::new()));
        assert_eq!(sent.len(), 3);
    }
}

#[test]
fn states_follow_a_round() {
    let mut machine: RelayerStateMachine<&str, &str> = RelayerStateMachine::new();
    assert!(machine.rpc.is_none() && machine.peg_client.is_none());

    assert!(matches!(machine.work(), RelayerWork::ConnectRpc));
    let event = machine.run(RelayerOutcome::Rpc(Some("rpc")));
    assert!(matches!(event, RelayerEvent::InitializeBitcoinRpcSuccess));
    assert_eq!(machine.rpc, Some("rpc"));
    machine.state = machine.state.next(event);

    assert!(matches!(machine.work(), RelayerWork::ConnectPegClient));
    let event = machine.run(RelayerOutcome::PegClient(Some("peg")));
    assert!(matches!(event, RelayerEvent::InitializePegClientSuccess));
    assert_eq!(machine.peg_client, Some("peg"));
    machine.state = machine.state.next(event);

    // A failed fetch is tried again.
    assert!(matches!(machine.work(), RelayerWork::FetchPegBlockHashes));
    let event = machine.run(RelayerOutcome::PegBlockHashes(None));
    assert!(matches!(event, RelayerEvent::FetchPegBlockHashesFailure));
    machine.state = machine.state.next(event);
    assert!(matches!(machine.work(), RelayerWork::FetchPegBlockHashes));
    let event = machine.run(RelayerOutcome::PegBlockHashes(Some(vec![hash(1), hash(2)])));
    machine.state = machine.state.next(event);

    match machine.work() {
        RelayerWork::ComputeCommonAncestor { peg_block_hashes } => {
            assert_eq!(*peg_block_hashes, vec![hash(1), hash(2)])
        }
        _ => panic!("the common ancestor is due"),
    }
    let event = machine.run(RelayerOutcome::CommonAncestor(Ok(hash(2))));
    machine.state = machine.state.next(event);

    match machine.work() {
        RelayerWork::FetchLinkingHeaders { common_block_hash } => {
            assert_eq!(common_block_hash, hash(2))
        }
        _ => panic!("the linking headers are due"),
    }
    let event = machine.run(RelayerOutcome::LinkingHeaders(Ok(vec![header(4), header(3)])));
    machine.state = machine.state.next(event);

    assert!(matches!(machine.work(), RelayerWork::Nothing));
    let event = machine.run(RelayerOutcome::Nothing);
    assert!(matches!(event, RelayerEvent::BuiltHeaderTransactions { .. }));
    machine.state = machine.state.next(event);

    match machine.work() {
        RelayerWork::BroadcastHeaderTransactions { header_transactions } => {
            assert_eq!(header_transactions.len(), 1);
            assert_eq!(header_transactions[0].block_headers, vec![header(3), header(4)]);
        }
        _ => panic!("the broadcast is due"),
    }
    // A failed broadcast is tried again.
    let event = machine.run(RelayerOutcome::Broadcast(Err(RelayerError::new())));
    machine.state = machine.state.next(event);
    assert!(matches!(machine.work(), RelayerWork::BroadcastHeaderTransactions { .. }));
    let event = machine.run(RelayerOutcome::Broadcast(Ok(())));
    machine.state = machine.state.next(event);
    assert!(matches!(machine.state, RelayerState::FetchPegBlockHashes));
}

#[test]
fn failures_restart() {
    let mut machine: RelayerStateMachine<(), ()> = RelayerStateMachine::new();
    let event = machine.run(RelayerOutcome::Rpc(None));
    assert!(matches!(event, RelayerEvent::InitializeBitcoinRpcFailure));
    machine.state = machine.state.next(event);
    assert!(matches!(
        machine.state,
        RelayerState::Failure { event: RelayerEvent::InitializeBitcoinRpcFailure }
    ));
    assert!(matches!(machine.work(), RelayerWork::Nothing));
    let event = machine.run(RelayerOutcome::Nothing);
    assert!(matches!(event, RelayerEvent::Restart));
    machine.state = machine.state.next(event);
    assert!(matches!(machine.state, RelayerState::InitializeBitcoinRpc));

    machine.state = RelayerState::InitializePegClient;
    let event = machine.run(RelayerOutcome::PegClient(None));
    assert!(matches!(event, RelayerEvent::InitializePegClientFailure));

    machine.rpc = Some(());
    machine.state = RelayerState::ComputeCommonAncestor { peg_block_hashes: vec![] };
    let event = machine.run(RelayerOutcome::CommonAncestor(Err(RelayerError::new())));
    assert!(matches!(event, RelayerEvent::ComputeCommonAncestorFailure));

    machine.state = RelayerState::FetchLinkingHeaders { common_block_hash: hash(1) };
    let event = machine.run(RelayerOutcome::LinkingHeaders(Err(failed("gone"))));
    assert!(matches!(event, RelayerEvent::FetchLinkingHeadersFailure));
}

#[test]
fn states_without_their_connection_fail() {
    let mut machine: RelayerStateMachine<(), ()> = RelayerStateMachine::new();
    machine.state = RelayerState::FetchPegBlockHashes;
    assert!(matches!(machine.work(), RelayerWork::Nothing));
    let event = machine.run(RelayerOutcome::Nothing);
    assert!(matches!(event, RelayerEvent::FetchPegBlockHashesFailure));

    machine.state = RelayerState::ComputeCommonAncestor { peg_block_hashes: vec![hash(1)] };
    assert!(matches!(machine.work(), RelayerWork::Nothing));
    let event = machine.run(RelayerOutcome::Nothing);
    assert!(matches!(event, RelayerEvent::ComputeCommonAncestorFailure));

    machine.state = RelayerState::FetchLinkingHeaders { common_block_hash: hash(1) };
    assert!(matches!(machine.work(), RelayerWork::Nothing));
    let event = machine.run(RelayerOutcome::Nothing);
    assert!(matches!(event, RelayerEvent::FetchLinkingHeadersFailure));

    machine.state = RelayerState::BroadcastHeaderTransactions { header_transactions: vec![] };
    assert!(matches!(machine.work(), RelayerWork::Nothing));
    let event = machine.run(RelayerOutcome::Nothing);
    assert!(matches!(event, RelayerEvent::BroadcastHeaderTransactionsFailure));
}

#[test]
fn an_event_out_of_place_is_a_failure() {
    let next = RelayerState::FetchPegBlockHashes.next(RelayerEvent::Restart);
    assert!(matches!(next, RelayerState::Failure { event: RelayerEvent::Restart }));
    let next = next.next(RelayerEvent::BroadcastHeaderTransactionsSuccess);
    assert!(matches!(
        next,
        RelayerState::Failure { event: RelayerEvent::BroadcastHeaderTransactionsSuccess }
    ));
}

#[test]
fn a_new_tip_is_told_and_a_known_one_waits() {
    let found = |n| RelayerEvent::ComputeCommonAncestorSuccess { common_block_hash: hash(n) };
    let mut latest_tip = None;
    assert_eq!(observe_tip(&mut latest_tip, &found(1)), Some(TipNotice::Wait));
    assert_eq!(latest_tip, Some(hash(1)));
    assert_eq!(observe_tip(&mut latest_tip, &found(1)), Some(TipNotice::Wait));
    assert_eq!(observe_tip(&mut latest_tip, &found(2)), Some(TipNotice::NewTip(hash(2))));
    assert_eq!(latest_tip, Some(hash(2)));
    assert_eq!(observe_tip(&mut latest_tip, &RelayerEvent::Restart), None);
    assert_eq!(latest_tip, Some(hash(2)));
}

/// Runs a round in which the work comes to `outcome`.
fn round(
    relayer: Relayer<(), ()>,
    outcome: RelayerOutcome<(), ()>,
) -> (Relayer<(), ()>, Option<TipNotice>) {
    relayer.round(outcome)
}

/// Runs the rounds from the peg's block hashes to the end of the broadcast, and
/// gives what was done about the common ancestor `hash(n)`.
fn sync_round(relayer: Relayer<(), ()>, n: u32) -> (Relayer<(), ()>, Option<TipNotice>) {
    let (relayer, none) = round(relayer, RelayerOutcome::PegBlockHashes(Some(vec![hash(n)])));
    assert_eq!(none, None);
    assert!(matches!(relayer.work(), RelayerWork::ComputeCommonAncestor { .. }));
    let (relayer, notice) = round(relayer, RelayerOutcome::CommonAncestor(Ok(hash(n))));
    assert_eq!(relayer.latest_tip, Some(hash(n)));
    let headers = vec![header(n + 1)];
    let (relayer, none) = round(relayer, RelayerOutcome::LinkingHeaders(Ok(headers)));
    assert_eq!(none, None);
    let (relayer, none) = round(relayer, RelayerOutcome::Nothing);
    assert_eq!(none, None);
    let (relayer, none) = round(relayer, RelayerOutcome::Broadcast(Ok(())));
    assert_eq!(none, None);
    assert!(matches!(relayer.work(), RelayerWork::FetchPegBlockHashes));
    assert_eq!(relayer.latest_tip, Some(hash(n)));
    (relayer, notice)
}

#[test]
fn rounds_wait_for_a_known_tip_and_survive_failures() {
    assert_eq!(WAIT_SECONDS, 10);
    let relayer: Relayer<(), ()> = start();
    assert!(matches!(relayer.work(), RelayerWork::ConnectRpc));
    assert_eq!(relayer.latest_tip, None);
    let (relayer, _) = round(relayer, RelayerOutcome::Rpc(Some(())));
    let (relayer, _) = round(relayer, RelayerOutcome::PegClient(Some(())));
    let (relayer, notice) = sync_round(relayer, 5);
    assert_eq!(notice, Some(TipNotice::Wait));
    let (relayer, notice) = sync_round(relayer, 5);
    assert_eq!(notice, Some(TipNotice::Wait));
    let (relayer, notice) = sync_round(relayer, 6);
    assert_eq!(notice, Some(TipNotice::NewTip(hash(6))));

    // A failure starts anew and keeps the tip.
    let (relayer, _) = round(relayer, RelayerOutcome::PegBlockHashes(Some(vec![])));
    let failure = RelayerOutcome::CommonAncestor(Err(RelayerError::new()));
    let (relayer, notice) = round(relayer, failure);
    assert_eq!(notice, None);
    assert!(matches!(
        relayer.machine.state,
        RelayerState::Failure { event: RelayerEvent::ComputeCommonAncestorFailure }
    ));
    let (relayer, _) = round(relayer, RelayerOutcome::Nothing);
    assert!(matches!(relayer.work(), RelayerWork::ConnectRpc));
    let (relayer, _) = round(relayer, RelayerOutcome::Rpc(Some(())));
    let (relayer, _) = round(relayer, RelayerOutcome::PegClient(Some(())));
    let (_, notice) = sync_round(relayer, 6);
    assert_eq!(notice, Some(TipNotice::Wait));
}
