//! How the relayer finds the headers that the peg lacks, and sends them.
//!
//! Each search asks for one RPC call at a time and goes on with its answer.
use crate::blockdata::BlockHeader;
use crate::bytes::same;
use crate::primitives::HeaderTransaction;
use crate::relayer::{batches, law_batches_whole, BlockHash, RelayerError, RpcError};
use vstd::prelude::*;

verus! {

/// What the full node reports of a block.
#[derive(Debug, Clone, Copy, PartialEq, Eq)]
pub struct BlockHeaderInfo {
    pub hash: BlockHash,
    /// The number of blocks on top of this one and itself, negative for a block
    /// that is not in the longest chain.
    pub confirmations: i32,
}

/// A search for the highest block that the peg and the full node share.
#[derive(Debug)]
pub enum AncestorSearch {
    /// Waits for what the full node reports of `hash`. The blocks below it
    /// stand in `earlier`, lowest first.
    Ask { hash: BlockHash, earlier: Vec<BlockHash> },
    /// The search has ended.
    Done { result: Result<BlockHash, RelayerError> },
}

pub ghost enum AncestorView {
    /// The blocks that are still to be asked for, lowest first.
    Ask { hashes: Seq<BlockHash> },
    Done { result: Result<BlockHash, RelayerError> },
}

impl View for AncestorSearch {
    type V = AncestorView;

    open spec fn view(&self) -> AncestorView {
        match *self {
            AncestorSearch::Ask { hash, earlier } => AncestorView::Ask {
                hashes: earlier@.push(hash),
            },
            AncestorSearch::Done { result } => AncestorView::Done { result },
        }
    }
}

/// The text of the error that the RPC library gives for a block that is not in
/// the longest chain: it does not read a negative number of confirmations.
pub open spec fn strict_decode_message() -> Seq<char> {
    "JSON-RPC error: JSON decode error: invalid value: integer `-1`, expected u32"@
}

/// Whether the block that `response` is about is not in the longest chain.
pub open spec fn off_chain(response: Result<BlockHeaderInfo, Seq<char>>) -> bool {
    match response {
        Ok(info) => info.confirmations < 0,
        Err(message) => message == strict_decode_message(),
    }
}

/// A response by the text of its failure.
pub open spec fn response_view(response: Result<BlockHeaderInfo, RpcError>) -> Result<
    BlockHeaderInfo,
    Seq<char>,
> {
    match response {
        Ok(info) => Ok(info),
        Err(e) => Err(e.message@),
    }
}

/// A search among `hashes`, which are listed lowest first.
pub open spec fn searching(hashes: Seq<BlockHash>) -> AncestorView {
    if hashes.len() == 0 {
        AncestorView::Done { result: Err(RelayerError {  }) }
    } else {
        AncestorView::Ask { hashes }
    }
}

/// What a response says that is not about a block off the longest chain.
pub open spec fn settled(response: Result<BlockHeaderInfo, Seq<char>>) -> Result<
    BlockHash,
    RelayerError,
> {
    match response {
        Ok(info) => Ok(info.hash),
        Err(_) => Err(RelayerError {  }),
    }
}

impl AncestorView {
    /// How the search goes on after `response`.
    pub open spec fn resumed(self, response: Result<BlockHeaderInfo, Seq<char>>) -> AncestorView {
        match self {
            AncestorView::Ask { hashes } => if off_chain(response) {
                searching(hashes.drop_last())
            } else {
                AncestorView::Done { result: settled(response) }
            },
            AncestorView::Done { .. } => self,
        }
    }

    /// Where the search ends if the full node reports `node(hash)` of each
    /// block, after at most `n` calls.
    pub open spec fn answered(
        self,
        node: spec_fn(BlockHash) -> Result<BlockHeaderInfo, Seq<char>>,
        n: nat,
    ) -> AncestorView
        decreases n,
    {
        match self {
            AncestorView::Ask { hashes } if n > 0 => self.resumed(node(hashes.last())).answered(
                node,
                (n - 1) as nat,
            ),
            _ => self,
        }
    }
}

/// Goes on with the highest of `hashes`, which are listed lowest first.
fn ask_last(hashes: Vec<BlockHash>) -> (r: AncestorSearch)
    ensures
        r@ == searching(hashes@),
{
    let mut earlier = hashes;
    match earlier.pop() {
        None => AncestorSearch::Done { result: Err(RelayerError::new()) },
        Some(hash) => {
            assert(earlier@.push(hash) =~= hashes@);
            AncestorSearch::Ask { hash, earlier }
        },
    }
}

/// Starts to go over the peg's blocks, which are listed lowest first, from the
/// tip backwards. The first that is in the full node's longest chain is the
/// common ancestor.
pub fn compute_common_ancestor(peg_hashes: &Vec<BlockHash>) -> (r: AncestorSearch)
    ensures
        r@ == searching(peg_hashes@),
{
    let mut hashes: Vec<BlockHash> = Vec::new();
    let mut i: usize = 0;
    while i < peg_hashes.len()
        invariant
            i <= peg_hashes@.len(),
            hashes@ == peg_hashes@.take(i as int),
        decreases peg_hashes@.len() - i,
    {
        hashes.push(peg_hashes[i]);
        i += 1;
        assert(hashes@ =~= peg_hashes@.take(i as int));
    }
    assert(hashes@ =~= peg_hashes@);
    ask_last(hashes)
}

impl AncestorSearch {
    /// Goes on with what the full node reports of the block that was asked
    /// for.
    pub fn resume(self, response: Result<BlockHeaderInfo, RpcError>) -> (r: Self)
        ensures
            r@ == self@.resumed(response_view(response)),
    {
        match self {
            AncestorSearch::Done { result } => AncestorSearch::Done { result },
            AncestorSearch::Ask { hash, earlier } => {
                assert(earlier@.push(hash).drop_last() =~= earlier@);
                match response {
                    Ok(info) => if info.confirmations >= 0 {
                        AncestorSearch::Done { result: Ok(info.hash) }
                    } else {
                        ask_last(earlier)
                    },
                    Err(e) => {
                        let strict =
                            "JSON-RPC error: JSON decode error: invalid value: integer `-1`, expected u32".to_owned();
                        if e.message == strict {
                            ask_last(earlier)
                        } else {
                            AncestorSearch::Done { result: Err(RelayerError::new()) }
                        }
                    },
                }
            },
        }
    }
}

/// The highest of the peg's blocks that is not off the longest chain settles
/// the search: it is the common ancestor, unless the full node failed on it.
/// Without such a block there is none.
pub proof fn law_common_ancestor(
    hashes: Seq<BlockHash>,
    node: spec_fn(BlockHash) -> Result<BlockHeaderInfo, Seq<char>>,
)
    ensures
        (forall|i: int| 0 <= i < hashes.len() ==> off_chain(node(#[trigger] hashes[i])))
            ==> searching(hashes).answered(node, hashes.len()) == (AncestorView::Done {
            result: Err(RelayerError {  }),
        }),
        forall|i: int|
            0 <= i < hashes.len() && !off_chain(node(#[trigger] hashes[i])) && (forall|j: int|
                i < j < hashes.len() ==> off_chain(node(#[trigger] hashes[j])))
                ==> searching(hashes).answered(node, hashes.len()) == (AncestorView::Done {
                result: settled(node(hashes[i])),
            }),
    decreases hashes.len(),
{
    if hashes.len() > 0 {
        let rest = hashes.drop_last();
        let n = hashes.len();
        let last = hashes[n - 1];
        assert(hashes.last() == last);
        if off_chain(node(last)) {
            law_common_ancestor(rest, node);
            assert(searching(hashes).answered(node, n) == searching(rest).answered(
                node,
                rest.len(),
            ));
            assert forall|i: int|
                0 <= i < n && !off_chain(node(#[trigger] hashes[i])) && (forall|j: int|
                    i < j < n ==> off_chain(node(#[trigger] hashes[j])))
                implies searching(hashes).answered(node, n) == (AncestorView::Done {
                result: settled(node(hashes[i])),
            }) by {
                assert(rest[i] == hashes[i]);
                assert forall|j: int| i < j < rest.len() implies off_chain(
                    node(#[trigger] rest[j]),
                ) by {
                    assert(rest[j] == hashes[j]);
                }
            }
            if forall|i: int| 0 <= i < n ==> off_chain(node(#[trigger] hashes[i])) {
                assert forall|i: int| 0 <= i < rest.len() implies off_chain(
                    node(#[trigger] rest[i]),
                ) by {
                    assert(rest[i] == hashes[i]);
                }
            }
        } else {
            let done = AncestorView::Done { result: settled(node(last)) };
            assert(done.answered(node, (n - 1) as nat) == done);
            assert forall|i: int|
                0 <= i < n && !off_chain(node(#[trigger] hashes[i])) && (forall|j: int|
                    i < j < n ==> off_chain(node(#[trigger] hashes[j]))) implies i == n - 1 by {
                if i < n - 1 {
                    assert(off_chain(node(hashes[n - 1])));
                }
            }
        }
    }
}

/// The number of linking headers above which the relayer warns.
pub const MANY_HEADERS: usize = 2016;

/// A walk from the tip of the full node's longest chain down to a common block.
#[derive(Debug)]
pub enum LinkingSearch {
    /// Waits for the hash of the tip.
    FindTip { common: BlockHash },
    /// Waits for the header of `hash`. The headers above it stand in `headers`,
    /// from the tip down.
    FetchHeader { common: BlockHash, hash: BlockHash, headers: Vec<BlockHeader> },
    /// The walk has ended.
    Done { result: Result<Vec<BlockHeader>, RpcError> },
}

/// What a walk asks for.
#[derive(Debug, Clone, Copy)]
pub enum LinkingRequest {
    /// The hash of the tip of the longest chain.
    BestBlockHash,
    /// The header of a block.
    BlockHeader { hash: BlockHash },
}

/// What the full node answers.
#[derive(Debug)]
pub enum LinkingReply {
    /// To [`LinkingRequest::BestBlockHash`].
    BestBlockHash(Result<BlockHash, RpcError>),
    /// To [`LinkingRequest::BlockHeader`].
    BlockHeader(Result<BlockHeader, RpcError>),
}

pub ghost enum LinkingView {
    FindTip { common: BlockHash },
    FetchHeader { common: BlockHash, hash: BlockHash, headers: Seq<BlockHeader> },
    Done { result: Result<Seq<BlockHeader>, Seq<char>> },
}

pub ghost enum LinkingReplyView {
    BestBlockHash(Result<BlockHash, Seq<char>>),
    BlockHeader(Result<BlockHeader, Seq<char>>),
}

impl View for LinkingSearch {
    type V = LinkingView;

    open spec fn view(&self) -> LinkingView {
        match *self {
            LinkingSearch::FindTip { common } => LinkingView::FindTip { common },
            LinkingSearch::FetchHeader { common, hash, headers } => LinkingView::FetchHeader {
                common,
                hash,
                headers: headers@,
            },
            LinkingSearch::Done { result } => LinkingView::Done {
                result: match result {
                    Ok(headers) => Ok(headers@),
                    Err(e) => Err(e.message@),
                },
            },
        }
    }
}

impl View for LinkingReply {
    type V = LinkingReplyView;

    open spec fn view(&self) -> LinkingReplyView {
        match *self {
            LinkingReply::BestBlockHash(r) => LinkingReplyView::BestBlockHash(
                match r {
                    Ok(hash) => Ok(hash),
                    Err(e) => Err(e.message@),
                },
            ),
            LinkingReply::BlockHeader(r) => LinkingReplyView::BlockHeader(
                match r {
                    Ok(header) => Ok(header),
                    Err(e) => Err(e.message@),
                },
            ),
        }
    }
}

impl LinkingView {
    /// What the walk asks for, if it has not ended.
    pub open spec fn request(self) -> Option<LinkingRequest> {
        match self {
            LinkingView::FindTip { .. } => Some(LinkingRequest::BestBlockHash),
            LinkingView::FetchHeader { hash, .. } => Some(LinkingRequest::BlockHeader { hash }),
            LinkingView::Done { .. } => None,
        }
    }

    /// Whether `reply` is an answer to what the walk asks for.
    pub open spec fn awaits(self, reply: LinkingReplyView) -> bool {
        match self {
            LinkingView::FindTip { .. } => reply is BestBlockHash,
            LinkingView::FetchHeader { .. } => reply is BlockHeader,
            LinkingView::Done { .. } => false,
        }
    }

    /// How the walk goes on after `reply`.
    pub open spec fn resumed(self, reply: LinkingReplyView) -> LinkingView {
        match self {
            LinkingView::FindTip { common } => match reply->BestBlockHash_0 {
                Err(e) => LinkingView::Done { result: Err(e) },
                Ok(tip) => if tip@ == common@ {
                    LinkingView::Done { result: Ok(Seq::<BlockHeader>::empty()) }
                } else {
                    LinkingView::FetchHeader {
                        common,
                        hash: tip,
                        headers: Seq::<BlockHeader>::empty(),
                    }
                },
            },
            LinkingView::FetchHeader { common, headers, .. } => match reply->BlockHeader_0 {
                Err(e) => LinkingView::Done { result: Err(e) },
                Ok(header) => if header.prev_blockhash@ == common@ {
                    LinkingView::Done { result: Ok(headers.push(header)) }
                } else {
                    LinkingView::FetchHeader {
                        common,
                        hash: header.prev_blockhash,
                        headers: headers.push(header),
                    }
                },
            },
            LinkingView::Done { .. } => self,
        }
    }
}

/// Starts to fetch all the headers that connect the block `common_block_hash`
/// to the tip of the full node's longest chain.
pub fn fetch_linking_headers(common_block_hash: BlockHash) -> (r: LinkingSearch)
    ensures
        r@ == (LinkingView::FindTip { common: common_block_hash }),
{
    LinkingSearch::FindTip { common: common_block_hash }
}

impl LinkingSearch {
    /// What the walk asks for, if it has not ended.
    pub fn request(&self) -> (r: Option<LinkingRequest>)
        ensures
            r == self@.request(),
    {
        match self {
            LinkingSearch::FindTip { .. } => Some(LinkingRequest::BestBlockHash),
            LinkingSearch::FetchHeader { hash, .. } => Some(
                LinkingRequest::BlockHeader { hash: *hash },
            ),
            LinkingSearch::Done { .. } => None,
        }
    }

    /// Whether the walk goes on although it has fetched an unusual number of
    /// headers.
    pub fn is_long(&self) -> (r: bool)
        ensures
            r == (self@ matches LinkingView::FetchHeader { headers, .. } && headers.len()
                > MANY_HEADERS),
    {
        match self {
            LinkingSearch::FetchHeader { headers, .. } => headers.len() > MANY_HEADERS,
            _ => false,
        }
    }

    /// Goes on with the answer to what the walk asked for.
    pub fn resume(self, reply: LinkingReply) -> (r: Self)
        requires
            self@.awaits(reply@),
        ensures
            r@ == self@.resumed(reply@),
    {
        match (self, reply) {
            (LinkingSearch::FindTip { .. }, LinkingReply::BestBlockHash(Err(e))) => {
                LinkingSearch::Done { result: Err(e) }
            },
            (LinkingSearch::FindTip { common }, LinkingReply::BestBlockHash(Ok(tip))) => {
                // Handle case where peg and bitcoin are already synced
                if same(tip.as_slice(), common.as_slice()) {
                    LinkingSearch::Done { result: Ok(Vec::new()) }
                } else {
                    LinkingSearch::FetchHeader { common, hash: tip, headers: Vec::new() }
                }
            },
            (LinkingSearch::FetchHeader { .. }, LinkingReply::BlockHeader(Err(e))) => {
                LinkingSearch::Done { result: Err(e) }
            },
            (
                LinkingSearch::FetchHeader { common, headers, .. },
                LinkingReply::BlockHeader(Ok(header)),
            ) => {
                let mut headers = headers;
                headers.push(header);
                if same(header.prev_blockhash.as_slice(), common.as_slice()) {
                    LinkingSearch::Done { result: Ok(headers) }
                } else {
                    LinkingSearch::FetchHeader { common, hash: header.prev_blockhash, headers }
                }
            },
            (search, _) => search,
        }
    }
}

/// A full node that does not fail: the tip of its longest chain, and the header
/// of each block.
pub ghost struct Node {
    pub tip: BlockHash,
    pub header: spec_fn(BlockHash) -> BlockHeader,
}

impl Node {
    /// What the node answers to `request`.
    pub open spec fn answer(self, request: LinkingRequest) -> LinkingReplyView {
        match request {
            LinkingRequest::BestBlockHash => LinkingReplyView::BestBlockHash(Ok(self.tip)),
            LinkingRequest::BlockHeader { hash } => LinkingReplyView::BlockHeader(
                Ok((self.header)(hash)),
            ),
        }
    }

    /// Where a walk to `common` stands after at most `n` calls.
    pub open spec fn walked(self, common: BlockHash, n: nat) -> LinkingView
        decreases n,
    {
        if n == 0 {
            LinkingView::FindTip { common }
        } else {
            let before = self.walked(common, (n - 1) as nat);
            match before.request() {
                None => before,
                Some(request) => before.resumed(self.answer(request)),
            }
        }
    }

    /// The block that is reached from the tip over `headers`.
    pub open spec fn below(self, headers: Seq<BlockHeader>) -> BlockHash {
        if headers.len() == 0 {
            self.tip
        } else {
            headers.last().prev_blockhash
        }
    }

    /// `headers` are headers of the node's longest chain, from the tip down:
    /// each is the header of the block that the one before it builds on.
    pub open spec fn chained(self, headers: Seq<BlockHeader>) -> bool {
        forall|i: int|
            0 <= i < headers.len() ==> #[trigger] headers[i] == (self.header)(
                self.below(headers.take(i)),
            )
    }

    /// No header but the last builds on `common`, and the tip is not `common`.
    pub open spec fn passes_not(self, common: BlockHash, headers: Seq<BlockHeader>) -> bool {
        forall|i: int|
            0 <= i <= headers.len() ==> #[trigger] self.below(headers.take(i))@ != common@
    }
}

/// One more header of the chain.
proof fn lemma_chained_push(node: Node, headers: Seq<BlockHeader>)
    requires
        node.chained(headers),
    ensures
        node.chained(headers.push((node.header)(node.below(headers)))),
{
    let more = headers.push((node.header)(node.below(headers)));
    assert forall|i: int| 0 <= i < more.len() implies #[trigger] more[i] == (node.header)(
        node.below(more.take(i)),
    ) by {
        if i < headers.len() {
            assert(more.take(i) =~= headers.take(i));
            assert(more[i] == headers[i]);
        } else {
            assert(more.take(i) =~= headers);
        }
    }
}

/// One more header that does not build on `common`.
proof fn lemma_passes_not_push(
    node: Node,
    common: BlockHash,
    headers: Seq<BlockHeader>,
    header: BlockHeader,
)
    requires
        node.passes_not(common, headers),
        header.prev_blockhash@ != common@,
    ensures
        node.passes_not(common, headers.push(header)),
{
    let more = headers.push(header);
    assert forall|i: int| 0 <= i <= more.len() implies #[trigger] node.below(more.take(i))@
        != common@ by {
        if i <= headers.len() {
            assert(more.take(i) =~= headers.take(i));
        } else {
            assert(more.take(i) =~= more);
        }
    }
}

/// At every point of a walk the fetched headers form a chain from the tip down
/// that has not come to `common` yet, and the next header that is asked for is
/// the one they build on. The headers that a walk ends with connect `common` to
/// the tip: they form a chain from the tip down, the last of them builds on
/// `common`, and none before it does. There are none if the tip is `common`.
pub proof fn law_linking_headers(node: Node, common: BlockHash, n: nat)
    ensures
        match node.walked(common, n) {
            LinkingView::FindTip { .. } => n == 0,
            LinkingView::FetchHeader { common: c, hash, headers } => {
                &&& c == common
                &&& hash == node.below(headers)
                &&& headers.len() == n - 1
                &&& node.chained(headers)
                &&& node.passes_not(common, headers)
            },
            LinkingView::Done { result: Ok(headers) } => {
                &&& node.chained(headers)
                &&& node.below(headers)@ == common@
                &&& headers.len() > 0 ==> node.passes_not(common, headers.drop_last())
            },
            LinkingView::Done { result: Err(_) } => false,
        },
    decreases n,
{
    if n > 0 {
        law_linking_headers(node, common, (n - 1) as nat);
        match node.walked(common, (n - 1) as nat) {
            LinkingView::FindTip { .. } => {
                let none = Seq::<BlockHeader>::empty();
                assert(node.chained(none));
                if node.tip@ != common@ {
                    assert forall|i: int| 0 <= i <= none.len() implies #[trigger] node.below(
                        none.take(i),
                    )@ != common@ by {
                        assert(none.take(i) =~= none);
                    }
                }
            },
            LinkingView::FetchHeader { headers, .. } => {
                let header = (node.header)(node.below(headers));
                lemma_chained_push(node, headers);
                assert(headers.push(header).drop_last() =~= headers);
                if header.prev_blockhash@ != common@ {
                    lemma_passes_not_push(node, common, headers, header);
                }
            },
            _ => {},
        }
    }
}

/// Where a walk stands while it goes over a chain of headers that leads to
/// `common`.
proof fn lemma_walk_under_way(
    node: Node,
    common: BlockHash,
    headers: Seq<BlockHeader>,
    k: nat,
)
    requires
        node.chained(headers),
        k < headers.len(),
        node.passes_not(common, headers.drop_last()),
    ensures
        node.walked(common, k + 1) == (LinkingView::FetchHeader {
            common,
            hash: node.below(headers.take(k as int)),
            headers: headers.take(k as int),
        }),
    decreases k,
{
    assert(headers.drop_last().take(k as int) =~= headers.take(k as int));
    assert(node.below(headers.drop_last().take(k as int))@ != common@);
    if k == 0 {
        assert(headers.take(0) =~= Seq::<BlockHeader>::empty());
        assert(node.walked(common, 0) == LinkingView::FindTip { common });
        assert(node.walked(common, 1) == node.walked(common, 0).resumed(
            LinkingReplyView::BestBlockHash(Ok(node.tip)),
        ));
    } else {
        let i = (k - 1) as nat;
        lemma_walk_under_way(node, common, headers, i);
        assert(headers.take(k as int) =~= headers.take(i as int).push(headers[i as int]));
        assert(node.walked(common, k + 1) == node.walked(common, k).resumed(
            LinkingReplyView::BlockHeader(Ok(headers[i as int])),
        ));
    }
}

/// A walk ends with the headers that connect `common` to the tip, if there are
/// such headers.
pub proof fn law_linking_headers_found(node: Node, common: BlockHash, headers: Seq<BlockHeader>)
    requires
        node.chained(headers),
        node.below(headers)@ == common@,
        headers.len() > 0 ==> node.passes_not(common, headers.drop_last()),
    ensures
        node.walked(common, headers.len() + 1) == (LinkingView::Done { result: Ok(headers) }),
{
    let n = headers.len();
    if n == 0 {
        assert(node.walked(common, 0) == LinkingView::FindTip { common });
        assert(node.walked(common, 1) == node.walked(common, 0).resumed(
            LinkingReplyView::BestBlockHash(Ok(node.tip)),
        ));
        assert(headers =~= Seq::<BlockHeader>::empty());
    } else {
        let i = (n - 1) as nat;
        lemma_walk_under_way(node, common, headers, i);
        assert(headers =~= headers.take(i as int).push(headers[i as int]));
        assert(node.walked(common, n + 1) == node.walked(common, n).resumed(
            LinkingReplyView::BlockHeader(Ok(headers[i as int])),
        ));
    }
}

/// The batches that are made of the headers of a walk connect `common` to the
/// tip, lowest header first: the first header builds on `common`, the last is
/// the tip's, and each is the header of the block that the next one builds on.
pub proof fn law_relayed_headers(node: Node, common: BlockHash, headers: Seq<BlockHeader>)
    requires
        node.chained(headers),
        node.below(headers)@ == common@,
        headers.len() > 0,
    ensures
        ({
            let sent = batches(headers.reverse()).flatten();
            &&& sent.len() == headers.len()
            &&& sent.first().prev_blockhash@ == common@
            &&& sent.last() == (node.header)(node.tip)
            &&& forall|i: int|
                #![trigger sent[i]]
                0 <= i < sent.len() - 1 ==> sent[i] == (node.header)(sent[i + 1].prev_blockhash)
        }),
{
    let sent = headers.reverse();
    let n = headers.len();
    law_batches_whole(sent);
    assert(headers[0] == (node.header)(node.below(headers.take(0))));
    assert forall|i: int| #![trigger sent[i]] 0 <= i < n - 1 implies sent[i] == (node.header)(
        sent[i + 1].prev_blockhash,
    ) by {
        let j = n - 1 - i;
        assert(headers[j] == (node.header)(node.below(headers.take(j))));
        assert(headers.take(j).last() == headers[j - 1]);
    }
}

/// Header transactions on their way to the peg.
#[derive(Debug)]
pub struct Broadcast {
    transactions: Vec<HeaderTransaction>,
    taken: Vec<bool>,
}

#[verifier::ext_equal]
pub ghost struct BroadcastView {
    /// The transactions to send.
    pub transactions: Seq<HeaderTransaction>,
    /// Of each transaction that has been sent, whether the peg took it.
    pub taken: Seq<bool>,
}

impl View for Broadcast {
    type V = BroadcastView;

    closed spec fn view(&self) -> BroadcastView {
        BroadcastView { transactions: self.transactions@, taken: self.taken@ }
    }
}

/// A broadcast of which nothing has been sent.
pub open spec fn begun(transactions: Seq<HeaderTransaction>) -> BroadcastView {
    BroadcastView { transactions, taken: Seq::<bool>::empty() }
}

impl BroadcastView {
    /// The transaction to send next, if one is left.
    pub open spec fn next(self) -> Option<HeaderTransaction> {
        if self.taken.len() < self.transactions.len() {
            Some(self.transactions[self.taken.len() as int])
        } else {
            None
        }
    }

    /// The broadcast after the transaction that was sent has been taken or not.
    pub open spec fn recorded(self, taken: bool) -> BroadcastView {
        BroadcastView { taken: self.taken.push(taken), ..self }
    }

    /// The broadcast after the peg has given `answers`, one after the other.
    pub open spec fn recorded_all(self, answers: Seq<bool>) -> BroadcastView
        decreases answers.len(),
    {
        if answers.len() == 0 {
            self
        } else {
            self.recorded_all(answers.drop_last()).recorded(answers.last())
        }
    }

    /// What came of the broadcast: an error exactly if any transaction was not
    /// taken.
    pub open spec fn result(self) -> Result<(), RelayerError> {
        if exists|i: int| 0 <= i < self.taken.len() && !#[trigger] self.taken[i] {
            Err(RelayerError {  })
        } else {
            Ok(())
        }
    }
}

impl Broadcast {
    /// The transaction to send next.
    pub fn next(&self) -> (r: Option<&HeaderTransaction>)
        ensures
            match r {
                Some(t) => self@.next() == Some(*t),
                None => self@.next() is None,
            },
    {
        if self.taken.len() < self.transactions.len() {
            Some(&self.transactions[self.taken.len()])
        } else {
            None
        }
    }

    /// Notes whether the peg took the transaction that was sent.
    pub fn record(&mut self, taken: bool)
        ensures
            final(self)@ == old(self)@.recorded(taken),
    {
        self.taken.push(taken);
    }

    /// What came of the broadcast: an error exactly if any transaction was not
    /// taken.
    pub fn result(&self) -> (r: Result<(), RelayerError>)
        ensures
            r == self@.result(),
    {
        let mut i: usize = 0;
        while i < self.taken.len()
            invariant
                i <= self.taken@.len(),
                forall|j: int| 0 <= j < i ==> #[trigger] self.taken@[j],
            decreases self.taken@.len() - i,
        {
            if !self.taken[i] {
                assert(!self@.taken[i as int]);
                return Err(RelayerError::new());
            }
            i += 1;
        }
        Ok(())
    }
}

/// Starts to send header transactions to the peg, one after the other. The
/// result is an error if any of them is not taken; the others are sent all the
/// same.
pub fn broadcast_header_transactions(header_transactions: Vec<HeaderTransaction>) -> (r: Broadcast)
    ensures
        r@ == begun(header_transactions@),
{
    Broadcast { transactions: header_transactions, taken: Vec::new() }
}

/// Answers are noted in their order.
proof fn lemma_recorded_all(broadcast: BroadcastView, answers: Seq<bool>)
    ensures
        broadcast.recorded_all(answers) == (BroadcastView {
            taken: broadcast.taken + answers,
            ..broadcast
        }),
    decreases answers.len(),
{
    if answers.len() == 0 {
        assert(broadcast.taken + answers =~= broadcast.taken);
    } else {
        lemma_recorded_all(broadcast, answers.drop_last());
        assert((broadcast.taken + answers.drop_last()).push(answers.last()) =~= broadcast.taken
            + answers);
    }
}

/// A whole broadcast sends every transaction once, in their order, whatever the
/// peg answers: after `n` answers the next one to send is the one at position
/// `n`, and after an answer to each there is none. Its result is an error exactly
/// if the peg did not take some transaction.
pub proof fn law_broadcast(transactions: Seq<HeaderTransaction>, answers: Seq<bool>)
    requires
        answers.len() == transactions.len(),
    ensures
        forall|n: int|
            #![trigger transactions[n]]
            0 <= n < transactions.len() ==> begun(transactions).recorded_all(
                answers.take(n),
            ).next() == Some(transactions[n]),
        begun(transactions).recorded_all(answers).next() is None,
        begun(transactions).recorded_all(answers).result() is Err <==> exists|i: int|
            0 <= i < answers.len() && !#[trigger] answers[i],
{
    let start = begun(transactions);
    assert forall|n: int| #![trigger transactions[n]] 0 <= n < transactions.len() implies start.recorded_all(
        answers.take(n),
    ).next() == Some(transactions[n]) by {
        lemma_recorded_all(start, answers.take(n));
    }
    lemma_recorded_all(start, answers);
    assert(start.recorded_all(answers).taken =~= answers);
}

} // verus!
