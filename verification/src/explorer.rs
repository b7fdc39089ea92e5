//! Explorer queries: blocks by range, a block by height, a transaction by
//! hash, and the admission of a transaction that a client posted.

use vstd::prelude::*;
use vstd::relations::{sorted_by, total_ordering};
use vstd::seq_lib::{lemma_sorted_unique, to_multiset_build, to_multiset_insert};
use std::ops::Range;
use crate::blockchain::{Block, Blockchain, StoredBlock, TxLocation};
use crate::blockchain::pool::hashes_of;
use crate::crypto;
use crate::helpers::Height;
use crate::messages::{
    clone_precommits, clone_transaction, same_transaction, Precommit, RawTransaction, Signed,
    Timestamp,
};
use crate::node::events::{external_view, ApiSender, ExternalMessageView};

verus! {

/// Largest number of blocks that one request may ask for. It bounds the time
/// that a request can take.
pub const MAX_BLOCKS_PER_REQUEST: usize = 1000;

/// Why an explorer request failed.
#[derive(Clone, Copy, Debug, PartialEq, Eq, Structural)]
pub enum ApiError {
    /// More blocks were asked for than one request may return.
    BlockCountExceeded {
        /// The limit.
        max: usize,
    },
    /// The latest height asked for is above the chain.
    LatestHeightTooLarge {
        /// The height asked for.
        requested: Height,
        /// Height of the last block.
        current: Height,
    },
    /// No block has the height asked for.
    BlockNotFound {
        /// The height asked for.
        height: Height,
    },
    /// No transaction has the hash asked for.
    UnknownTransaction,
    /// The transaction body is not hexadecimal text: a character that is
    /// no digit stands at the byte `index`.
    InvalidHexCharacter {
        /// The character.
        c: char,
        /// Its position, in bytes.
        index: usize,
    },
    /// The transaction body has an odd number of hexadecimal digits.
    OddHexLength,
    /// The transaction body does not have the length that was asked for.
    InvalidHexLength,
    /// The bytes of the transaction body are not a signed transaction.
    MalformedTransaction,
    /// The node no longer takes requests.
    NodeStopped,
}

/// The kinds of failure, as an HTTP API tells them apart.
#[derive(Clone, Copy, Debug, PartialEq, Eq, Structural)]
pub enum ApiErrorKind {
    /// The request is not valid.
    BadRequest,
    /// What was asked for does not exist.
    NotFound,
    /// The node could not serve the request.
    InternalError,
}

impl ApiError {
    /// The kind of the failure.
    pub fn kind(&self) -> (k: ApiErrorKind)
        ensures
            k == match *self {
                ApiError::BlockCountExceeded { .. } => ApiErrorKind::BadRequest,
                ApiError::LatestHeightTooLarge { .. } => ApiErrorKind::NotFound,
                ApiError::BlockNotFound { .. } => ApiErrorKind::NotFound,
                ApiError::UnknownTransaction => ApiErrorKind::NotFound,
                _ => ApiErrorKind::InternalError,
            },
    {
        match self {
            ApiError::BlockCountExceeded { .. } => ApiErrorKind::BadRequest,
            ApiError::LatestHeightTooLarge { .. } => ApiErrorKind::NotFound,
            ApiError::BlockNotFound { .. } => ApiErrorKind::NotFound,
            ApiError::UnknownTransaction => ApiErrorKind::NotFound,
            _ => ApiErrorKind::InternalError,
        }
    }
}

/// Blocks together with the range of heights that was walked to find them.
#[derive(Debug)]
pub struct BlocksRange {
    /// The heights walked: from `start` up to, not including, `end`.
    pub range: Range<Height>,
    /// The blocks, highest first.
    pub blocks: Vec<BlockInfo>,
}

/// What the explorer tells of a block.
#[derive(Debug)]
pub struct BlockInfo {
    /// Header of the block.
    pub block: Block,
    /// Precommits that justify the block, where they were asked for.
    pub precommits: Option<Vec<Signed<Precommit>>>,
    /// Hashes of the transactions of the block, where they were asked for.
    pub txs: Option<Vec<crypto::Hash>>,
    /// Median of the times of the precommits, where it was asked for.
    pub time: Option<Timestamp>,
}

/// Parameters of a request for blocks.
#[derive(Clone, Copy, Debug)]
pub struct BlocksQuery {
    /// Number of blocks to return; at most `MAX_BLOCKS_PER_REQUEST`.
    pub count: usize,
    /// Greatest height to return; the height of the last block by default.
    pub latest: Option<Height>,
    /// Least height to return; 0 by default. It only cuts the list short.
    pub earliest: Option<Height>,
    /// Whether blocks without transactions are passed over.
    pub skip_empty_blocks: bool,
    /// Whether the median precommit time of each block is returned.
    pub add_blocks_time: bool,
    /// Whether the precommits of each block are returned.
    pub add_precommits: bool,
}

impl Default for BlocksQuery {
    fn default() -> (q: Self)
        ensures
            q.count == 0,
            q.latest is None,
            q.earliest is None,
            !q.skip_empty_blocks,
            !q.add_blocks_time,
            !q.add_precommits,
    {
        BlocksQuery {
            count: 0,
            latest: None,
            earliest: None,
            skip_empty_blocks: false,
            add_blocks_time: false,
            add_precommits: false,
        }
    }
}

/// Parameters of a request for one block.
#[derive(Clone, Copy, Debug, PartialEq, Eq, Structural)]
pub struct BlockQuery {
    /// Height of the block.
    pub height: Height,
}

impl BlockQuery {
    /// A request for the block at the height `height`.
    pub fn new(height: Height) -> (q: Self)
        ensures
            q.height == height,
    {
        Self { height }
    }
}

/// A transaction as a client posts it: its signed bytes in hexadecimal.
#[derive(Debug)]
pub struct TransactionHex {
    /// The signed bytes, two hexadecimal digits each.
    pub tx_body: String,
}

/// Answer to a posted transaction.
#[derive(Clone, Copy, Debug, PartialEq, Eq, Structural)]
pub struct TransactionResponse {
    /// Hash of the transaction.
    pub tx_hash: crypto::Hash,
}

/// Parameters of a request for a transaction.
#[derive(Clone, Copy, Debug, PartialEq, Eq, Structural)]
pub struct TransactionQuery {
    /// Hash of the transaction.
    pub hash: crypto::Hash,
}

impl TransactionQuery {
    /// A request for the transaction with the hash `hash`.
    pub fn new(hash: crypto::Hash) -> (q: Self)
        ensures
            q.hash == hash,
    {
        Self { hash }
    }
}

/// What the explorer tells of a transaction.
#[derive(Debug)]
pub enum TransactionInfo {
    /// The transaction waits in the pool.
    InPool {
        /// The transaction.
        content: Signed<RawTransaction>,
    },
    /// The transaction is in a block.
    Committed {
        /// The transaction.
        content: Signed<RawTransaction>,
        /// Where it stands.
        location: TxLocation,
    },
}

/// The order of time, as a relation.
pub open spec fn time_leq() -> spec_fn(Timestamp, Timestamp) -> bool {
    |a: Timestamp, b: Timestamp| a.spec_le(b)
}

/// The times of `precommits`, in their order.
pub open spec fn times_of(precommits: Seq<Signed<Precommit>>) -> Seq<Timestamp> {
    precommits.map_values(|p: Signed<Precommit>| p.payload.time)
}

/// The median of `times`: the element in the middle once they are put in
/// order, the later of the two middle ones where their number is even; the
/// Unix epoch where there is none.
pub open spec fn median_of(times: Seq<Timestamp>) -> Timestamp {
    if times.len() == 0 {
        Timestamp { secs: 0, nanos: 0 }
    } else {
        times.sort_by(time_leq())[times.len() as int / 2]
    }
}

/// The order of time is a total order.
pub proof fn lemma_time_order()
    ensures
        total_ordering(time_leq()),
{
    let r = time_leq();
    assert forall|x: Timestamp, y: Timestamp| #[trigger] r(x, y) && #[trigger] r(y, x) implies x
        == y by {}
    assert(vstd::relations::reflexive(r));
    assert(vstd::relations::antisymmetric(r));
    assert(vstd::relations::transitive(r));
    assert(vstd::relations::strongly_connected(r));
}

/// The times of `precommits`, in ascending order.
fn sorted_times(precommits: &Vec<Signed<Precommit>>) -> (v: Vec<Timestamp>)
    ensures
        v@ == times_of(precommits@).sort_by(time_leq()),
{
    let ghost times = times_of(precommits@);
    let mut v: Vec<Timestamp> = Vec::new();
    let mut i: usize = 0;
    proof {
        assert(times.subrange(0, 0) =~= v@);
    }
    while i < precommits.len()
        invariant
            i <= precommits.len(),
            times == times_of(precommits@),
            sorted_by(v@, time_leq()),
            v@.to_multiset() == times.subrange(0, i as int).to_multiset(),
            v.len() == i,
        decreases precommits.len() - i,
    {
        let t = precommits[i].payload.time;
        let mut at: usize = 0;
        while at < v.len() && v[at].le(&t)
            invariant
                at <= v.len(),
                forall|j: int| 0 <= j < at ==> (#[trigger] v[j]).spec_le(t),
            decreases v.len() - at,
        {
            at = at + 1;
        }
        let ghost before = v@;
        v.insert(at, t);
        proof {
            let after = v@;
            let r = time_leq();
            assert forall|a: int, b: int| 0 <= a < b < after.len() implies #[trigger] r(
                after[a],
                after[b],
            ) by {
                if b == at {
                    assert(after[a] == before[a]);
                } else if a == at {
                    assert(after[b] == before[b - 1]);
                    if b - 1 > at {
                        assert(r(before[at as int], before[b - 1]));
                    }
                } else {
                    let ba = if a < at { a } else { a - 1 };
                    let bb = if b < at { b } else { b - 1 };
                    assert(after[a] == before[ba]);
                    assert(after[b] == before[bb]);
                    assert(r(before[ba], before[bb]));
                }
            }
            to_multiset_insert(before, at as int, t);
            assert(times.subrange(0, i + 1) =~= times.subrange(0, i as int).push(t));
            to_multiset_build(times.subrange(0, i as int), t);
        }
        i = i + 1;
    }
    proof {
        assert(times.subrange(0, i as int) =~= times);
        lemma_time_order();
        times.lemma_sort_by_ensures(time_leq());
        lemma_sorted_unique(v@, times.sort_by(time_leq()), time_leq());
    }
    v
}

/// The median of the times of `precommits`; the Unix epoch where there is
/// none.
pub fn median_precommits_time(precommits: &Vec<Signed<Precommit>>) -> (t: Timestamp)
    ensures
        t == median_of(times_of(precommits@)),
{
    if precommits.len() == 0 {
        Timestamp::epoch()
    } else {
        let times = sorted_times(precommits);
        proof {
            lemma_time_order();
            times_of(precommits@).lemma_sort_by_ensures(time_leq());
            vstd::seq_lib::to_multiset_len(times@);
            vstd::seq_lib::to_multiset_len(times_of(precommits@));
        }
        times[times.len() / 2]
    }
}

/// The heights from `upper` down to `lower`.
pub open spec fn heights_down(lower: int, upper: int) -> Seq<int> {
    Seq::new((if upper >= lower { upper - lower + 1 } else { 0 }) as nat, |i: int| upper - i)
}

/// Whether a request with `skip_empty` set so shows the block `block`.
pub open spec fn shows(skip_empty: bool, block: StoredBlock) -> bool {
    !skip_empty || block.header.tx_count != 0
}

/// The heights of `chain` whose block a request with `skip_empty` set so
/// shows.
pub open spec fn shown_heights(chain: Seq<StoredBlock>, skip_empty: bool) -> spec_fn(int) -> bool {
    |h: int| shows(skip_empty, chain[h])
}

/// The heights of the blocks that a request returns: walking down from
/// `upper` to `lower`, the first `count` heights whose block is shown.
pub open spec fn selected_heights(
    chain: Seq<StoredBlock>,
    skip_empty: bool,
    count: nat,
    lower: int,
    upper: int,
) -> Seq<int> {
    let all = heights_down(lower, upper).filter(shown_heights(chain, skip_empty));
    if count <= all.len() {
        all.take(count as int)
    } else {
        all
    }
}

/// Whether `info` is what the request `query` returns of `block`.
pub open spec fn describes_block(query: BlocksQuery, block: StoredBlock, info: BlockInfo) -> bool {
    &&& info.block == block.header
    &&& info.txs is None
    &&& info.time == if query.add_blocks_time {
        Some(median_of(times_of(block.precommits@)))
    } else {
        None
    }
    &&& match info.precommits {
        Some(p) => query.add_precommits && p@ == block.precommits@,
        None => !query.add_precommits,
    }
}

/// Whether `info` tells everything of `block`.
pub open spec fn describes_block_fully(block: StoredBlock, info: BlockInfo) -> bool {
    &&& info.block == block.header
    &&& info.txs matches Some(t) && t@ == hashes_of(block.transactions@)
    &&& info.time == Some(median_of(times_of(block.precommits@)))
    &&& info.precommits matches Some(p) && p@ == block.precommits@
}

/// What a request for blocks returns on the chain `chain`.
pub open spec fn blocks_result(
    chain: Seq<StoredBlock>,
    query: BlocksQuery,
    r: Result<BlocksRange, ApiError>,
) -> bool {
    let height = chain.len() - 1;
    let upper: int = match query.latest {
        Some(latest) => latest.0 as int,
        None => height,
    };
    let lower: int = match query.earliest {
        Some(earliest) => earliest.0 as int,
        None => 0,
    };
    if query.count > MAX_BLOCKS_PER_REQUEST {
        r == Err::<BlocksRange, ApiError>(
            ApiError::BlockCountExceeded { max: MAX_BLOCKS_PER_REQUEST },
        )
    } else if upper > height {
        r == Err::<BlocksRange, ApiError>(
            ApiError::LatestHeightTooLarge {
                requested: Height(upper as u64),
                current: Height(height as u64),
            },
        )
    } else {
        let heights = selected_heights(
            chain,
            query.skip_empty_blocks,
            query.count as nat,
            lower,
            upper,
        );
        &&& r matches Ok(found)
        &&& found.blocks@.len() == heights.len()
        &&& forall|i: int|
            0 <= i < heights.len() ==> describes_block(
                query,
                chain[heights[i]],
                #[trigger] found.blocks@[i],
            )
        &&& found.range.end.0 == upper + 1
        &&& found.range.start.0 == if heights.len() < query.count {
            lower
        } else if heights.len() > 0 {
            heights.last()
        } else {
            0
        }
    }
}

/// Filtering one element more: the element is appended where it passes.
proof fn lemma_filter_next(s: Seq<int>, k: int, keep: spec_fn(int) -> bool)
    requires
        0 <= k < s.len(),
    ensures
        s.subrange(0, k + 1).filter(keep) == if keep(s[k]) {
            s.subrange(0, k).filter(keep).push(s[k])
        } else {
            s.subrange(0, k).filter(keep)
        },
{
    let before = s.subrange(0, k);
    let after = s.subrange(0, k + 1);
    assert(after.drop_last() =~= before);
    assert(after.last() == s[k]);
    reveal(Seq::filter);
}

/// Where the walk stops, the heights found are the heights selected.
proof fn lemma_walk_done(s: Seq<int>, walked: int, count: nat, keep: spec_fn(int) -> bool)
    requires
        0 <= walked <= s.len(),
        s.subrange(0, walked).filter(keep).len() <= count,
        walked == s.len() || s.subrange(0, walked).filter(keep).len() == count,
    ensures
        s.subrange(0, walked).filter(keep) == if count <= s.filter(keep).len() {
            s.filter(keep).take(count as int)
        } else {
            s.filter(keep)
        },
{
    let all = s.filter(keep);
    let done = s.subrange(0, walked);
    let rest = s.subrange(walked, s.len() as int);
    assert(s =~= done + rest);
    Seq::filter_distributes_over_add(done, rest, keep);
    if walked == s.len() {
        assert(done =~= s);
        if count <= all.len() {
            assert(all.take(count as int) =~= all);
        }
    } else {
        assert(all.take(count as int) =~= done.filter(keep));
    }
}

/// The hashes of `txs`, in order.
fn transaction_hashes(txs: &Vec<Signed<RawTransaction>>) -> (v: Vec<crypto::Hash>)
    ensures
        v@ == hashes_of(txs@),
{
    let mut v: Vec<crypto::Hash> = Vec::new();
    let mut i: usize = 0;
    while i < txs.len()
        invariant
            i <= txs.len(),
            v.len() == i,
            forall|j: int| 0 <= j < i ==> v[j] == txs[j].hash,
        decreases txs.len() - i,
    {
        v.push(txs[i].hash);
        i = i + 1;
    }
    proof {
        assert(v@ =~= hashes_of(txs@));
    }
    v
}

/// The value of the hexadecimal digit `b`, an ASCII code; nothing where
/// `b` is no digit. Both cases of the letters count.
pub open spec fn hex_value(b: u8) -> Option<u8> {
    if 0x30 <= b <= 0x39 {
        Some((b - 0x30) as u8)
    } else if 0x41 <= b <= 0x46 {
        Some((b - 0x41 + 10) as u8)
    } else if 0x61 <= b <= 0x66 {
        Some((b - 0x61 + 10) as u8)
    } else {
        None
    }
}

/// Whether a byte that is no hexadecimal digit stands at `i` in `data`, and
/// none before.
pub open spec fn first_bad_digit(data: Seq<u8>, i: int) -> bool {
    &&& 0 <= i < data.len()
    &&& hex_value(data[i]) is None
    &&& forall|j: int| 0 <= j < i ==> hex_value(data[j]) is Some
}

/// The bytes that the hexadecimal text `data` stands for, two digits to a
/// byte, the first digit counting sixteenfold. A text of odd length is
/// refused; else a text with a byte that is no digit is refused, and the
/// error names the first such byte and its place.
pub open spec fn hex_decoded(data: Seq<u8>) -> Result<Seq<u8>, ApiError> {
    if data.len() % 2 != 0 {
        Err(ApiError::OddHexLength)
    } else if exists|i: int| first_bad_digit(data, i) {
        let i = choose|i: int| first_bad_digit(data, i);
        Err(ApiError::InvalidHexCharacter { c: data[i] as char, index: i as usize })
    } else {
        Ok(
            Seq::new(
                data.len() / 2,
                |k: int| (hex_value(data[2 * k])->0 * 16 + hex_value(data[2 * k + 1])->0) as u8,
            ),
        )
    }
}

/// Calls `hex::decode` on `data`. The contract states what the function's
/// source shows: it refuses a text of odd length; else it decodes digit by
/// digit from the front, two digits to a byte, and refuses the text at the
/// first byte that is none of `0-9`, `a-f`, `A-F`, naming that byte and its
/// index; else it returns the bytes.
#[verifier::external_body]
fn hex_decode(data: &[u8]) -> (r: Result<Vec<u8>, ApiError>)
    ensures
        match r {
            Ok(bytes) => hex_decoded(data@) == Ok::<Seq<u8>, ApiError>(bytes@),
            Err(e) => hex_decoded(data@) == Err::<Seq<u8>, ApiError>(e),
        },
{
    match hex::decode(data) {
        Ok(bytes) => Ok(bytes),
        Err(hex::FromHexError::InvalidHexCharacter { c, index }) => Err(
            ApiError::InvalidHexCharacter { c, index },
        ),
        Err(hex::FromHexError::OddLength) => Err(ApiError::OddHexLength),
        Err(hex::FromHexError::InvalidStringLength) => Err(ApiError::InvalidHexLength),
    }
}

impl TransactionHex {
    /// A posted transaction with the body `tx_body`.
    pub fn new(tx_body: String) -> (t: Self)
        ensures
            t.tx_body == tx_body,
    {
        TransactionHex { tx_body }
    }

    /// The signed bytes that the body stands for.
    pub fn decode(&self) -> (r: Result<Vec<u8>, ApiError>)
        ensures
            match r {
                Ok(bytes) => hex_decoded(vstd::utf8::encode_utf8(self.tx_body@)) == Ok::<Seq<u8>, ApiError>(
                    bytes@,
                ),
                Err(e) => hex_decoded(vstd::utf8::encode_utf8(self.tx_body@)) == Err::<Seq<u8>, ApiError>(e),
            },
    {
        hex_decode(self.tx_body.as_str().as_bytes())
    }
}

/// The explorer.
#[derive(Clone, Copy, Debug)]
pub struct ExplorerApi;

impl ExplorerApi {
    /// Returns blocks and the range of heights that was walked to collect
    /// them. Blocks come highest first, from `latest` (by default the last
    /// block) downwards, at most `count` of them and none below `earliest`;
    /// with `skip_empty_blocks` those without transactions are passed over.
    /// A `count` above `MAX_BLOCKS_PER_REQUEST` and a `latest` above the chain
    /// are refused.
    pub fn blocks(blockchain: &Blockchain, query: BlocksQuery) -> (r: Result<BlocksRange, ApiError>)
        requires
            blockchain.wf(),
        ensures
            blocks_result(blockchain.blocks@, query, r),
    {
        if query.count > MAX_BLOCKS_PER_REQUEST {
            return Err(ApiError::BlockCountExceeded { max: MAX_BLOCKS_PER_REQUEST });
        }
        let height = blockchain.height();
        let upper: u64 = match query.latest {
            Some(upper) => {
                if upper.0 > height.0 {
                    return Err(
                        ApiError::LatestHeightTooLarge { requested: upper, current: height },
                    );
                }
                upper.0
            },
            None => height.0,
        };
        let lower: u64 = match query.earliest {
            Some(lower) => lower.0,
            None => 0,
        };
        let ghost chain = blockchain.blocks@;
        let ghost keep = shown_heights(chain, query.skip_empty_blocks);
        let ghost down = heights_down(lower as int, upper as int);
        let mut blocks: Vec<BlockInfo> = Vec::new();
        // Number of heights walked so far, from `upper` downwards.
        let mut walked: u64 = 0;
        let total: u64 = if upper >= lower { upper - lower + 1 } else { 0 };
        proof {
            reveal(Seq::filter);
            assert(down.subrange(0, 0) =~= Seq::<int>::empty());
        }
        while walked < total && blocks.len() < query.count
            invariant
                blockchain.wf(),
                chain == blockchain.blocks@,
                upper < blockchain.blocks.len(),
                total == (if upper >= lower { upper - lower + 1 } else { 0 }),
                walked <= total,
                down == heights_down(lower as int, upper as int),
                keep == shown_heights(chain, query.skip_empty_blocks),
                blocks@.len() == down.subrange(0, walked as int).filter(keep).len(),
                blocks@.len() <= query.count,
                forall|i: int|
                    0 <= i < blocks@.len() ==> lower <= (#[trigger] down.subrange(
                        0,
                        walked as int,
                    ).filter(keep)[i]) <= upper,
                forall|i: int|
                    0 <= i < blocks@.len() ==> describes_block(
                        query,
                        chain[down.subrange(0, walked as int).filter(keep)[i]],
                        #[trigger] blocks@[i],
                    ),
            decreases total - walked,
        {
            let h: u64 = upper - walked;
            let block = &blockchain.blocks[h as usize];
            proof {
                lemma_filter_next(down, walked as int, keep);
                assert(down[walked as int] == h);
                assert(keep(h as int) == shows(query.skip_empty_blocks, chain[h as int]));
                assert(chain[h as int] == *block);
            }
            if !query.skip_empty_blocks || block.header.tx_count != 0 {
                let time = if query.add_blocks_time {
                    Some(median_precommits_time(&block.precommits))
                } else {
                    None
                };
                let precommits = if query.add_precommits {
                    Some(clone_precommits(&block.precommits))
                } else {
                    None
                };
                blocks.push(BlockInfo { txs: None, time, precommits, block: block.header });
            }
            walked = walked + 1;
        }
        let start: u64 = if blocks.len() < query.count {
            lower
        } else if blocks.len() > 0 {
            blocks[blocks.len() - 1].block.height.0
        } else {
            0
        };
        proof {
            lemma_walk_done(down, walked as int, query.count as nat, keep);
        }
        Ok(BlocksRange { range: Height(start)..Height(upper + 1), blocks })
    }

    /// Returns everything about the block at a height; fails where the chain
    /// has no block there.
    pub fn block(blockchain: &Blockchain, query: BlockQuery) -> (r: Result<BlockInfo, ApiError>)
        ensures
            match r {
                Ok(info) => query.height.0 < blockchain.blocks@.len() && describes_block_fully(
                    blockchain.blocks@[query.height.0 as int],
                    info,
                ),
                Err(e) => query.height.0 >= blockchain.blocks@.len() && e
                    == (ApiError::BlockNotFound { height: query.height }),
            },
    {
        match blockchain.block(query.height) {
            Some(block) => Ok(block_info_of(block)),
            None => Err(ApiError::BlockNotFound { height: query.height }),
        }
    }

    /// Hands the transaction `tx`, which a client posted, to the node, and
    /// answers with its hash. Fails where the node no longer takes requests.
    pub fn add_transaction(sender: &mut ApiSender, tx: Signed<RawTransaction>) -> (r: Result<
        TransactionResponse,
        ApiError,
    >)
        ensures
            final(sender).closed == old(sender).closed,
            r == if old(sender).closed {
                Err::<TransactionResponse, ApiError>(ApiError::NodeStopped)
            } else {
                Ok::<TransactionResponse, ApiError>(TransactionResponse { tx_hash: tx.hash })
            },
            external_view(final(sender).queue@) == if old(sender).closed {
                external_view(old(sender).queue@)
            } else {
                external_view(old(sender).queue@).push(ExternalMessageView::Transaction(tx@))
            },
    {
        let tx_hash = tx.hash;
        match sender.broadcast_transaction(tx) {
            Ok(()) => Ok(TransactionResponse { tx_hash }),
            Err(_) => Err(ApiError::NodeStopped),
        }
    }

    /// Looks a transaction up by its hash, in the pool and in the blocks.
    pub fn transaction_info(blockchain: &Blockchain, query: TransactionQuery) -> (r: Result<
        TransactionInfo,
        ApiError,
    >)
        requires
            blockchain.wf(),
        ensures
            match r {
                Ok(TransactionInfo::InPool { content }) => blockchain.pool.has(query.hash)
                    && content.hash == query.hash && exists|i: int|
                    0 <= i < blockchain.pool.txs@.len() && same_transaction(
                        #[trigger] blockchain.pool.txs@[i],
                        content,
                    ),
                Ok(TransactionInfo::Committed { content, location }) => {
                    &&& blockchain.is_committed(query.hash)
                    &&& content.hash == query.hash
                    &&& location.block_height.0 < blockchain.blocks@.len()
                    &&& location.position_in_block
                        < blockchain.blocks@[location.block_height.0 as int].transactions@.len()
                    &&& same_transaction(
                        blockchain.blocks@[location.block_height.0 as int].transactions@[location.position_in_block as int],
                        content,
                    )
                },
                Err(e) => !blockchain.knows(query.hash) && e == ApiError::UnknownTransaction,
            },
    {
        match blockchain.pool.position(&query.hash) {
            Some(i) => {
                return Ok(
                    TransactionInfo::InPool { content: clone_transaction(&blockchain.pool.txs[i]) },
                );
            },
            None => {},
        }
        match blockchain.committed_location(&query.hash) {
            Some(location) => {
                let block = &blockchain.blocks[location.block_height.0 as usize];
                let tx = &block.transactions[location.position_in_block as usize];
                Ok(TransactionInfo::Committed { content: clone_transaction(tx), location })
            },
            None => Err(ApiError::UnknownTransaction),
        }
    }
}

/// Everything that the explorer tells of `block`.
pub fn block_info_of(block: &StoredBlock) -> (info: BlockInfo)
    ensures
        describes_block_fully(*block, info),
{
    BlockInfo {
        block: block.header,
        precommits: Some(clone_precommits(&block.precommits)),
        txs: Some(transaction_hashes(&block.transactions)),
        time: Some(median_precommits_time(&block.precommits)),
    }
}

} // verus!
