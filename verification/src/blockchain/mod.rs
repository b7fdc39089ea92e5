//! The chain as the node sees it: stored configuration, blocks, the
//! transaction pool and what is persisted between restarts.

pub mod config;
pub mod pool;

pub use self::config::{ConsensusConfig, GenesisConfig, StoredConfiguration, ValidatorKeys};
pub use self::pool::TransactionPool;

use vstd::prelude::*;
use crate::blockchain::pool::{ascending, holds, lemma_pool_view, lemma_pool_without_all, pool_ascending, pool_has, pool_index, pool_taken, pool_with, pool_without_all};
use crate::crypto;
use crate::helpers::{Height, Round, ValidatorId};
use crate::messages::{
    transactions_view, Connect, Message, Payload, PayloadView, Precommit, RawTransaction, Signed,
    SignedView, TxView,
};

verus! {

/// Header of a block.
#[derive(Clone, Copy, Debug, PartialEq, Eq, Structural)]
pub struct Block {
    /// Index of the validator that proposed the block.
    pub proposer_id: ValidatorId,
    /// Height of the block.
    pub height: Height,
    /// Number of transactions in the block.
    pub tx_count: u32,
    /// Hash of the block before.
    pub prev_hash: crypto::Hash,
    /// Root hash of the block's transactions.
    pub tx_hash: crypto::Hash,
    /// Root hash of the state after the block.
    pub state_hash: crypto::Hash,
}

impl Block {
    /// Height of the block.
    pub fn height(&self) -> (h: Height)
        ensures
            h == self.height,
    {
        self.height
    }
}

/// What executing a propose gave: the header of the block, its hash, and the
/// root hash of the outcomes of its transactions.
#[derive(Clone, Copy, Debug, PartialEq, Eq, Structural)]
pub struct ExecutedBlock {
    /// Header of the block.
    pub block: Block,
    /// Hash of the header.
    pub block_hash: crypto::Hash,
    /// Root hash of the outcomes of the transactions.
    pub results_hash: crypto::Hash,
}

/// A committed block: header, hash, the precommits that justify it and its
/// transactions, in block order.
#[derive(Debug)]
pub struct StoredBlock {
    /// Hash of the header.
    pub hash: crypto::Hash,
    /// The header.
    pub header: Block,
    /// Precommits that justify the block.
    pub precommits: Vec<Signed<Precommit>>,
    /// The transactions, in block order.
    pub transactions: Vec<Signed<RawTransaction>>,
}

/// A committed block, as a mathematical value.
pub struct StoredBlockView {
    /// Hash of the header.
    pub hash: crypto::Hash,
    /// The header.
    pub header: Block,
    /// Precommits that justify the block.
    pub precommits: Seq<Signed<Precommit>>,
    /// The transactions, in block order.
    pub transactions: Seq<SignedView<TxView>>,
}

impl View for StoredBlock {
    type V = StoredBlockView;

    open spec fn view(&self) -> StoredBlockView {
        StoredBlockView {
            hash: self.hash,
            header: self.header,
            precommits: self.precommits@,
            transactions: transactions_view(self.transactions@),
        }
    }
}

/// The views of `blocks`, in order.
pub open spec fn blocks_view(blocks: Seq<StoredBlock>) -> Seq<StoredBlockView> {
    blocks.map_values(|b: StoredBlock| b@)
}

/// The views of `messages`, in order.
pub open spec fn messages_of(messages: Seq<Message>) -> Seq<SignedView<PayloadView>> {
    messages.map_values(|m: Message| m@)
}

/// A consensus message kept across restarts: one that the node was about to
/// send, kept so that the node does not contradict it later, or one that it
/// received.
#[derive(Debug)]
pub enum CachedMessage {
    /// A message of the node itself, as it was when the node made it.
    Own(Payload),
    /// A message that the node received.
    Received(Message),
}

/// A kept consensus message, as a mathematical value.
pub enum CachedMessageView {
    /// A message of the node itself.
    Own(PayloadView),
    /// A message that the node received.
    Received(SignedView<PayloadView>),
}

impl View for CachedMessage {
    type V = CachedMessageView;

    open spec fn view(&self) -> CachedMessageView {
        match *self {
            CachedMessage::Own(p) => CachedMessageView::Own(p@),
            CachedMessage::Received(m) => CachedMessageView::Received(m@),
        }
    }
}

impl Clone for CachedMessage {
    fn clone(&self) -> (r: Self)
        ensures
            r@ == self@,
    {
        match self {
            CachedMessage::Own(p) => CachedMessage::Own(p.clone()),
            CachedMessage::Received(m) => CachedMessage::Received(crate::messages::clone_message(m)),
        }
    }
}

/// The views of `messages`, in order.
pub open spec fn messages_view(messages: Seq<CachedMessage>) -> Seq<CachedMessageView> {
    messages.map_values(|m: CachedMessage| m@)
}

/// The chain and what is stored beside it, as a mathematical value.
pub struct ChainView {
    /// The committed blocks; the block at index `h` has height `h`.
    pub blocks: Seq<StoredBlockView>,
    /// Transactions that wait for a block, in ascending order of hash.
    pub pool: Seq<SignedView<TxView>>,
    /// Keys of the validators, in validator order.
    pub validators: Seq<ValidatorKeys>,
    /// Consensus parameters.
    pub consensus: ConsensusConfig,
    /// The round that the node had reached when it last saved it.
    pub consensus_round: Round,
    /// Consensus messages of the current height, kept across restarts.
    pub cache: Seq<CachedMessageView>,
    /// Advertisements of the peers that the node knew.
    pub saved_peers: Seq<Signed<Connect>>,
    /// The identifiers of the services.
    pub service_ids: Seq<u16>,
}

impl ChainView {
    /// Whether a block holds a transaction with the hash `hash`.
    pub open spec fn is_committed(self, hash: crypto::Hash) -> bool {
        exists|b: int|
            0 <= b < self.blocks.len() && pool_has((#[trigger] self.blocks[b]).transactions, hash)
    }

    /// Whether the pool or a block holds a transaction with the hash `hash`.
    pub open spec fn knows(self, hash: crypto::Hash) -> bool {
        pool_has(self.pool, hash) || self.is_committed(hash)
    }

    /// The invariant of the chain: there is a genesis block; heights count
    /// up from 0; every header names the hash of the block before and the
    /// number of its transactions; the pool is in ascending order of hash;
    /// and no transaction of the pool is in a block.
    pub open spec fn wf(self) -> bool {
        &&& 0 < self.blocks.len() < u64::MAX
        &&& forall|i: int|
            0 <= i < self.blocks.len() ==> (#[trigger] self.blocks[i]).header.height.0 == i
        &&& forall|i: int|
            0 < i < self.blocks.len() ==> (#[trigger] self.blocks[i]).header.prev_hash
                == self.blocks[i - 1].hash
        &&& forall|i: int|
            0 <= i < self.blocks.len() ==> (#[trigger] self.blocks[i]).header.tx_count
                == self.blocks[i].transactions.len()
        &&& pool_ascending(self.pool)
        &&& forall|h: crypto::Hash| !(pool_has(self.pool, h) && self.is_committed(h))
    }

    /// Height of the last block.
    pub open spec fn height(self) -> Height {
        Height((self.blocks.len() - 1) as u64)
    }

    /// Hash of the last block.
    pub open spec fn last_hash(self) -> crypto::Hash {
        self.blocks.last().hash
    }

    /// The chain after the transaction `tx` came: it joins the pool unless
    /// the pool or a block holds a transaction with its hash.
    pub open spec fn with_tx(self, tx: SignedView<TxView>) -> ChainView {
        if self.knows(tx.hash) {
            self
        } else {
            ChainView { pool: pool_with(self.pool, tx), ..self }
        }
    }

    /// Whether the block `executed`, with the transactions `hashes`, can
    /// follow the last block: it has the next height and names the last
    /// block, and `hashes` are as many transactions as it counts, all of them
    /// in the pool, none twice.
    pub open spec fn can_commit(self, executed: ExecutedBlock, hashes: Seq<crypto::Hash>) -> bool {
        &&& self.blocks.len() + 1 < u64::MAX
        &&& executed.block.height.0 == self.blocks.len()
        &&& executed.block.prev_hash == self.last_hash()
        &&& executed.block.tx_count == hashes.len()
        &&& hashes.no_duplicates()
        &&& forall|i: int| 0 <= i < hashes.len() ==> pool_has(self.pool, #[trigger] hashes[i])
    }

    /// The chain after the block `executed` was committed with the
    /// transactions `hashes` and the precommits `precommits`: the block comes
    /// last, its transactions leave the pool, the saved round is 1 again and
    /// the saved messages are gone.
    pub open spec fn commit(
        self,
        executed: ExecutedBlock,
        hashes: Seq<crypto::Hash>,
        precommits: Seq<Signed<Precommit>>,
    ) -> ChainView {
        ChainView {
            blocks: self.blocks.push(
                StoredBlockView {
                    hash: executed.block_hash,
                    header: executed.block,
                    precommits,
                    transactions: pool_taken(self.pool, hashes),
                },
            ),
            pool: pool_without_all(self.pool, hashes),
            consensus_round: Round(1),
            cache: Seq::empty(),
            ..self
        }
    }
}

/// Every transaction taken out of a pool has one of the hashes named; and
/// where the pool is ascending and every hash named is in it, none twice,
/// the transactions taken are as many as the hashes.
pub proof fn lemma_pool_taken(pool: Seq<SignedView<TxView>>, hashes: Seq<crypto::Hash>)
    requires
        pool_ascending(pool),
    ensures
        forall|i: int|
            0 <= i < pool_taken(pool, hashes).len() ==> hashes.contains(
                (#[trigger] pool_taken(pool, hashes)[i]).hash,
            ) && pool_has(pool, pool_taken(pool, hashes)[i].hash),
        (hashes.no_duplicates() && forall|i: int|
            0 <= i < hashes.len() ==> pool_has(pool, #[trigger] hashes[i])) ==> pool_taken(
            pool,
            hashes,
        ).len() == hashes.len(),
    decreases hashes.len(),
{
    if hashes.len() > 0 {
        let rest = hashes.drop_last();
        let last = hashes.last();
        lemma_pool_taken(pool, rest);
        lemma_pool_without_all(pool, rest);
        let left = pool_without_all(pool, rest);
        let before = pool_taken(pool, rest);
        let out = pool_taken(pool, hashes);
        assert forall|i: int| 0 <= i < out.len() implies hashes.contains((#[trigger] out[i]).hash)
            && pool_has(pool, out[i].hash) by {
            if i < before.len() {
                assert(out[i] == before[i]);
                let k = choose|k: int| 0 <= k < rest.len() && rest[k] == before[i].hash;
                assert(hashes[k] == before[i].hash);
            } else {
                assert(out[i].hash == last);
                assert(hashes[hashes.len() - 1] == last);
            }
        }
        if hashes.no_duplicates() && forall|i: int|
            0 <= i < hashes.len() ==> pool_has(pool, #[trigger] hashes[i]) {
            assert(rest.no_duplicates());
            assert forall|i: int| 0 <= i < rest.len() implies pool_has(pool, #[trigger] rest[i]) by {
                assert(rest[i] == hashes[i]);
            }
            assert(pool_has(pool, hashes[hashes.len() - 1]));
            assert(!rest.contains(last)) by {
                if rest.contains(last) {
                    let k = choose|k: int| 0 <= k < rest.len() && rest[k] == last;
                    assert(hashes[k] == hashes[hashes.len() - 1]);
                }
            }
            assert(pool_has(left, last));
        }
    }
}

/// Committing a block that can follow the last one keeps the invariant of
/// the chain. In particular, no transaction of the pool is in a block
/// afterwards.
pub proof fn lemma_commit_keeps_wf(
    chain: ChainView,
    executed: ExecutedBlock,
    hashes: Seq<crypto::Hash>,
    precommits: Seq<Signed<Precommit>>,
)
    requires
        chain.wf(),
        chain.can_commit(executed, hashes),
    ensures
        chain.commit(executed, hashes, precommits).wf(),
        forall|h: crypto::Hash|
            chain.commit(executed, hashes, precommits).is_committed(h) <==> (chain.is_committed(h)
                || hashes.contains(h)),
        forall|h: crypto::Hash|
            pool_has(chain.commit(executed, hashes, precommits).pool, h) <==> (pool_has(
                chain.pool,
                h,
            ) && !hashes.contains(h)),
{
    let after = chain.commit(executed, hashes, precommits);
    let taken = pool_taken(chain.pool, hashes);
    lemma_pool_taken(chain.pool, hashes);
    lemma_pool_without_all(chain.pool, hashes);
    let last = chain.blocks.len() as int;
    assert(after.blocks[last].transactions == taken);
    assert forall|i: int| 0 <= i < after.blocks.len() implies (
    #[trigger] after.blocks[i]).header.height.0 == i && after.blocks[i].header.tx_count
        == after.blocks[i].transactions.len() by {
        if i < last {
            assert(after.blocks[i] == chain.blocks[i]);
        }
    }
    assert forall|i: int| 0 < i < after.blocks.len() implies (
    #[trigger] after.blocks[i]).header.prev_hash == after.blocks[i - 1].hash by {
        assert(after.blocks[i - 1] == chain.blocks[i - 1]);
        if i < last {
            assert(after.blocks[i] == chain.blocks[i]);
        }
    }
    assert forall|h: crypto::Hash| after.is_committed(h) <==> (chain.is_committed(h)
        || hashes.contains(h)) by {
        if after.is_committed(h) {
            let b = choose|b: int|
                0 <= b < after.blocks.len() && pool_has(
                    (#[trigger] after.blocks[b]).transactions,
                    h,
                );
            if b < last {
                assert(after.blocks[b] == chain.blocks[b]);
            } else {
                let i = pool_index(taken, h);
                assert(hashes.contains(taken[i].hash));
            }
        }
        if chain.is_committed(h) {
            let b = choose|b: int|
                0 <= b < chain.blocks.len() && pool_has(
                    (#[trigger] chain.blocks[b]).transactions,
                    h,
                );
            assert(after.blocks[b] == chain.blocks[b]);
        }
        if hashes.contains(h) {
            lemma_taken_has(chain.pool, hashes, h);
            assert(pool_has(after.blocks[last].transactions, h));
        }
    }
    assert forall|h: crypto::Hash| !(pool_has(after.pool, h) && after.is_committed(h)) by {
        if pool_has(after.pool, h) && after.is_committed(h) {
            assert(pool_has(chain.pool, h));
            assert(!hashes.contains(h));
            assert(chain.is_committed(h));
        }
    }
}

/// Where every hash named is in an ascending pool, none twice, a
/// transaction with each of them is among those taken.
pub proof fn lemma_taken_has(
    pool: Seq<SignedView<TxView>>,
    hashes: Seq<crypto::Hash>,
    h: crypto::Hash,
)
    requires
        pool_ascending(pool),
        hashes.no_duplicates(),
        forall|i: int| 0 <= i < hashes.len() ==> pool_has(pool, #[trigger] hashes[i]),
        hashes.contains(h),
    ensures
        pool_has(pool_taken(pool, hashes), h),
    decreases hashes.len(),
{
    let rest = hashes.drop_last();
    let last = hashes.last();
    let left = pool_without_all(pool, rest);
    let before = pool_taken(pool, rest);
    let out = pool_taken(pool, hashes);
    lemma_pool_without_all(pool, rest);
    assert(pool_has(pool, hashes[hashes.len() - 1]));
    assert(!rest.contains(last)) by {
        if rest.contains(last) {
            let k = choose|k: int| 0 <= k < rest.len() && rest[k] == last;
            assert(hashes[k] == hashes[hashes.len() - 1]);
        }
    }
    assert(pool_has(left, last));
    if h == last {
        assert(out[before.len() as int].hash == h);
    } else {
        let k = choose|k: int| 0 <= k < hashes.len() && hashes[k] == h;
        assert(rest[k] == h);
        assert(rest.no_duplicates());
        assert forall|i: int| 0 <= i < rest.len() implies pool_has(pool, #[trigger] rest[i]) by {
            assert(rest[i] == hashes[i]);
        }
        lemma_taken_has(pool, rest, h);
        let i = pool_index(before, h);
        assert(out[i].hash == h);
    }
}

/// Where a committed transaction stands.
#[derive(Clone, Copy, Debug, PartialEq, Eq, Structural)]
pub struct TxLocation {
    /// Height of its block.
    pub block_height: Height,
    /// Its position in the block.
    pub position_in_block: u64,
}

/// A service, as far as admitting transactions goes. Implemented by the
/// user of the node.
pub trait Service {
    /// Identifier of the service.
    fn service_id(&self) -> u16;

    /// Name of the service.
    fn service_name(&self) -> String;

    /// Whether `raw` is a well-formed transaction of this service.
    fn accepts(&self, raw: &RawTransaction) -> bool;
}

/// The chain and what is stored beside it.
pub struct Blockchain {
    /// The committed blocks; the block at index `h` has height `h`.
    pub blocks: Vec<StoredBlock>,
    /// Transactions that wait for a block.
    pub pool: TransactionPool,
    /// The configuration in force.
    pub configuration: StoredConfiguration,
    /// The round that the node had reached when it last saved it.
    pub consensus_round: Round,
    /// Consensus messages of the current height, kept across restarts.
    pub consensus_messages_cache: Vec<CachedMessage>,
    /// Advertisements of the peers that the node knew.
    pub saved_peers: Vec<Signed<Connect>>,
    /// The services.
    pub services: Vec<Box<dyn Service>>,
    /// The identifier of each service, as the service gave it when the chain
    /// was made.
    pub service_ids: Vec<u16>,
}

impl View for Blockchain {
    type V = ChainView;

    open spec fn view(&self) -> ChainView {
        ChainView {
            blocks: blocks_view(self.blocks@),
            pool: self.pool@,
            validators: self.configuration.validator_keys@,
            consensus: self.configuration.consensus,
            consensus_round: self.consensus_round,
            cache: messages_view(self.consensus_messages_cache@),
            saved_peers: self.saved_peers@,
            service_ids: self.service_ids@,
        }
    }
}

/// What the invariant says of the chain, it says of its view, and the other
/// way round.
pub proof fn lemma_chain_view(chain: &Blockchain)
    ensures
        forall|h: crypto::Hash| chain.is_committed(h) == chain@.is_committed(h),
        forall|h: crypto::Hash| chain.pool.has(h) == pool_has(chain@.pool, h),
        chain.wf() == (chain@.wf() && chain.service_ids@.len() == chain.services@.len()),
{
    let view = chain@;
    lemma_pool_view(chain.pool.txs@);
    assert forall|h: crypto::Hash| chain.is_committed(h) == view.is_committed(h) by {
        if chain.is_committed(h) {
            let b = choose|b: int|
                0 <= b < chain.blocks@.len() && holds((#[trigger] chain.blocks@[b]).transactions@, h);
            lemma_pool_view(chain.blocks@[b].transactions@);
            assert(pool_has(view.blocks[b].transactions, h));
        }
        if view.is_committed(h) {
            let b = choose|b: int|
                0 <= b < view.blocks.len() && pool_has((#[trigger] view.blocks[b]).transactions, h);
            lemma_pool_view(chain.blocks@[b].transactions@);
            assert(holds(chain.blocks@[b].transactions@, h));
        }
    }
    if chain.wf() {
        assert forall|i: int| 0 <= i < view.blocks.len() implies (
        #[trigger] view.blocks[i]).header.height.0 == i && view.blocks[i].header.tx_count
            == view.blocks[i].transactions.len() by {
            assert(chain.blocks@[i].header.height.0 == i);
        }
        assert forall|i: int| 0 < i < view.blocks.len() implies (
        #[trigger] view.blocks[i]).header.prev_hash == view.blocks[i - 1].hash by {
            assert(chain.blocks@[i].header.prev_hash == chain.blocks@[i - 1].hash);
        }
        assert forall|h: crypto::Hash| !(pool_has(view.pool, h) && view.is_committed(h)) by {
            assert(chain.pool.has(h) == pool_has(view.pool, h));
            assert(chain.is_committed(h) == view.is_committed(h));
            assert(!(chain.pool.has(h) && committed_in(chain.blocks@, h)));
        }
        assert(view.wf());
    }
    if view.wf() {
        assert forall|i: int| 0 <= i < chain.blocks@.len() implies (
        #[trigger] chain.blocks@[i]).header.height.0 == i && chain.blocks@[i].header.tx_count
            == chain.blocks@[i].transactions@.len() by {
            assert(view.blocks[i].header.height.0 == i);
        }
        assert forall|i: int| 0 < i < chain.blocks@.len() implies (
        #[trigger] chain.blocks@[i]).header.prev_hash == chain.blocks@[i - 1].hash by {
            assert(view.blocks[i].header.prev_hash == view.blocks[i - 1].hash);
        }
        assert forall|h: crypto::Hash| !(chain.pool.has(h) && committed_in(chain.blocks@, h)) by {
            assert(chain.pool.has(h) == pool_has(view.pool, h));
            assert(chain.is_committed(h) == view.is_committed(h));
            assert(!(pool_has(view.pool, h) && view.is_committed(h)));
        }
        assert(chain.pool.wf());
    }
}

/// Some block of `blocks` holds a transaction with the hash `hash`.
pub open spec fn committed_in(blocks: Seq<StoredBlock>, hash: crypto::Hash) -> bool {
    exists|b: int| 0 <= b < blocks.len() && holds((#[trigger] blocks[b]).transactions@, hash)
}

impl Blockchain {
    /// The invariant of the chain: there is a genesis block; heights count
    /// up from 0; every header names the hash of the block before and the
    /// number of its transactions; and no transaction of the pool is in a
    /// block.
    pub open spec fn wf(&self) -> bool {
        &&& 0 < self.blocks@.len() < u64::MAX
        &&& forall|i: int|
            0 <= i < self.blocks@.len() ==> (#[trigger] self.blocks@[i]).header.height.0 == i
        &&& forall|i: int|
            0 < i < self.blocks@.len() ==> (#[trigger] self.blocks@[i]).header.prev_hash
                == self.blocks@[i - 1].hash
        &&& forall|i: int|
            0 <= i < self.blocks@.len() ==> (#[trigger] self.blocks@[i]).header.tx_count
                == self.blocks@[i].transactions@.len()
        &&& self.pool.wf()
        &&& forall|h: crypto::Hash| !(self.pool.has(h) && committed_in(self.blocks@, h))
        &&& self.service_ids@.len() == self.services@.len()
    }

    /// Whether the node has a service with the identifier `id`.
    pub open spec fn has_service(&self, id: u16) -> bool {
        self.service_ids@.contains(id)
    }

    /// Whether a committed block holds a transaction with the hash `hash`.
    pub open spec fn is_committed(&self, hash: crypto::Hash) -> bool {
        committed_in(self.blocks@, hash)
    }

    /// Whether the pool or a block holds a transaction with the hash `hash`.
    pub open spec fn knows(&self, hash: crypto::Hash) -> bool {
        self.pool.has(hash) || self.is_committed(hash)
    }

    /// A chain that holds the genesis block `genesis` and nothing else.
    pub fn new(
        services: Vec<Box<dyn Service>>,
        configuration: StoredConfiguration,
        genesis: StoredBlock,
    ) -> (chain: Self)
        requires
            genesis.header.height.0 == 0,
            genesis.transactions@.len() == 0,
            genesis.header.tx_count == 0,
        ensures
            chain.wf(),
            chain.blocks@ == seq![genesis],
            chain.pool.txs@.len() == 0,
            chain.configuration == configuration,
            chain.consensus_round == Round(1),
            chain.consensus_messages_cache@.len() == 0,
            chain.saved_peers@.len() == 0,
            chain.services == services,
            chain.service_ids@.len() == services@.len(),
    {
        let mut blocks: Vec<StoredBlock> = Vec::new();
        blocks.push(genesis);
        let mut service_ids: Vec<u16> = Vec::new();
        let mut i: usize = 0;
        while i < services.len()
            invariant
                i <= services.len(),
                service_ids.len() == i,
            decreases services.len() - i,
        {
            service_ids.push(services[i].service_id());
            i = i + 1;
        }
        let chain = Blockchain {
            blocks,
            pool: TransactionPool::new(),
            configuration,
            consensus_round: Round::first(),
            consensus_messages_cache: Vec::new(),
            saved_peers: Vec::new(),
            services,
            service_ids,
        };
        proof {
            assert(chain.blocks@ =~= seq![genesis]);
        }
        chain
    }

    /// The last committed block.
    pub fn last_block(&self) -> (b: &StoredBlock)
        requires
            self.wf(),
        ensures
            *b == self.blocks@.last(),
    {
        &self.blocks[self.blocks.len() - 1]
    }

    /// Hash of the last committed block.
    pub fn last_hash(&self) -> (h: crypto::Hash)
        requires
            self.wf(),
        ensures
            h == self.blocks@.last().hash,
    {
        self.blocks[self.blocks.len() - 1].hash
    }

    /// Height of the last committed block.
    pub fn height(&self) -> (h: Height)
        requires
            self.wf(),
        ensures
            h.0 == self.blocks@.len() - 1,
    {
        Height((self.blocks.len() - 1) as u64)
    }

    /// Number of transactions in the pool.
    pub fn transactions_pool_len(&self) -> (n: u64)
        ensures
            n == self.pool.txs@.len(),
    {
        self.pool.len() as u64
    }

    /// The block at the height `height`.
    pub fn block(&self, height: Height) -> (r: Option<&StoredBlock>)
        ensures
            match r {
                Some(b) => height.0 < self.blocks@.len() && *b == self.blocks@[height.0 as int],
                None => height.0 >= self.blocks@.len(),
            },
    {
        if height.0 < self.blocks.len() as u64 {
            Some(&self.blocks[height.0 as usize])
        } else {
            None
        }
    }

    /// Where the committed transaction with the hash `hash` stands: the
    /// first place, in chain order, that holds it.
    pub fn committed_location(&self, hash: &crypto::Hash) -> (r: Option<TxLocation>)
        requires
            self.wf(),
        ensures
            r is Some <==> self.is_committed(*hash),
            r matches Some(loc) ==> {
                &&& loc.block_height.0 < self.blocks.len()
                &&& loc.position_in_block < self.blocks@[loc.block_height.0 as int].transactions.len()
                &&& self.blocks@[loc.block_height.0 as int].transactions@[loc.position_in_block as int].hash
                    == *hash
            },
    {
        let mut b: usize = 0;
        while b < self.blocks.len()
            invariant
                b <= self.blocks.len(),
                self.wf(),
                forall|k: int| 0 <= k < b ==> !holds((#[trigger] self.blocks@[k]).transactions@, *hash),
            decreases self.blocks.len() - b,
        {
            let txs = &self.blocks[b].transactions;
            let mut i: usize = 0;
            while i < txs.len()
                invariant
                    i <= txs.len(),
                    b < self.blocks.len(),
                    *txs == self.blocks@[b as int].transactions,
                    forall|j: int| 0 <= j < i ==> (#[trigger] txs@[j]).hash != *hash,
                decreases txs.len() - i,
            {
                if txs[i].hash == *hash {
                    return Some(
                        TxLocation {
                            block_height: Height(b as u64),
                            position_in_block: i as u64,
                        },
                    );
                }
                i = i + 1;
            }
            b = b + 1;
        }
        None
    }

    /// Whether the node has a service with the identifier `id`.
    pub fn is_service(&self, id: u16) -> (b: bool)
        ensures
            b == self@.service_ids.contains(id),
    {
        let mut i: usize = 0;
        while i < self.service_ids.len()
            invariant
                i <= self.service_ids.len(),
                forall|j: int| 0 <= j < i ==> self.service_ids@[j] != id,
            decreases self.service_ids.len() - i,
        {
            if self.service_ids[i] == id {
                return true;
            }
            i = i + 1;
        }
        false
    }

    /// Whether the pool or a block holds a transaction with the hash `hash`.
    pub fn is_known(&self, hash: &crypto::Hash) -> (b: bool)
        requires
            self.wf(),
        ensures
            b == self@.knows(*hash),
            b == self.knows(*hash),
    {
        proof {
            lemma_chain_view(self);
        }
        self.pool.contains(hash) || self.committed_location(hash).is_some()
    }

    /// Whether a block holds a transaction with the hash `hash`.
    pub fn is_in_block(&self, hash: &crypto::Hash) -> (b: bool)
        requires
            self.wf(),
        ensures
            b == self@.is_committed(*hash),
    {
        proof {
            lemma_chain_view(self);
        }
        self.committed_location(hash).is_some()
    }

    /// Puts the transaction `tx` into the pool, unless the pool or a block
    /// holds a transaction with its hash. Returns whether it was put there.
    pub fn add_transaction_into_pool(&mut self, tx: Signed<RawTransaction>) -> (added: bool)
        requires
            old(self).wf(),
        ensures
            final(self).wf(),
            added == !old(self)@.knows(tx.hash),
            final(self)@ == old(self)@.with_tx(tx@),
            final(self).services == old(self).services,
    {
        if self.is_known(&tx.hash) {
            return false;
        }
        let ghost hash = tx.hash;
        self.pool.insert(tx);
        proof {
            assert forall|h: crypto::Hash| !(self.pool.has(h) && committed_in(self.blocks@, h)) by {
                if h != hash {
                    assert(!(old(self).pool.has(h) && committed_in(self.blocks@, h)));
                }
            }
        }
        true
    }

    /// Whether the block `executed` with the transactions `hashes` can
    /// follow the last block.
    pub fn can_commit(&self, executed: &ExecutedBlock, hashes: &Vec<crypto::Hash>) -> (b: bool)
        requires
            self.wf(),
        ensures
            b == self@.can_commit(*executed, hashes@),
    {
        proof {
            lemma_chain_view(self);
        }
        if !(self.blocks.len() as u64 + 1 < u64::MAX && executed.block.height.0
            == self.blocks.len() as u64 && executed.block.prev_hash == self.last_hash()
            && executed.block.tx_count as usize == hashes.len() && hashes.len()
            <= u32::MAX as usize) {
            return false;
        }
        let mut i: usize = 0;
        while i < hashes.len()
            invariant
                i <= hashes.len(),
                self.wf(),
                forall|h: crypto::Hash| self.pool.has(h) == pool_has(self@.pool, h),
                forall|k: int| 0 <= k < i ==> pool_has(self@.pool, #[trigger] hashes@[k]),
                forall|a: int, b: int| 0 <= a < b < i ==> hashes@[a] != hashes@[b],
            decreases hashes.len() - i,
        {
            if !self.pool.contains(&hashes[i]) {
                return false;
            }
            let mut k: usize = 0;
            while k < i
                invariant
                    k <= i,
                    i < hashes.len(),
                    forall|a: int| 0 <= a < k ==> hashes@[a] != hashes@[i as int],
                decreases i - k,
            {
                if hashes[k] == hashes[i] {
                    return false;
                }
                k = k + 1;
            }
            i = i + 1;
        }
        true
    }

    /// Commits the block `executed` with the transactions `hashes` and the
    /// precommits `precommits`.
    pub fn commit(
        &mut self,
        executed: ExecutedBlock,
        hashes: &Vec<crypto::Hash>,
        precommits: Vec<Signed<Precommit>>,
    )
        requires
            old(self).wf(),
            old(self)@.can_commit(executed, hashes@),
        ensures
            final(self).wf(),
            final(self)@ == old(self)@.commit(executed, hashes@, precommits@),
            final(self).services == old(self).services,
    {
        let ghost before = self@;
        proof {
            lemma_chain_view(self);
        }
        let mut txs: Vec<Signed<RawTransaction>> = Vec::new();
        let mut i: usize = 0;
        while i < hashes.len()
            invariant
                i <= hashes.len(),
                self.pool.wf(),
                self.pool@ == pool_without_all(before.pool, hashes@.subrange(0, i as int)),
                transactions_view(txs@) == pool_taken(before.pool, hashes@.subrange(0, i as int)),
                self.blocks == old(self).blocks,
                self.configuration == old(self).configuration,
                self.consensus_round == old(self).consensus_round,
                self.consensus_messages_cache == old(self).consensus_messages_cache,
                self.saved_peers == old(self).saved_peers,
                self.services == old(self).services,
                self.service_ids == old(self).service_ids,
            decreases hashes.len() - i,
        {
            proof {
                assert(hashes@.subrange(0, i + 1).drop_last() =~= hashes@.subrange(0, i as int));
                lemma_pool_view(self.pool.txs@);
            }
            let ghost left = self.pool@;
            let ghost taken = transactions_view(txs@);
            match self.pool.remove(&hashes[i]) {
                Some(t) => {
                    txs.push(t);
                    proof {
                        assert(transactions_view(txs@) =~= taken.push(t@));
                    }
                },
                None => {},
            }
            i = i + 1;
        }
        proof {
            assert(hashes@.subrange(0, i as int) =~= hashes@);
        }
        let ghost block_view = StoredBlockView {
            hash: executed.block_hash,
            header: executed.block,
            precommits: precommits@,
            transactions: transactions_view(txs@),
        };
        self.blocks.push(
            StoredBlock {
                hash: executed.block_hash,
                header: executed.block,
                precommits,
                transactions: txs,
            },
        );
        self.consensus_round = Round::first();
        self.consensus_messages_cache = Vec::new();
        proof {
            let goal = before.commit(executed, hashes@, precommits@);
            assert(self@.blocks =~= goal.blocks);
            assert(self@.cache =~= goal.cache);
            assert(self@ == goal);
            lemma_commit_keeps_wf(before, executed, hashes@, precommits@);
            lemma_chain_view(self);
        }
    }

    /// Saves the round `round`, to go on from it after a restart.
    pub fn save_round(&mut self, round: Round)
        requires
            old(self).wf(),
        ensures
            final(self).wf(),
            final(self)@ == (ChainView { consensus_round: round, ..old(self)@ }),
            final(self).services == old(self).services,
    {
        self.consensus_round = round;
    }

    /// Saves the consensus message `message`, to handle it again after a
    /// restart.
    pub fn save_message(&mut self, message: CachedMessage)
        requires
            old(self).wf(),
        ensures
            final(self).wf(),
            final(self)@ == (ChainView { cache: old(self)@.cache.push(message@), ..old(self)@ }),
            final(self).services == old(self).services,
    {
        let ghost before = self@.cache;
        self.consensus_messages_cache.push(message);
        proof {
            assert(self@.cache =~= before.push(message@));
        }
    }

    /// The saved consensus messages, oldest first.
    pub fn consensus_messages_cache(&self) -> (cache: Vec<CachedMessage>)
        ensures
            messages_view(cache@) == self@.cache,
    {
        let mut cache: Vec<CachedMessage> = Vec::new();
        let mut i: usize = 0;
        while i < self.consensus_messages_cache.len()
            invariant
                i <= self.consensus_messages_cache.len(),
                cache.len() == i,
                forall|j: int| 0 <= j < i ==> cache@[j]@ == self.consensus_messages_cache@[j]@,
            decreases self.consensus_messages_cache.len() - i,
        {
            cache.push(self.consensus_messages_cache[i].clone());
            i = i + 1;
        }
        proof {
            assert(messages_view(cache@) =~= self@.cache);
        }
        cache
    }

    /// The round that the node had reached when it last saved it.
    pub fn consensus_round(&self) -> (r: Round)
        ensures
            r == self@.consensus_round,
    {
        self.consensus_round
    }

    /// The configuration in force.
    pub fn actual_configuration(&self) -> (c: StoredConfiguration)
        ensures
            c.validator_keys@ == self@.validators,
            c.consensus == self@.consensus,
            c.actual_from == self.configuration.actual_from,
    {
        self.configuration.clone()
    }

    /// Advertisements of the peers that the node knew.
    pub fn get_saved_peers(&self) -> (peers: Vec<Signed<Connect>>)
        ensures
            peers@ == self@.saved_peers,
    {
        let mut peers: Vec<Signed<Connect>> = Vec::new();
        let mut i: usize = 0;
        while i < self.saved_peers.len()
            invariant
                i <= self.saved_peers.len(),
                peers.len() == i,
                forall|j: int| 0 <= j < i ==> peers@[j] == self.saved_peers@[j],
            decreases self.saved_peers.len() - i,
        {
            peers.push(crate::messages::clone_connect(&self.saved_peers[i]));
            i = i + 1;
        }
        proof {
            assert(peers@ =~= self.saved_peers@);
        }
        peers
    }

    /// Whether a service of the node accepts `raw`: the first service with
    /// the transaction's identifier decides; with no such service the answer
    /// is no.
    pub fn tx_from_raw(&self, raw: &RawTransaction) -> (accepted: bool)
        requires
            self.wf(),
        ensures
            !self.has_service(raw.service_id) ==> !accepted,
    {
        match self.service_position(raw.service_id) {
            Some(i) => self.services[i].accepts(raw),
            None => false,
        }
    }

    /// Whether the service at `i` is the first with the identifier `id`.
    pub open spec fn first_service_at(&self, id: u16, i: int) -> bool {
        &&& 0 <= i < self.service_ids@.len()
        &&& self.service_ids@[i] == id
        &&& forall|j: int| 0 <= j < i ==> self.service_ids@[j] != id
    }

    /// Place of the service that is asked about a transaction with the
    /// identifier `id`: the first service with that identifier, if the node
    /// has one.
    pub fn service_position(&self, id: u16) -> (r: Option<usize>)
        requires
            self.wf(),
        ensures
            match r {
                Some(i) => self.first_service_at(id, i as int) && i < self.services@.len(),
                None => !self.has_service(id),
            },
    {
        let mut i: usize = 0;
        while i < self.service_ids.len()
            invariant
                i <= self.service_ids.len(),
                self.service_ids@.len() == self.services@.len(),
                forall|j: int| 0 <= j < i ==> self.service_ids@[j] != id,
            decreases self.service_ids.len() - i,
        {
            if self.service_ids[i] == id {
                return Some(i);
            }
            i = i + 1;
        }
        proof {
            if self.has_service(id) {
                let j = choose|j: int|
                    0 <= j < self.service_ids@.len() && self.service_ids@[j] == id;
                assert(self.service_ids@[j] != id);
            }
        }
        None
    }
}

} // verus!
