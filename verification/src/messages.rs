//! The messages that nodes exchange, as values. A message reaches the node
//! after its signature has been checked; what signs and hashes it stands
//! outside this library, and hands over the author, the digest and the
//! signature together with the content.

use vstd::prelude::*;
use crate::blockchain::Block;
use crate::crypto::{self, PublicKey, Signature};
use crate::helpers::{Height, Round, ValidatorId};

verus! {

/// A point in time: whole seconds since the Unix epoch, and the nanoseconds
/// into that second.
#[derive(Clone, Copy, Debug, PartialEq, Eq, Structural)]
pub struct Timestamp {
    /// Seconds since the Unix epoch; negative before it.
    pub secs: i64,
    /// Nanoseconds into the second.
    pub nanos: u32,
}

impl Timestamp {
    /// The Unix epoch.
    pub fn epoch() -> (t: Timestamp)
        ensures
            t == (Timestamp { secs: 0, nanos: 0 }),
    {
        Timestamp { secs: 0, nanos: 0 }
    }

    /// The point in time `ms` milliseconds after the Unix epoch.
    pub fn from_millis(ms: u64) -> (t: Timestamp)
        ensures
            t.secs == ms / 1000,
            t.nanos == (ms % 1000) * 1_000_000,
    {
        let secs: i64 = (ms / 1000) as i64;
        let nanos: u32 = ((ms % 1000) as u32) * 1_000_000;
        Timestamp { secs, nanos }
    }

    /// `self` is not later than `other`.
    pub open spec fn spec_le(self, other: Timestamp) -> bool {
        self.secs < other.secs || (self.secs == other.secs && self.nanos <= other.nanos)
    }

    /// Whether `self` is not later than `other`.
    pub fn le(&self, other: &Timestamp) -> (b: bool)
        ensures
            b == self.spec_le(*other),
    {
        self.secs < other.secs || (self.secs == other.secs && self.nanos <= other.nanos)
    }
}

/// A message together with what its signature check established: who
/// signed it, and the digest of the signed bytes, which is the message's
/// identity.
#[derive(Clone, Copy, Debug)]
pub struct Signed<T> {
    /// The content.
    pub payload: T,
    /// Public key of the signer.
    pub author: PublicKey,
    /// Digest of the signed bytes.
    pub hash: crypto::Hash,
    /// The signature.
    pub signature: Signature,
}

impl<T> Signed<T> {
    /// Puts a checked message together.
    pub fn new(payload: T, author: PublicKey, hash: crypto::Hash, signature: Signature) -> (s:
        Self)
        ensures
            s.payload == payload,
            s.author == author,
            s.hash == hash,
            s.signature == signature,
    {
        Signed { payload, author, hash, signature }
    }

    /// Public key of the signer.
    pub fn author(&self) -> (k: PublicKey)
        ensures
            k == self.author,
    {
        self.author
    }

    /// Digest of the signed bytes.
    pub fn hash(&self) -> (h: crypto::Hash)
        ensures
            h == self.hash,
    {
        self.hash
    }

    /// The content.
    pub fn payload(&self) -> (p: &T)
        ensures
            *p == self.payload,
    {
        &self.payload
    }
}

/// A checked message, as a mathematical value.
pub struct SignedView<V> {
    /// The content.
    pub payload: V,
    /// Public key of the signer.
    pub author: PublicKey,
    /// Digest of the signed bytes.
    pub hash: crypto::Hash,
    /// The signature.
    pub signature: Signature,
}

impl<T: View> View for Signed<T> {
    type V = SignedView<T::V>;

    open spec fn view(&self) -> SignedView<T::V> {
        SignedView {
            payload: self.payload@,
            author: self.author,
            hash: self.hash,
            signature: self.signature,
        }
    }
}

/// Advertisement of a node's address.
#[derive(Debug)]
pub struct Connect {
    /// Address at which the node is reached.
    pub pub_addr: String,
    /// When the advertisement was made.
    pub time: Timestamp,
    /// Version of the software.
    pub user_agent: String,
}

impl Connect {
    /// An advertisement.
    pub fn new(pub_addr: &str, time: Timestamp, user_agent: &str) -> (c: Self)
        ensures
            c.pub_addr@ == pub_addr@,
            c.time == time,
            c.user_agent@ == user_agent@,
    {
        Connect { pub_addr: pub_addr.to_owned(), time, user_agent: user_agent.to_owned() }
    }
}

impl Clone for Connect {
    fn clone(&self) -> (c: Self)
        ensures
            c == *self,
    {
        Connect {
            pub_addr: self.pub_addr.clone(),
            time: self.time,
            user_agent: self.user_agent.clone(),
        }
    }
}

/// Progress beacon: the height a node works on and its last block.
#[derive(Clone, Copy, Debug, PartialEq, Eq, Structural)]
pub struct Status {
    /// Height of the block that the node builds.
    pub height: Height,
    /// Hash of the node's last block.
    pub last_hash: crypto::Hash,
}

/// Nomination of a block: the leader of a round lists transaction hashes.
#[derive(Debug)]
pub struct Propose {
    /// Index of the proposer.
    pub validator: ValidatorId,
    /// Height of the block.
    pub height: Height,
    /// Round of the proposal.
    pub round: Round,
    /// Hash of the block before.
    pub prev_hash: crypto::Hash,
    /// Hashes of the transactions, in block order.
    pub transactions: Vec<crypto::Hash>,
}

/// A block nomination, as a mathematical value.
pub struct ProposeView {
    /// Index of the proposer.
    pub validator: ValidatorId,
    /// Height of the block.
    pub height: Height,
    /// Round of the proposal.
    pub round: Round,
    /// Hash of the block before.
    pub prev_hash: crypto::Hash,
    /// Hashes of the transactions, in block order.
    pub transactions: Seq<crypto::Hash>,
}

impl View for Propose {
    type V = ProposeView;

    open spec fn view(&self) -> ProposeView {
        ProposeView {
            validator: self.validator,
            height: self.height,
            round: self.round,
            prev_hash: self.prev_hash,
            transactions: self.transactions@,
        }
    }
}

impl Clone for Propose {
    fn clone(&self) -> (p: Self)
        ensures
            p@ == self@,
    {
        let transactions = self.transactions.clone();
        assert(transactions@ =~= self.transactions@);
        Propose {
            validator: self.validator,
            height: self.height,
            round: self.round,
            prev_hash: self.prev_hash,
            transactions,
        }
    }
}

/// First vote: a validator supports a propose in a round.
#[derive(Clone, Copy, Debug, PartialEq, Eq, Structural)]
pub struct Prevote {
    /// Index of the voter.
    pub validator: ValidatorId,
    /// Height of the vote.
    pub height: Height,
    /// Round of the vote.
    pub round: Round,
    /// Hash of the propose voted for; all zero for none.
    pub propose_hash: crypto::Hash,
    /// Round at which the voter is locked; 0 when not locked.
    pub locked_round: Round,
}

/// Second vote: a validator commits to a block in a round.
#[derive(Clone, Copy, Debug, PartialEq, Eq, Structural)]
pub struct Precommit {
    /// Index of the voter.
    pub validator: ValidatorId,
    /// Height of the vote.
    pub height: Height,
    /// Round of the vote.
    pub round: Round,
    /// Hash of the propose voted for.
    pub propose_hash: crypto::Hash,
    /// Hash of the block that executing the propose gave.
    pub block_hash: crypto::Hash,
    /// The voter's clock when it voted.
    pub time: Timestamp,
}

/// A transaction as the node sees it: the service it is for, and a body
/// that only the service reads.
#[derive(Debug)]
pub struct RawTransaction {
    /// Identifier of the service.
    pub service_id: u16,
    /// Body of the transaction.
    pub payload: Vec<u8>,
}

impl RawTransaction {
    /// A transaction for the service `service_id`.
    pub fn new(service_id: u16, payload: Vec<u8>) -> (t: Self)
        ensures
            t.service_id == service_id,
            t.payload == payload,
    {
        RawTransaction { service_id, payload }
    }

    /// Identifier of the service.
    pub fn service_id(&self) -> (id: u16)
        ensures
            id == self.service_id,
    {
        self.service_id
    }
}

/// A transaction, as a mathematical value.
pub struct TxView {
    /// Identifier of the service.
    pub service_id: u16,
    /// Body of the transaction.
    pub payload: Seq<u8>,
}

impl View for RawTransaction {
    type V = TxView;

    open spec fn view(&self) -> TxView {
        TxView { service_id: self.service_id, payload: self.payload@ }
    }
}

impl Clone for RawTransaction {
    fn clone(&self) -> (t: Self)
        ensures
            t@ == self@,
    {
        let payload = self.payload.clone();
        assert(payload@ =~= self.payload@);
        RawTransaction { service_id: self.service_id, payload }
    }
}

/// A copy of a signed propose.
pub fn clone_propose(propose: &Signed<Propose>) -> (r: Signed<Propose>)
    ensures
        r@ == propose@,
{
    Signed {
        payload: propose.payload.clone(),
        author: propose.author,
        hash: propose.hash,
        signature: propose.signature,
    }
}

/// A copy of a signed advertisement.
pub fn clone_connect(connect: &Signed<Connect>) -> (r: Signed<Connect>)
    ensures
        r == *connect,
{
    Signed {
        payload: connect.payload.clone(),
        author: connect.author,
        hash: connect.hash,
        signature: connect.signature,
    }
}

/// The transactions of `txs`, as mathematical values.
pub open spec fn transactions_view(txs: Seq<Signed<RawTransaction>>) -> Seq<SignedView<TxView>> {
    txs.map_values(|t: Signed<RawTransaction>| t@)
}

/// A copy of a list of signed transactions.
pub fn clone_transactions(txs: &Vec<Signed<RawTransaction>>) -> (r: Vec<Signed<RawTransaction>>)
    ensures
        transactions_view(r@) == transactions_view(txs@),
{
    let mut r: Vec<Signed<RawTransaction>> = Vec::new();
    let mut i: usize = 0;
    while i < txs.len()
        invariant
            i <= txs.len(),
            r.len() == i,
            forall|j: int| 0 <= j < i ==> r@[j]@ == txs@[j]@,
        decreases txs.len() - i,
    {
        r.push(clone_transaction(&txs[i]));
        i = i + 1;
    }
    proof {
        assert(transactions_view(r@) =~= transactions_view(txs@));
    }
    r
}

/// A copy of a list of hashes.
pub fn clone_hashes(hashes: &Vec<crypto::Hash>) -> (r: Vec<crypto::Hash>)
    ensures
        r@ == hashes@,
{
    let r = hashes.clone();
    assert(r@ =~= hashes@);
    r
}

/// A copy of a list of precommits.
pub fn clone_precommits(precommits: &Vec<Signed<Precommit>>) -> (v: Vec<Signed<Precommit>>)
    ensures
        v@ == precommits@,
{
    let mut v: Vec<Signed<Precommit>> = Vec::new();
    let mut i: usize = 0;
    while i < precommits.len()
        invariant
            i <= precommits.len(),
            v.len() == i,
            forall|j: int| 0 <= j < i ==> v@[j] == precommits@[j],
        decreases precommits.len() - i,
    {
        v.push(precommits[i]);
        i = i + 1;
    }
    proof {
        assert(v@ =~= precommits@);
    }
    v
}

/// A copy of a signed transaction.
pub fn clone_transaction(tx: &Signed<RawTransaction>) -> (r: Signed<RawTransaction>)
    ensures
        r@ == tx@,
        same_transaction(*tx, r),
{
    Signed {
        payload: tx.payload.clone(),
        author: tx.author,
        hash: tx.hash,
        signature: tx.signature,
    }
}

/// Whether `a` and `b` are the same signed transaction.
pub open spec fn same_transaction(a: Signed<RawTransaction>, b: Signed<RawTransaction>) -> bool {
    &&& a.author == b.author
    &&& a.hash == b.hash
    &&& a.signature == b.signature
    &&& a.payload.service_id == b.payload.service_id
    &&& a.payload.payload@ == b.payload.payload@
}

/// Catch-up payload: a committed block with what justifies it.
#[derive(Debug)]
pub struct BlockResponse {
    /// Key of the node that asked.
    pub to: PublicKey,
    /// Header of the block.
    pub block: Block,
    /// Hash of the block.
    pub block_hash: crypto::Hash,
    /// Precommits that justify the block.
    pub precommits: Vec<Signed<Precommit>>,
    /// Hashes of the block's transactions, in block order.
    pub transactions: Vec<crypto::Hash>,
}

/// Request for transactions by hash.
#[derive(Debug)]
pub struct TransactionsRequest {
    /// Key of the node asked.
    pub to: PublicKey,
    /// Hashes of the transactions asked for.
    pub txs: Vec<crypto::Hash>,
}

/// Answer to a `TransactionsRequest`.
#[derive(Debug)]
pub struct TransactionsResponse {
    /// Key of the node that asked.
    pub to: PublicKey,
    /// The transactions.
    pub transactions: Vec<Signed<RawTransaction>>,
}

/// Request for a propose by hash.
#[derive(Clone, Copy, Debug, PartialEq, Eq, Structural)]
pub struct ProposeRequest {
    /// Key of the node asked.
    pub to: PublicKey,
    /// Height of the propose.
    pub height: Height,
    /// Hash of the propose.
    pub propose_hash: crypto::Hash,
}

/// Request for the prevotes for a propose in a round.
#[derive(Clone, Copy, Debug, PartialEq, Eq, Structural)]
pub struct PrevotesRequest {
    /// Key of the node asked.
    pub to: PublicKey,
    /// Height of the votes.
    pub height: Height,
    /// Round of the votes.
    pub round: Round,
    /// Hash of the propose voted for.
    pub propose_hash: crypto::Hash,
}

/// Request for the peers a node knows.
#[derive(Clone, Copy, Debug, PartialEq, Eq, Structural)]
pub struct PeersRequest {
    /// Key of the node asked.
    pub to: PublicKey,
}

/// Request for a committed block.
#[derive(Clone, Copy, Debug, PartialEq, Eq, Structural)]
pub struct BlockRequest {
    /// Key of the node asked.
    pub to: PublicKey,
    /// Height of the block.
    pub height: Height,
}

/// A catch-up payload, as a mathematical value.
pub struct BlockResponseView {
    /// Key of the node that asked.
    pub to: PublicKey,
    /// Header of the block.
    pub block: Block,
    /// Hash of the block.
    pub block_hash: crypto::Hash,
    /// Precommits that justify the block.
    pub precommits: Seq<Signed<Precommit>>,
    /// Hashes of the block's transactions, in block order.
    pub transactions: Seq<crypto::Hash>,
}

impl View for BlockResponse {
    type V = BlockResponseView;

    open spec fn view(&self) -> BlockResponseView {
        BlockResponseView {
            to: self.to,
            block: self.block,
            block_hash: self.block_hash,
            precommits: self.precommits@,
            transactions: self.transactions@,
        }
    }
}

/// The content of a message of any kind, as a mathematical value.
pub enum PayloadView {
    /// Address advertisement.
    Connect(Connect),
    /// Progress beacon.
    Status(Status),
    /// Block nomination.
    Propose(ProposeView),
    /// First vote.
    Prevote(Prevote),
    /// Second vote.
    Precommit(Precommit),
    /// A transaction.
    Transaction(TxView),
    /// Catch-up payload.
    BlockResponse(BlockResponseView),
    /// Answer with transactions, for the node with the given key.
    TransactionsResponse(PublicKey, Seq<SignedView<TxView>>),
    /// Request for transactions, to the node with the given key.
    TransactionsRequest(PublicKey, Seq<crypto::Hash>),
    /// Request for a propose.
    ProposeRequest(ProposeRequest),
    /// Request for prevotes.
    PrevotesRequest(PrevotesRequest),
    /// Request for peers.
    PeersRequest(PeersRequest),
    /// Request for a block.
    BlockRequest(BlockRequest),
}

impl View for Payload {
    type V = PayloadView;

    open spec fn view(&self) -> PayloadView {
        match *self {
            Payload::Connect(c) => PayloadView::Connect(c),
            Payload::Status(s) => PayloadView::Status(s),
            Payload::Propose(p) => PayloadView::Propose(p@),
            Payload::Prevote(p) => PayloadView::Prevote(p),
            Payload::Precommit(p) => PayloadView::Precommit(p),
            Payload::Transaction(t) => PayloadView::Transaction(t@),
            Payload::BlockResponse(b) => PayloadView::BlockResponse(b@),
            Payload::TransactionsResponse(r) => PayloadView::TransactionsResponse(
                r.to,
                transactions_view(r.transactions@),
            ),
            Payload::TransactionsRequest(r) => PayloadView::TransactionsRequest(r.to, r.txs@),
            Payload::ProposeRequest(r) => PayloadView::ProposeRequest(r),
            Payload::PrevotesRequest(r) => PayloadView::PrevotesRequest(r),
            Payload::PeersRequest(r) => PayloadView::PeersRequest(r),
            Payload::BlockRequest(r) => PayloadView::BlockRequest(r),
        }
    }
}

impl Clone for Payload {
    fn clone(&self) -> (p: Self)
        ensures
            p@ == self@,
    {
        match self {
            Payload::Connect(c) => Payload::Connect(c.clone()),
            Payload::Status(s) => Payload::Status(*s),
            Payload::Propose(p) => Payload::Propose(p.clone()),
            Payload::Prevote(p) => Payload::Prevote(*p),
            Payload::Precommit(p) => Payload::Precommit(*p),
            Payload::Transaction(t) => Payload::Transaction(t.clone()),
            Payload::BlockResponse(b) => Payload::BlockResponse(
                BlockResponse {
                    to: b.to,
                    block: b.block,
                    block_hash: b.block_hash,
                    precommits: clone_precommits(&b.precommits),
                    transactions: clone_hashes(&b.transactions),
                },
            ),
            Payload::TransactionsResponse(r) => Payload::TransactionsResponse(
                TransactionsResponse { to: r.to, transactions: clone_transactions(&r.transactions) },
            ),
            Payload::TransactionsRequest(r) => Payload::TransactionsRequest(
                TransactionsRequest { to: r.to, txs: clone_hashes(&r.txs) },
            ),
            Payload::ProposeRequest(r) => Payload::ProposeRequest(*r),
            Payload::PrevotesRequest(r) => Payload::PrevotesRequest(*r),
            Payload::PeersRequest(r) => Payload::PeersRequest(*r),
            Payload::BlockRequest(r) => Payload::BlockRequest(*r),
        }
    }
}

/// A copy of a checked message.
pub fn clone_message(message: &Message) -> (r: Message)
    ensures
        r@ == message@,
{
    Signed {
        payload: message.payload.clone(),
        author: message.author,
        hash: message.hash,
        signature: message.signature,
    }
}

/// The content of a message, of any kind.
#[derive(Debug)]
pub enum Payload {
    /// Address advertisement.
    Connect(Connect),
    /// Progress beacon.
    Status(Status),
    /// Block nomination.
    Propose(Propose),
    /// First vote.
    Prevote(Prevote),
    /// Second vote.
    Precommit(Precommit),
    /// A transaction.
    Transaction(RawTransaction),
    /// Catch-up payload.
    BlockResponse(BlockResponse),
    /// Answer with transactions.
    TransactionsResponse(TransactionsResponse),
    /// Request for transactions.
    TransactionsRequest(TransactionsRequest),
    /// Request for a propose.
    ProposeRequest(ProposeRequest),
    /// Request for prevotes.
    PrevotesRequest(PrevotesRequest),
    /// Request for peers.
    PeersRequest(PeersRequest),
    /// Request for a block.
    BlockRequest(BlockRequest),
}

/// A checked message of any kind.
pub type Message = Signed<Payload>;

} // verus!
