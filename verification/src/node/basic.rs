//! Everything that the node handles beside the votes: transactions, peers,
//! requests for data and their answers, and the deadlines.

use vstd::prelude::*;
use crate::blockchain::pool::{pool_has, pool_index};

use crate::crypto::{self, PublicKey};
use crate::helpers::{Height, Milliseconds, Round};
use crate::messages::{clone_connect, clone_hashes, clone_precommits, clone_propose, clone_transaction, transactions_view, BlockRequest, BlockResponse, BlockResponseView, Connect, Message, Payload, PayloadView, PeersRequest, Prevote, Propose, ProposeRequest, PrevotesRequest, RawTransaction, Signed, SignedView, Status, TransactionsRequest, TransactionsResponse, TxView};
use crate::node::connect_list::{has_key, with_peer};
use crate::node::consensus::{prevote_message, propose_message};
use crate::node::events::{
    InternalRequest, InternalRequestView, NetworkRequest, NetworkRequestView, NodeTimeout,
    NodeTimeoutView, Outgoing, OutgoingView,
};
use crate::node::handler::{HandlerView, NodeHandler, SharedNodeState};
use crate::node::requests::{after_retry, next_peer, RequestData, RequestKey};
use crate::node::state::StateView;
use crate::node::votes::VoteKey;
use crate::node::ConnectInfo;

verus! {

/// The message that asks the peer `to` for `data` at the height `height`.
pub open spec fn request_message(data: RequestKey, to: PublicKey, height: Height) -> PayloadView {
    match data {
        RequestKey::Propose(hash) => PayloadView::ProposeRequest(
            ProposeRequest { to, height, propose_hash: hash },
        ),
        RequestKey::Transactions(txs) => PayloadView::TransactionsRequest(to, txs),
        RequestKey::Prevotes(round, hash) => PayloadView::PrevotesRequest(
            PrevotesRequest { to, height, round, propose_hash: hash },
        ),
        RequestKey::Block(h) => PayloadView::BlockRequest(BlockRequest { to, height: h }),
        RequestKey::Peers => PayloadView::PeersRequest(PeersRequest { to }),
    }
}

/// The transaction `tx` as a message of any kind.
pub open spec fn transaction_message(tx: SignedView<TxView>) -> SignedView<PayloadView> {
    SignedView {
        payload: PayloadView::Transaction(tx.payload),
        author: tx.author,
        hash: tx.hash,
        signature: tx.signature,
    }
}

/// The advertisement `connect` as a message of any kind.
pub open spec fn connect_message(connect: Signed<Connect>) -> SignedView<PayloadView> {
    SignedView {
        payload: PayloadView::Connect(connect.payload),
        author: connect.author,
        hash: connect.hash,
        signature: connect.signature,
    }
}

/// The transactions of the pool `pool` with the hashes `hashes`, in the
/// order of `hashes`; a hash that the pool lacks is passed over.
pub open spec fn found_in_pool(pool: Seq<SignedView<TxView>>, hashes: Seq<crypto::Hash>) -> Seq<
    SignedView<TxView>,
>
    decreases hashes.len(),
{
    if hashes.len() == 0 {
        Seq::empty()
    } else {
        let before = found_in_pool(pool, hashes.drop_last());
        if pool_has(pool, hashes.last()) {
            before.push(pool[pool_index(pool, hashes.last())])
        } else {
            before
        }
    }
}

impl HandlerView {
    /// The handler after the transaction `tx` came at the time `now`, where
    /// `accepted` is what the service says of it. A transaction for no
    /// service of the node, one that the pool or a block holds, and one that
    /// its service does not accept change nothing. Else the transaction joins
    /// the pool and is sent on to the peers; the leader may bring its propose
    /// forward; and the proposes that waited for this transaction only are
    /// handled as full, if the node takes part in consensus.
    #[verifier::opaque]
    pub open spec fn handle_tx_with(self, tx: SignedView<TxView>, accepted: bool, now: Milliseconds) -> HandlerView {
        if !self.chain.service_ids.contains(tx.payload.service_id) || self.chain.knows(tx.hash)
            || !accepted {
            self
        } else {
            let pooled = (HandlerView { chain: self.chain.with_tx(tx), ..self }).broadcast(
                OutgoingView::Relayed(transaction_message(tx)),
            );
            let timed = if pooled.state.is_leader() && pooled.state.round.0 != 0 {
                pooled.maybe_add_propose_timeout()
            } else {
                pooled
            };
            let arrived = HandlerView { state: timed.state.tx_arrived(tx.hash), ..timed };
            if self.is_enabled {
                arrived.full_proposes(timed.state.completed_by(tx.hash), now)
            } else {
                arrived
            }
        }
    }

    /// The handler after the proposes `hashes` were handled as full, in
    /// order; one that the node no longer knows is passed over.
    #[verifier::opaque]
    pub open spec fn full_proposes(self, hashes: Seq<crypto::Hash>, now: Milliseconds) -> HandlerView
        decreases hashes.len(),
    {
        if hashes.len() == 0 {
            self
        } else {
            let before = self.full_proposes(hashes.drop_last(), now);
            match before.state.propose(hashes.last()) {
                Some(p) => before.handle_full_propose(hashes.last(), p.propose.payload.round, now),
                None => before,
            }
        }
    }

    /// The handler after the transactions `txs` came at the time `now`, in
    /// order, where `verdicts` is what the services say of each.
    pub open spec fn handle_txs_with(
        self,
        txs: Seq<SignedView<TxView>>,
        verdicts: Seq<bool>,
        now: Milliseconds,
    ) -> HandlerView
        decreases txs.len(),
    {
        if txs.len() == 0 || verdicts.len() != txs.len() {
            self
        } else {
            self.handle_txs_with(txs.drop_last(), verdicts.drop_last(), now).handle_tx_with(
                txs.last(),
                verdicts.last(),
                now,
            )
        }
    }

    /// The handler after the status `msg` came at the time `now`: where the
    /// sender works on a later height, it is asked for the block that the
    /// node works on.
    #[verifier::opaque]
    pub open spec fn handle_status(self, msg: Signed<Status>, now: Milliseconds) -> HandlerView {
        if self.is_enabled && msg.payload.height.0 > self.state.height.0 {
            self.request(RequestKey::Block(self.state.height), msg.author, now)
        } else {
            self
        }
    }

    /// The handler after the advertisement `msg` came: where the connect
    /// list holds its author and the author is not the node itself, the peer
    /// is noted as connected, and a peer that was not connected before is
    /// sent the node's own advertisement.
    #[verifier::opaque]
    pub open spec fn handle_connect(self, msg: Signed<Connect>) -> HandlerView {
        if has_key(self.state.connect_list, msg.author) && msg.author
            != self.state.consensus_public_key {
            let noted = HandlerView { state: self.state.with_peer(msg), ..self };
            if self.state.has_peer(msg.author) {
                noted
            } else {
                noted.connect(msg.author)
            }
        } else {
            self
        }
    }

    /// The handler after the peer with the key `key` went away: it is no
    /// longer noted as connected, and where the connect list holds it the
    /// node sends it its advertisement again.
    #[verifier::opaque]
    pub open spec fn handle_disconnected(self, key: PublicKey) -> HandlerView {
        let gone = HandlerView { state: self.state.without_peer(key), ..self };
        if has_key(self.state.connect_list, key) {
            gone.connect(key)
        } else {
            gone
        }
    }

    /// The handler after the peer with the key `key` could not be reached:
    /// it is no longer noted as connected.
    pub open spec fn handle_unable_to_connect(self, key: PublicKey) -> HandlerView {
        HandlerView { state: self.state.without_peer(key), ..self }
    }

    /// The handler after the API asked to accept the peer `info`: the peer
    /// joins the connect list and is sent the node's advertisement.
    #[verifier::opaque]
    pub open spec fn handle_peer_add(self, info: ConnectInfo) -> HandlerView {
        (HandlerView {
            state: StateView { connect_list: with_peer(self.state.connect_list, info), ..self.state },
            ..self
        }).connect(info.public_key)
    }

    /// The handler after the API set whether the node takes part in
    /// consensus.
    pub open spec fn handle_enable(self, on: bool) -> HandlerView {
        HandlerView {
            is_enabled: on,
            api_state: SharedNodeState { is_enabled: on, ..self.api_state },
            ..self
        }
    }

    /// The handler after the API asked it to stop: the tasks beside the node
    /// and the network task are told to stop.
    pub open spec fn handle_shutdown(self) -> HandlerView {
        HandlerView {
            internal: self.internal.push(InternalRequestView::Shutdown),
            network: self.network.push(NetworkRequestView::Shutdown),
            ..self
        }
    }

    /// The handler after it sent the transactions `txs` to the peers, in
    /// order.
    pub open spec fn broadcast_transactions(self, txs: Seq<SignedView<TxView>>) -> HandlerView
        decreases txs.len(),
    {
        if txs.len() == 0 {
            self
        } else {
            self.broadcast_transactions(txs.drop_last()).broadcast(
                OutgoingView::Relayed(transaction_message(txs.last())),
            )
        }
    }

    /// The handler after the API asked it to send the pool again: every
    /// transaction of the pool is sent to the peers, in the order of the
    /// pool.
    pub open spec fn handle_rebroadcast(self) -> HandlerView {
        self.broadcast_transactions(self.chain.pool)
    }

    /// The handler after the wait for an answer of `peer` to the request
    /// `data` ended at the time `now`: the peer is no longer one to ask; where
    /// another is left, it is asked and the wait begins anew; where none is
    /// left the request is dropped.
    #[verifier::opaque]
    pub open spec fn handle_request_timeout(
        self,
        data: RequestKey,
        peer: Option<PublicKey>,
        now: Milliseconds,
    ) -> HandlerView {
        let retried = HandlerView {
            state: StateView {
                requests: after_retry(self.state.requests, data, peer),
                ..self.state
            },
            ..self
        };
        match next_peer(self.state.requests, data, peer) {
            Some(next) => retried.send_to_peer(
                next,
                OutgoingView::Own(request_message(data, next, self.state.height)),
            ).add_request_timeout(data, Some(next), now),
            None => retried,
        }
    }

    /// The handler after the deadline of the status broadcast, set at the
    /// height `height`, came at the time `now`: where the node still works on
    /// that height it tells its peers its height and last block, and sets the
    /// deadline anew.
    #[verifier::opaque]
    pub open spec fn handle_status_timeout(self, height: Height, now: Milliseconds) -> HandlerView {
        if self.is_enabled && height == self.state.height {
            self.broadcast(
                OutgoingView::Own(
                    PayloadView::Status(
                        Status { height: self.state.height, last_hash: self.state.last_hash },
                    ),
                ),
            ).add_status_timeout(now)
        } else {
            self
        }
    }

    /// The handler after the deadline of the peer exchange came at the time
    /// `now`: one connected peer, picked by the time, is asked for its peers,
    /// and the deadline is set anew.
    #[verifier::opaque]
    pub open spec fn handle_peer_exchange_timeout(self, now: Milliseconds) -> HandlerView {
        (if self.state.peers.len() > 0 {
            let peer = self.state.peers[(now as int) % (self.state.peers.len() as int)].author;
            self.send_to_peer(
                peer,
                OutgoingView::Own(PayloadView::PeersRequest(PeersRequest { to: peer })),
            )
        } else {
            self
        }).add_peer_exchange_timeout(now)
    }

    /// What the API shows of the node now.
    pub open spec fn shown(self) -> SharedNodeState {
        SharedNodeState {
            height: self.state.height,
            round: self.state.round,
            peers_count: self.state.peers.len() as usize,
            node_role: self.node_role,
            is_enabled: self.is_enabled,
            tx_pool_size: self.chain.pool.len() as u64,
            last_block_hash: self.state.last_hash,
            state_update_timeout: self.api_state.state_update_timeout,
        }
    }

    /// The handler after the deadline to refresh what the API shows came at
    /// the time `now`.
    #[verifier::opaque]
    pub open spec fn handle_update_api_state_timeout(self, now: Milliseconds) -> HandlerView {
        (HandlerView { api_state: self.shown(), ..self }).add_update_api_state_timeout(now)
    }

    /// The handler after the deadline `timeout` came at the time `now`.
    #[verifier::opaque]
    pub open spec fn handle_timeout(self, timeout: NodeTimeoutView, now: Milliseconds) -> HandlerView {
        match timeout {
            NodeTimeoutView::Round(height, round) => self.handle_round_timeout(height, round),
            NodeTimeoutView::Request(data, peer) => self.handle_request_timeout(data, peer, now),
            NodeTimeoutView::Status(height) => self.handle_status_timeout(height, now),
            NodeTimeoutView::PeerExchange => self.handle_peer_exchange_timeout(now),
            NodeTimeoutView::UpdateApiState => self.handle_update_api_state_timeout(now),
            NodeTimeoutView::Propose(height, round) => self.handle_propose_timeout(height, round),
        }
    }

    /// The handler after it sent the messages `messages` to the peer with
    /// the key `key`, in order, as it received them.
    pub open spec fn relay_all(self, key: PublicKey, messages: Seq<SignedView<PayloadView>>) -> HandlerView {
        HandlerView {
            network: self.network + messages.map_values(
                |m: SignedView<PayloadView>|
                    NetworkRequestView::SendMessage(key, OutgoingView::Relayed(m)),
            ),
            ..self
        }
    }

    /// The handler after a peer asked for a propose: where the request is
    /// for this node and this height and the node knows the propose, the
    /// propose is sent to the sender.
    #[verifier::opaque]
    pub open spec fn handle_request_propose(self, msg: Signed<ProposeRequest>) -> HandlerView {
        if msg.payload.to == self.state.consensus_public_key && msg.payload.height
            == self.state.height {
            match self.state.propose(msg.payload.propose_hash) {
                Some(p) => self.send_to_peer(
                    msg.author,
                    OutgoingView::Relayed(propose_message(p.propose)),
                ),
                None => self,
            }
        } else {
            self
        }
    }

    /// The handler after a peer asked for prevotes: where the request is for
    /// this node and this height, the prevotes that the node holds for the
    /// propose in the round are sent to the sender, in the order in which they
    /// came.
    #[verifier::opaque]
    pub open spec fn handle_request_prevotes(self, msg: Signed<PrevotesRequest>) -> HandlerView {
        if msg.payload.to == self.state.consensus_public_key && msg.payload.height
            == self.state.height {
            self.relay_all(
                msg.author,
                self.state.prevotes.messages_for(
                    VoteKey {
                        round: msg.payload.round,
                        propose_hash: msg.payload.propose_hash,
                        block_hash: crypto::Hash(0, 0, 0, 0),
                    },
                ).map_values(|m: Signed<Prevote>| prevote_message(m)),
            )
        } else {
            self
        }
    }

    /// The handler after the peer `author` asked the node with the key `to`
    /// for the transactions `txs`: where that is this node and the pool holds
    /// some of them, those are sent to the sender.
    #[verifier::opaque]
    pub open spec fn handle_request_transactions(
        self,
        to: PublicKey,
        txs: Seq<crypto::Hash>,
        author: PublicKey,
    ) -> HandlerView {
        if to == self.state.consensus_public_key && found_in_pool(self.chain.pool, txs).len() > 0 {
            self.send_to_peer(
                author,
                OutgoingView::Own(
                    PayloadView::TransactionsResponse(author, found_in_pool(self.chain.pool, txs)),
                ),
            )
        } else {
            self
        }
    }

    /// The handler after a peer asked for a block: where the request is for
    /// this node and the chain has a block at the height, the block is sent to
    /// the sender with its precommits and the hashes of its transactions.
    #[verifier::opaque]
    pub open spec fn handle_request_block(self, msg: Signed<BlockRequest>) -> HandlerView {
        if msg.payload.to == self.state.consensus_public_key && msg.payload.height.0
            < self.chain.blocks.len() {
            let block = self.chain.blocks[msg.payload.height.0 as int];
            self.send_to_peer(
                msg.author,
                OutgoingView::Own(
                    PayloadView::BlockResponse(
                        BlockResponseView {
                            to: msg.author,
                            block: block.header,
                            block_hash: block.hash,
                            precommits: block.precommits,
                            transactions: crate::blockchain::pool::pool_hashes(block.transactions),
                        },
                    ),
                ),
            )
        } else {
            self
        }
    }

    /// The handler after a peer asked for peers: where the request is for
    /// this node, the advertisements of the connected peers are sent to the
    /// sender, in the order in which the peers connected.
    #[verifier::opaque]
    pub open spec fn handle_request_peers(self, msg: Signed<PeersRequest>) -> HandlerView {
        if msg.payload.to == self.state.consensus_public_key {
            self.relay_all(
                msg.author,
                self.state.peers.map_values(|c: Signed<Connect>| connect_message(c)),
            )
        } else {
            self
        }
    }
}

/// Handling one propose more as full, written out.
pub proof fn lemma_full_proposes_step(s: HandlerView, hashes: Seq<crypto::Hash>, now: Milliseconds)
    ensures
        hashes.len() == 0 ==> s.full_proposes(hashes, now) == s,
        hashes.len() > 0 ==> s.full_proposes(hashes, now) == (match s.full_proposes(
            hashes.drop_last(),
            now,
        ).state.propose(hashes.last()) {
            Some(p) => s.full_proposes(hashes.drop_last(), now).handle_full_propose(
                hashes.last(),
                p.propose.payload.round,
                now,
            ),
            None => s.full_proposes(hashes.drop_last(), now),
        }),
{
    reveal(HandlerView::full_proposes);
}

/// The message that asks the peer `to` for `data` at the height `height`.
fn request_payload(data: &RequestData, to: PublicKey, height: Height) -> (p: Payload)
    ensures
        p@ == request_message(data@, to, height),
{
    match data {
        RequestData::Propose(hash) => Payload::ProposeRequest(
            ProposeRequest { to, height, propose_hash: *hash },
        ),
        RequestData::Transactions(txs) => Payload::TransactionsRequest(
            TransactionsRequest { to, txs: clone_hashes(txs) },
        ),
        RequestData::Prevotes(round, hash) => Payload::PrevotesRequest(
            PrevotesRequest { to, height, round: *round, propose_hash: *hash },
        ),
        RequestData::Block(h) => Payload::BlockRequest(BlockRequest { to, height: *h }),
        RequestData::Peers => Payload::PeersRequest(PeersRequest { to }),
    }
}

/// The transaction `tx` as a message of any kind.
pub fn transaction_as_message(tx: &Signed<RawTransaction>) -> (m: Message)
    ensures
        m@ == transaction_message(tx@),
{
    let copy = clone_transaction(tx);
    Signed {
        payload: Payload::Transaction(copy.payload),
        author: copy.author,
        hash: copy.hash,
        signature: copy.signature,
    }
}

impl NodeHandler {
    /// Handles the proposes `hashes` as full, in order.
    pub fn full_proposes(&mut self, hashes: &Vec<crypto::Hash>, now: Milliseconds)
        requires
            old(self).wf(),
        ensures
            final(self).wf(),
            final(self)@ == old(self)@.full_proposes(hashes@, now),
            final(self).kept(old(self)),
    {
        let ghost start = self@;
        let mut i: usize = 0;
        proof {
            lemma_full_proposes_step(start, hashes@.subrange(0, 0), now);
        }
        while i < hashes.len()
            invariant
                i <= hashes.len(),
                self.wf(),
                self.kept(old(self)),
                self@ == start.full_proposes(hashes@.subrange(0, i as int), now),
            decreases hashes.len() - i,
        {
            proof {
                assert(hashes@.subrange(0, i + 1).drop_last() =~= hashes@.subrange(0, i as int));
                assert(hashes@.subrange(0, i + 1).last() == hashes@[i as int]);
                lemma_full_proposes_step(start, hashes@.subrange(0, i + 1), now);
            }
            let round = match self.state.propose(&hashes[i]) {
                Some(p) => Some(p.propose.payload.round),
                None => None,
            };
            match round {
                Some(round) => self.handle_full_propose(hashes[i], round, now),
                None => {},
            }
            i = i + 1;
        }
        proof {
            assert(hashes@.subrange(0, i as int) =~= hashes@);
        }
    }

    /// Handles the transaction `tx`, which came at the time `now` and of
    /// which its service says `accepted`.
    pub fn handle_tx_with(&mut self, tx: Signed<RawTransaction>, accepted: bool, now: Milliseconds)
        requires
            old(self).wf(),
        ensures
            final(self).wf(),
            final(self)@ == old(self)@.handle_tx_with(tx@, accepted, now),
            final(self).kept(old(self)),
    {
        proof {
            reveal(HandlerView::handle_tx_with);
        }
        if !self.blockchain.is_service(tx.payload.service_id) || self.blockchain.is_known(&tx.hash)
            || !accepted {
            return ;
        }
        let hash = tx.hash;
        let message = transaction_as_message(&tx);
        self.blockchain.add_transaction_into_pool(tx);
        self.broadcast(Outgoing::Relayed(message));
        if self.state.is_leader() && self.state.round().0 != 0 {
            self.maybe_add_propose_timeout();
        }
        let completed = self.state.check_incomplete_proposes(hash);
        if self.is_enabled {
            self.full_proposes(&completed, now);
        }
    }

    /// Handles the transaction `tx`, which came at the time `now`. Returns
    /// what its service said of it; where no service was asked, that is no.
    pub fn handle_tx(&mut self, tx: Signed<RawTransaction>, now: Milliseconds) -> (accepted: bool)
        requires
            old(self).wf(),
        ensures
            final(self).wf(),
            final(self)@ == old(self)@.handle_tx_with(tx@, accepted, now),
            final(self).kept(old(self)),
    {
        proof {
            reveal(HandlerView::handle_tx_with);
        }
        if !self.blockchain.is_service(tx.payload.service_id) || self.blockchain.is_known(
            &tx.hash,
        ) {
            return false;
        }
        let accepted = self.blockchain.tx_from_raw(&tx.payload);
        self.handle_tx_with(tx, accepted, now);
        accepted
    }

    /// Handles the transactions `txs`, which came at the time `now`.
    /// Returns what the services said of each.
    pub fn handle_txs_batch(&mut self, txs: Vec<Signed<RawTransaction>>, now: Milliseconds) -> (verdicts:
        Vec<bool>)
        requires
            old(self).wf(),
        ensures
            final(self).wf(),
            verdicts@.len() == txs@.len(),
            final(self)@ == old(self)@.handle_txs_with(transactions_view(txs@), verdicts@, now),
            final(self).kept(old(self)),
    {
        let ghost start = self@;
        let ghost all = transactions_view(txs@);
        let mut verdicts: Vec<bool> = Vec::new();
        let mut i: usize = 0;
        while i < txs.len()
            invariant
                i <= txs.len(),
                self.wf(),
                self.kept(old(self)),
                all == transactions_view(txs@),
                verdicts@.len() == i,
                self@ == start.handle_txs_with(all.subrange(0, i as int), verdicts@, now),
            decreases txs.len() - i,
        {
            let ghost done = verdicts@;
            let tx = clone_transaction(&txs[i]);
            let accepted = self.handle_tx(tx, now);
            verdicts.push(accepted);
            proof {
                assert(all.subrange(0, i + 1).drop_last() =~= all.subrange(0, i as int));
                assert(verdicts@.drop_last() =~= done);
                assert(all.subrange(0, i + 1).last() == txs@[i as int]@);
            }
            i = i + 1;
        }
        proof {
            assert(all.subrange(0, i as int) =~= all);
        }
        verdicts
    }

    /// Handles the status `msg`, which came at the time `now`.
    pub fn handle_status(&mut self, msg: Signed<Status>, now: Milliseconds)
        requires
            old(self).wf(),
        ensures
            final(self).wf(),
            final(self)@ == old(self)@.handle_status(msg, now),
            final(self).kept(old(self)),
    {
        proof {
            reveal(HandlerView::handle_status);
        }
        if self.is_enabled && msg.payload.height.0 > self.state.height().0 {
            let height = self.state.height();
            self.request_at(RequestData::Block(height), msg.author, now);
        }
    }

    /// Handles the advertisement `msg`.
    pub fn handle_connect(&mut self, msg: Signed<Connect>)
        requires
            old(self).wf(),
        ensures
            final(self).wf(),
            final(self)@ == old(self)@.handle_connect(msg),
            final(self).kept(old(self)),
    {
        proof {
            reveal(HandlerView::handle_connect);
        }
        let author = msg.author;
        if self.state.connect_list.is_peer_allowed(&author) && author
            != *self.state.consensus_public_key() {
            let known = self.state.peer_position(&author).is_some();
            self.state.add_peer(msg);
            if !known {
                self.connect(author);
            }
        }
    }

    /// Handles the news that the peer with the key `key` went away.
    pub fn handle_disconnected(&mut self, key: PublicKey)
        requires
            old(self).wf(),
        ensures
            final(self).wf(),
            final(self)@ == old(self)@.handle_disconnected(key),
            final(self).kept(old(self)),
    {
        proof {
            reveal(HandlerView::handle_disconnected);
        }
        self.state.remove_peer_with_pubkey(&key);
        if self.state.connect_list.is_peer_allowed(&key) {
            self.connect(key);
        }
    }

    /// Handles the news that the peer with the key `key` could not be
    /// reached.
    pub fn handle_unable_to_connect(&mut self, key: PublicKey)
        requires
            old(self).wf(),
        ensures
            final(self).wf(),
            final(self)@ == old(self)@.handle_unable_to_connect(key),
            final(self).kept(old(self)),
    {
        self.state.remove_peer_with_pubkey(&key);
    }

    /// Handles the request of the API to accept the peer `info`.
    pub fn handle_peer_add(&mut self, info: ConnectInfo)
        requires
            old(self).wf(),
        ensures
            final(self).wf(),
            final(self)@ == old(self)@.handle_peer_add(info),
            final(self).kept(old(self)),
    {
        proof {
            reveal(HandlerView::handle_peer_add);
        }
        let key = info.public_key;
        self.state.connect_list.add(info);
        self.connect(key);
    }

    /// Handles the request of the API to take part in consensus, or to stop
    /// taking part.
    pub fn handle_enable(&mut self, on: bool)
        requires
            old(self).wf(),
        ensures
            final(self).wf(),
            final(self)@ == old(self)@.handle_enable(on),
            final(self).kept(old(self)),
    {
        self.is_enabled = on;
        self.api_state.set_enabled(on);
    }

    /// Handles the request of the API to stop.
    pub fn handle_shutdown(&mut self)
        requires
            old(self).wf(),
        ensures
            final(self).wf(),
            final(self)@ == old(self)@.handle_shutdown(),
            final(self).kept(old(self)),
    {
        let ghost internal = self@.internal;
        let ghost network = self@.network;
        self.channel.internal_requests.push(InternalRequest::Shutdown);
        self.channel.network_requests.push(NetworkRequest::Shutdown);
        proof {
            assert(self@.internal =~= internal.push(InternalRequestView::Shutdown));
            assert(self@.network =~= network.push(NetworkRequestView::Shutdown));
        }
    }

    /// Handles the request of the API to send the pool again.
    pub fn handle_rebroadcast(&mut self)
        requires
            old(self).wf(),
        ensures
            final(self).wf(),
            final(self)@ == old(self)@.handle_rebroadcast(),
            final(self).kept(old(self)),
    {
        let ghost start = self@;
        let ghost pool = self@.chain.pool;
        let mut i: usize = 0;
        while i < self.blockchain.pool.txs.len()
            invariant
                i <= self.blockchain.pool.txs.len(),
                self.wf(),
                self.kept(old(self)),
                pool == self@.chain.pool,
                pool == start.chain.pool,
                self@ == start.broadcast_transactions(pool.subrange(0, i as int)),
            decreases self.blockchain.pool.txs.len() - i,
        {
            proof {
                assert(pool.subrange(0, i + 1).drop_last() =~= pool.subrange(0, i as int));
                assert(pool.subrange(0, i + 1).last() == self.blockchain.pool.txs@[i as int]@);
            }
            let message = transaction_as_message(&self.blockchain.pool.txs[i]);
            self.broadcast(Outgoing::Relayed(message));
            i = i + 1;
        }
        proof {
            assert(pool.subrange(0, i as int) =~= pool);
        }
    }

    /// Handles the end of the wait for an answer of `peer` to the request
    /// `data`, at the time `now`.
    pub fn handle_request_timeout(&mut self, data: RequestData, peer: Option<PublicKey>, now: Milliseconds)
        requires
            old(self).wf(),
        ensures
            final(self).wf(),
            final(self)@ == old(self)@.handle_request_timeout(data@, peer, now),
            final(self).kept(old(self)),
    {
        proof {
            reveal(HandlerView::handle_request_timeout);
        }
        let height = self.state.height();
        match self.state.retry(&data, peer) {
            Some(next) => {
                let payload = request_payload(&data, next, height);
                self.send_to_peer(next, Outgoing::Own(payload));
                self.add_request_timeout_at(data, Some(next), now);
            },
            None => {},
        }
    }

    /// Handles the deadline of the status broadcast, set at the height
    /// `height`, at the time `now`.
    pub fn handle_status_timeout(&mut self, height: Height, now: Milliseconds)
        requires
            old(self).wf(),
        ensures
            final(self).wf(),
            final(self)@ == old(self)@.handle_status_timeout(height, now),
            final(self).kept(old(self)),
    {
        proof {
            reveal(HandlerView::handle_status_timeout);
        }
        if self.is_enabled && height == self.state.height() {
            let status = Status { height: self.state.height(), last_hash: self.state.last_hash() };
            self.broadcast(Outgoing::Own(Payload::Status(status)));
            self.add_status_timeout_at(now);
        }
    }

    /// Handles the deadline of the peer exchange, at the time `now`.
    pub fn handle_peer_exchange_timeout(&mut self, now: Milliseconds)
        requires
            old(self).wf(),
        ensures
            final(self).wf(),
            final(self)@ == old(self)@.handle_peer_exchange_timeout(now),
            final(self).kept(old(self)),
    {
        proof {
            reveal(HandlerView::handle_peer_exchange_timeout);
        }
        let count = self.state.peers.len();
        if count > 0 {
            let at = (now % (count as u64)) as usize;
            let peer = self.state.peers[at].author;
            self.send_to_peer(peer, Outgoing::Own(Payload::PeersRequest(PeersRequest { to: peer })));
        }
        self.add_peer_exchange_timeout_at(now);
    }

    /// Handles the deadline to refresh what the API shows, at the time
    /// `now`.
    pub fn handle_update_api_state_timeout(&mut self, now: Milliseconds)
        requires
            old(self).wf(),
        ensures
            final(self).wf(),
            final(self)@ == old(self)@.handle_update_api_state_timeout(now),
            final(self).kept(old(self)),
    {
        proof {
            reveal(HandlerView::handle_update_api_state_timeout);
        }
        self.api_state = SharedNodeState {
            height: self.state.height(),
            round: self.state.round(),
            peers_count: self.state.peers.len(),
            node_role: self.node_role,
            is_enabled: self.is_enabled,
            tx_pool_size: self.blockchain.transactions_pool_len(),
            last_block_hash: self.state.last_hash(),
            state_update_timeout: self.api_state.state_update_timeout,
        };
        self.add_update_api_state_timeout_at(now);
    }

    /// Handles the deadline `timeout`, which came at the time `now`.
    pub fn handle_timeout(&mut self, timeout: NodeTimeout, now: Milliseconds)
        requires
            old(self).wf(),
        ensures
            final(self).wf(),
            final(self)@ == old(self)@.handle_timeout(timeout@, now),
            final(self).kept(old(self)),
    {
        proof {
            reveal(HandlerView::handle_timeout);
        }
        match timeout {
            NodeTimeout::Round(height, round) => self.handle_round_timeout(height, round),
            NodeTimeout::Request(data, peer) => self.handle_request_timeout(data, peer, now),
            NodeTimeout::Status(height) => self.handle_status_timeout(height, now),
            NodeTimeout::PeerExchange => self.handle_peer_exchange_timeout(now),
            NodeTimeout::UpdateApiState => self.handle_update_api_state_timeout(now),
            NodeTimeout::Propose(height, round) => self.handle_propose_timeout(height, round),
        }
    }

    /// Sends the messages `messages` to the peer with the key `key`, in
    /// order, as the node received them.
    pub fn relay_all(&mut self, key: PublicKey, messages: Vec<Message>)
        requires
            old(self).wf(),
        ensures
            final(self).wf(),
            final(self)@ == old(self)@.relay_all(key, crate::blockchain::messages_of(messages@)),
            final(self).kept(old(self)),
    {
        let ghost start = self@;
        let ghost all = crate::blockchain::messages_of(messages@);
        let ghost sent = |m: SignedView<PayloadView>|
            NetworkRequestView::SendMessage(key, OutgoingView::Relayed(m));
        let mut i: usize = 0;
        proof {
            assert(self@.network =~= start.network + all.subrange(0, 0).map_values(sent));
        }
        while i < messages.len()
            invariant
                i <= messages.len(),
                self.wf(),
                self.kept(old(self)),
                all == crate::blockchain::messages_of(messages@),
                sent == (|m: SignedView<PayloadView>|
                    NetworkRequestView::SendMessage(key, OutgoingView::Relayed(m))),
                self@ == (HandlerView {
                    network: start.network + all.subrange(0, i as int).map_values(sent),
                    ..start
                }),
            decreases messages.len() - i,
        {
            let message = crate::messages::clone_message(&messages[i]);
            self.send_to_peer(key, Outgoing::Relayed(message));
            proof {
                assert(self@.network =~= start.network + all.subrange(0, i + 1).map_values(sent));
            }
            i = i + 1;
        }
        proof {
            assert(all.subrange(0, i as int) =~= all);
        }
    }

    /// Handles the request of a peer for a propose.
    pub fn handle_request_propose(&mut self, msg: Signed<ProposeRequest>)
        requires
            old(self).wf(),
        ensures
            final(self).wf(),
            final(self)@ == old(self)@.handle_request_propose(msg),
            final(self).kept(old(self)),
    {
        proof {
            reveal(HandlerView::handle_request_propose);
        }
        if msg.payload.to == *self.state.consensus_public_key() && msg.payload.height
            == self.state.height() {
            let found = match self.state.propose(&msg.payload.propose_hash) {
                Some(p) => {
                    let copy = clone_propose(&p.propose);
                    Some(
                        Signed {
                            payload: Payload::Propose(copy.payload),
                            author: copy.author,
                            hash: copy.hash,
                            signature: copy.signature,
                        },
                    )
                },
                None => None,
            };
            match found {
                Some(message) => self.send_to_peer(msg.author, Outgoing::Relayed(message)),
                None => {},
            }
        }
    }

    /// Handles the request of a peer for prevotes.
    pub fn handle_request_prevotes(&mut self, msg: Signed<PrevotesRequest>)
        requires
            old(self).wf(),
        ensures
            final(self).wf(),
            final(self)@ == old(self)@.handle_request_prevotes(msg),
            final(self).kept(old(self)),
    {
        proof {
            reveal(HandlerView::handle_request_prevotes);
        }
        if msg.payload.to == *self.state.consensus_public_key() && msg.payload.height
            == self.state.height() {
            let key = VoteKey {
                round: msg.payload.round,
                propose_hash: msg.payload.propose_hash,
                block_hash: crypto::Hash::zero(),
            };
            let votes = self.state.prevotes.messages_for(&key);
            let mut messages: Vec<Message> = Vec::new();
            let mut i: usize = 0;
            while i < votes.len()
                invariant
                    i <= votes.len(),
                    messages.len() == i,
                    forall|j: int| 0 <= j < i ==> messages@[j]@ == prevote_message(votes@[j]),
                decreases votes.len() - i,
            {
                let v = votes[i];
                messages.push(
                    Signed {
                        payload: Payload::Prevote(v.payload),
                        author: v.author,
                        hash: v.hash,
                        signature: v.signature,
                    },
                );
                i = i + 1;
            }
            proof {
                assert(crate::blockchain::messages_of(messages@) =~= votes@.map_values(
                    |m: Signed<Prevote>| prevote_message(m),
                ));
            }
            self.relay_all(msg.author, messages);
        }
    }

    /// The transactions of the pool with the hashes `hashes`.
    pub fn found_in_pool(&self, hashes: &Vec<crypto::Hash>) -> (found: Vec<Signed<RawTransaction>>)
        requires
            self.wf(),
        ensures
            transactions_view(found@) == found_in_pool(self@.chain.pool, hashes@),
    {
        let mut found: Vec<Signed<RawTransaction>> = Vec::new();
        let mut i: usize = 0;
        let ghost pool = self@.chain.pool;
        proof {
            assert(transactions_view(found@) =~= found_in_pool(pool, hashes@.subrange(0, 0)));
            crate::blockchain::lemma_chain_view(&self.blockchain);
        }
        while i < hashes.len()
            invariant
                i <= hashes.len(),
                self.wf(),
                pool == self@.chain.pool,
                crate::blockchain::pool::pool_ascending(pool),
                forall|h: crypto::Hash| self.blockchain.pool.has(h) == pool_has(pool, h),
                transactions_view(found@) == found_in_pool(pool, hashes@.subrange(0, i as int)),
            decreases hashes.len() - i,
        {
            proof {
                assert(hashes@.subrange(0, i + 1).drop_last() =~= hashes@.subrange(0, i as int));
            }
            let ghost before = transactions_view(found@);
            match self.blockchain.pool.position(&hashes[i]) {
                Some(at) => {
                    let tx = clone_transaction(&self.blockchain.pool.txs[at]);
                    proof {
                        assert(pool[at as int] == self.blockchain.pool.txs@[at as int]@);
                        crate::blockchain::pool::lemma_index_unique(
                            pool,
                            hashes@[i as int],
                            at as int,
                        );
                    }
                    found.push(tx);
                    proof {
                        assert(transactions_view(found@) =~= before.push(pool[at as int]));
                    }
                },
                None => {},
            }
            i = i + 1;
        }
        proof {
            assert(hashes@.subrange(0, i as int) =~= hashes@);
        }
        found
    }

    /// Handles the request of the peer `author` to the node with the key
    /// `to` for the transactions `txs`.
    pub fn handle_request_transactions(&mut self, to: PublicKey, txs: &Vec<crypto::Hash>, author: PublicKey)
        requires
            old(self).wf(),
        ensures
            final(self).wf(),
            final(self)@ == old(self)@.handle_request_transactions(to, txs@, author),
            final(self).kept(old(self)),
    {
        proof {
            reveal(HandlerView::handle_request_transactions);
        }
        if to == *self.state.consensus_public_key() {
            let found = self.found_in_pool(txs);
            if found.len() > 0 {
                self.send_to_peer(
                    author,
                    Outgoing::Own(
                        Payload::TransactionsResponse(
                            TransactionsResponse { to: author, transactions: found },
                        ),
                    ),
                );
            }
        }
    }

    /// Handles the request of a peer for a block.
    pub fn handle_request_block(&mut self, msg: Signed<BlockRequest>)
        requires
            old(self).wf(),
        ensures
            final(self).wf(),
            final(self)@ == old(self)@.handle_request_block(msg),
            final(self).kept(old(self)),
    {
        proof {
            reveal(HandlerView::handle_request_block);
        }
        if msg.payload.to == *self.state.consensus_public_key() && msg.payload.height.0
            < self.blockchain.blocks.len() as u64 {
            let block = &self.blockchain.blocks[msg.payload.height.0 as usize];
            let mut transactions: Vec<crypto::Hash> = Vec::new();
            let mut i: usize = 0;
            while i < block.transactions.len()
                invariant
                    i <= block.transactions.len(),
                    transactions.len() == i,
                    forall|j: int| 0 <= j < i ==> transactions@[j] == block.transactions@[j].hash,
                decreases block.transactions.len() - i,
            {
                transactions.push(block.transactions[i].hash);
                i = i + 1;
            }
            proof {
                assert(transactions@ =~= crate::blockchain::pool::pool_hashes(block@.transactions));
            }
            let response = BlockResponse {
                to: msg.author,
                block: block.header,
                block_hash: block.hash,
                precommits: clone_precommits(&block.precommits),
                transactions,
            };
            self.send_to_peer(msg.author, Outgoing::Own(Payload::BlockResponse(response)));
        }
    }

    /// Handles the request of a peer for peers.
    pub fn handle_request_peers(&mut self, msg: Signed<PeersRequest>)
        requires
            old(self).wf(),
        ensures
            final(self).wf(),
            final(self)@ == old(self)@.handle_request_peers(msg),
            final(self).kept(old(self)),
    {
        proof {
            reveal(HandlerView::handle_request_peers);
        }
        if msg.payload.to == *self.state.consensus_public_key() {
            let mut messages: Vec<Message> = Vec::new();
            let mut i: usize = 0;
            while i < self.state.peers.len()
                invariant
                    i <= self.state.peers.len(),
                    messages.len() == i,
                    forall|j: int|
                        0 <= j < i ==> messages@[j]@ == connect_message(self.state.peers@[j]),
                decreases self.state.peers.len() - i,
            {
                let c = clone_connect(&self.state.peers[i]);
                messages.push(
                    Signed {
                        payload: Payload::Connect(c.payload),
                        author: c.author,
                        hash: c.hash,
                        signature: c.signature,
                    },
                );
                i = i + 1;
            }
            proof {
                assert(crate::blockchain::messages_of(messages@) =~= self@.state.peers.map_values(
                    |c: Signed<Connect>| connect_message(c),
                ));
            }
            self.relay_all(msg.author, messages);
        }
    }
}

} // verus!
