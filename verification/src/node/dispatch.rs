//! The way of an event through the handler, and the start of the node: how
//! the handler is made and how it picks up where it left off.

use vstd::prelude::*;
use crate::blockchain::config::validator_position;
use crate::blockchain::{
    messages_view, Blockchain, CachedMessage, CachedMessageView, ChainView, ExecutedBlock,
};
use crate::crypto::{self, PublicKey};
use crate::helpers::{user_agent, Height, Milliseconds, Round, ValidatorId};
use crate::messages::{clone_connect, BlockResponse, BlockResponseView, Connect, Message, Payload, PayloadView, Precommit, Prevote, Propose, Signed, SignedView, Status};

use crate::node::conduct::{blank, in_order, lemma_event_keeps_order, lemma_start_in_order};
use crate::node::consensus::{lacking, timestamp_of, unknown_transactions};
use crate::node::restart::{lemma_restart_in_order, made_anew};
use crate::node::events::{
    internal_view, network_view, Event, EventView, ExternalMessage, ExternalMessageView,
    InternalEvent, InternalEventView, NetworkEvent, NetworkEventView, NodeSender,
};
use crate::node::handler::{
    ConfigManager, HandlerView, NodeHandler, SharedNodeState, SystemStateProvider,
};
use crate::node::requests::{RequestData, RequestKey};
use crate::node::state::{State, StateView, ValidatorStateView};
use crate::node::votes::VotesView;
use crate::node::{Configuration, NodeRole};

verus! {

/// What came from outside while an event was handled.
#[derive(Debug)]
pub struct Handled {
    /// The time that the machine gave, in milliseconds since the Unix
    /// epoch.
    pub now: Milliseconds,
    /// What the services said of the transactions that the event brought,
    /// in their order.
    pub verdicts: Vec<bool>,
}

impl StateView {
    /// Whether the precommits `precommits` justify the block `block_hash`
    /// at the current height: they are a quorum; each is of this height, for
    /// that block, of the round and for the propose of the first of them, and
    /// signed by the validator that it names; and no two name the same
    /// validator.
    pub open spec fn justified(self, precommits: Seq<Signed<Precommit>>, block_hash: crypto::Hash) -> bool {
        &&& precommits.len() >= self.quorum()
        &&& forall|i: int|
            0 <= i < precommits.len() ==> {
                let p = #[trigger] precommits[i];
                &&& p.payload.height == self.height
                &&& p.payload.block_hash == block_hash
                &&& p.payload.round == precommits[0].payload.round
                &&& p.payload.propose_hash == precommits[0].payload.propose_hash
                &&& self.valid_author(p.payload.validator, p.author)
            }
        &&& forall|i: int, j: int|
            0 <= i < j < precommits.len() ==> (#[trigger] precommits[i]).payload.validator != (
            #[trigger] precommits[j]).payload.validator
    }

    /// The state after the node recalled that it cast the precommit `p`: it
    /// is locked on the propose of the precommit at its round, unless it is
    /// locked at a later round.
    pub open spec fn relocked(self, p: Precommit) -> StateView {
        if self.locked_propose is None || p.round.0 > self.locked_round.0 {
            self.with_lock(p.round, p.propose_hash)
        } else {
            self
        }
    }

    /// The state after the peers that sent `connects` connected, in order.
    pub open spec fn with_peers(self, connects: Seq<Signed<Connect>>) -> StateView
        decreases connects.len(),
    {
        if connects.len() == 0 {
            self
        } else {
            self.with_peers(connects.drop_last()).with_peer(connects.last())
        }
    }
}

/// The block that a catch-up payload holds.
pub open spec fn block_of(b: BlockResponseView) -> ExecutedBlock {
    ExecutedBlock {
        block: b.block,
        block_hash: b.block_hash,
        results_hash: crypto::Hash(0, 0, 0, 0),
    }
}

impl HandlerView {
    /// Whether a consensus message of the height `height` and the round
    /// `round`, sent by `author` in the name of the validator `validator`, is
    /// one that the node handles: the node takes part in consensus, the
    /// message is of the current height and of a round from 1 on, and the
    /// author is the validator named.
    pub open spec fn in_window(
        self,
        height: Height,
        round: Round,
        validator: ValidatorId,
        author: PublicKey,
    ) -> bool {
        &&& self.is_enabled
        &&& height == self.state.height
        &&& round.0 >= 1
        &&& self.state.valid_author(validator, author)
    }

    /// The handler after a consensus message of the height `height` came
    /// from `author` at the time `now` that the node does not handle: where
    /// the node takes part in consensus and the message is of a later height,
    /// the sender is asked for the block that the node works on; a message of
    /// an earlier height changes nothing.
    #[verifier::opaque]
    pub open spec fn out_of_window(self, height: Height, author: PublicKey, now: Milliseconds) -> HandlerView {
        if self.is_enabled && height.0 > self.state.height.0 {
            self.request(RequestKey::Block(self.state.height), author, now)
        } else {
            self
        }
    }

    /// The handler after the consensus message `msg` came at the time `now`;
    /// it is saved, where the node takes it, if `save` is set.
    #[verifier::opaque]
    pub open spec fn handle_consensus(
        self,
        msg: SignedView<PayloadView>,
        now: Milliseconds,
        save: bool,
    ) -> HandlerView {
        match msg.payload {
            PayloadView::Propose(p) => if self.in_window(
                p.height,
                p.round,
                p.validator,
                msg.author,
            ) {
                self.handle_propose(
                    SignedView {
                        payload: p,
                        author: msg.author,
                        hash: msg.hash,
                        signature: msg.signature,
                    },
                    now,
                    save,
                )
            } else {
                self.out_of_window(p.height, msg.author, now)
            },
            PayloadView::Prevote(p) => if self.in_window(
                p.height,
                p.round,
                p.validator,
                msg.author,
            ) {
                self.handle_prevote(
                    Signed {
                        payload: p,
                        author: msg.author,
                        hash: msg.hash,
                        signature: msg.signature,
                    },
                    now,
                    save,
                )
            } else {
                self.out_of_window(p.height, msg.author, now)
            },
            PayloadView::Precommit(p) => if self.in_window(
                p.height,
                p.round,
                p.validator,
                msg.author,
            ) {
                self.handle_precommit(
                    Signed {
                        payload: p,
                        author: msg.author,
                        hash: msg.hash,
                        signature: msg.signature,
                    },
                    now,
                    save,
                )
            } else {
                self.out_of_window(p.height, msg.author, now)
            },
            _ => self,
        }
    }

    /// The handler after the catch-up payload `b` came from `author` at the
    /// time `now`. Where the node takes part in consensus and the payload is
    /// for this node, of the current height and justified by its precommits:
    /// the block is committed if it can follow the last block; else the
    /// transactions of the block that the pool lacks are asked of the sender.
    #[verifier::opaque]
    pub open spec fn handle_block(self, b: BlockResponseView, author: PublicKey, now: Milliseconds) -> HandlerView {
        if self.is_enabled && b.to == self.state.consensus_public_key && b.block.height
            == self.state.height && self.state.justified(b.precommits, b.block_hash) {
            if self.chain.can_commit(block_of(b), b.transactions) {
                self.commit_with(block_of(b), b.transactions, b.precommits, now)
            } else if b.transactions.filter(lacking(self.chain.pool)).len() > 0 {
                self.request(
                    RequestKey::Transactions(b.transactions.filter(lacking(self.chain.pool))),
                    author,
                    now,
                )
            } else {
                self
            }
        } else {
            self
        }
    }

    /// The handler after the message `msg` came at the time `now`, where
    /// `verdicts` is what the services say of the transactions that it
    /// brings.
    #[verifier::opaque]
    pub open spec fn handle_message(
        self,
        msg: SignedView<PayloadView>,
        verdicts: Seq<bool>,
        now: Milliseconds,
    ) -> HandlerView {
        match msg.payload {
            PayloadView::Propose(_) => self.handle_consensus(msg, now, true),
            PayloadView::Prevote(_) => self.handle_consensus(msg, now, true),
            PayloadView::Precommit(_) => self.handle_consensus(msg, now, true),
            PayloadView::Status(s) => self.handle_status(
                Signed { payload: s, author: msg.author, hash: msg.hash, signature: msg.signature },
                now,
            ),
            PayloadView::Connect(c) => self.handle_connect(
                Signed { payload: c, author: msg.author, hash: msg.hash, signature: msg.signature },
            ),
            PayloadView::Transaction(t) => self.handle_tx_with(
                SignedView {
                    payload: t,
                    author: msg.author,
                    hash: msg.hash,
                    signature: msg.signature,
                },
                verdicts.len() == 1 && verdicts[0],
                now,
            ),
            PayloadView::TransactionsResponse(to, txs) => if to
                == self.state.consensus_public_key {
                self.handle_txs_with(txs, verdicts, now)
            } else {
                self
            },
            PayloadView::BlockResponse(b) => self.handle_block(b, msg.author, now),
            PayloadView::TransactionsRequest(to, txs) => self.handle_request_transactions(
                to,
                txs,
                msg.author,
            ),
            PayloadView::ProposeRequest(r) => self.handle_request_propose(
                Signed { payload: r, author: msg.author, hash: msg.hash, signature: msg.signature },
            ),
            PayloadView::PrevotesRequest(r) => self.handle_request_prevotes(
                Signed { payload: r, author: msg.author, hash: msg.hash, signature: msg.signature },
            ),
            PayloadView::PeersRequest(r) => self.handle_request_peers(
                Signed { payload: r, author: msg.author, hash: msg.hash, signature: msg.signature },
            ),
            PayloadView::BlockRequest(r) => self.handle_request_block(
                Signed { payload: r, author: msg.author, hash: msg.hash, signature: msg.signature },
            ),
        }
    }

    /// The handler after the request `message` of the API came at the time
    /// `now`.
    #[verifier::opaque]
    pub open spec fn handle_api(
        self,
        message: ExternalMessageView,
        verdicts: Seq<bool>,
        now: Milliseconds,
    ) -> HandlerView {
        match message {
            ExternalMessageView::PeerAdd(info) => self.handle_peer_add(info),
            ExternalMessageView::Transaction(tx) => self.handle_tx_with(
                tx,
                verdicts.len() == 1 && verdicts[0],
                now,
            ),
            ExternalMessageView::Enable(on) => self.handle_enable(on),
            ExternalMessageView::Shutdown => self.handle_shutdown(),
            ExternalMessageView::Rebroadcast => self.handle_rebroadcast(),
        }
    }

    /// The handler after the event `event` came at the time `now`, where
    /// `verdicts` is what the services say of the transactions that it
    /// brings.
    #[verifier::opaque]
    pub open spec fn handle_event(self, event: EventView, verdicts: Seq<bool>, now: Milliseconds) -> HandlerView {
        match event {
            EventView::Network(NetworkEventView::MessageReceived(msg)) => self.handle_message(
                msg,
                verdicts,
                now,
            ),
            EventView::Network(NetworkEventView::PeerConnected(connect)) => self.handle_connect(
                connect,
            ),
            EventView::Network(NetworkEventView::PeerDisconnected(key)) => self.handle_disconnected(
                key,
            ),
            EventView::Network(
                NetworkEventView::UnableConnectToPeer(key),
            ) => self.handle_unable_to_connect(key),
            EventView::Transaction(message) => self.handle_api(message, verdicts, now),
            EventView::Internal(InternalEventView::JumpToRound(height, round)) => self.handle_new_round(
                height,
                round,
            ),
            EventView::Internal(InternalEventView::Timeout(timeout)) => self.handle_timeout(
                timeout,
                now,
            ),
            EventView::Internal(InternalEventView::Shutdown) => self,
            EventView::Internal(
                InternalEventView::BlockExecuted(hash, block),
            ) => self.handle_executed(hash, block, now),
        }
    }

    /// The handler after it recalled the saved message `entry`. A vote or a
    /// propose of the node's own of the current height is noted as cast; and a
    /// node that recalls a precommit is locked on the propose of that
    /// precommit at its round, unless it is locked at a later round. Nothing
    /// is sent and nothing is saved.
    #[verifier::opaque]
    pub open spec fn recall_entry(self, entry: CachedMessageView) -> HandlerView {
        match entry {
            CachedMessageView::Own(PayloadView::Prevote(p)) => if p.height == self.state.height
                && self.state.is_own(p.validator) {
                HandlerView { state: self.state.with_our_prevote(p), ..self }
            } else {
                self
            },
            CachedMessageView::Own(PayloadView::Precommit(p)) => if p.height == self.state.height
                && self.state.is_own(p.validator) && self.state.our_precommit(p.round) is None {
                HandlerView { state: self.state.with_our_precommit(p).relocked(p), ..self }
            } else {
                self
            },
            CachedMessageView::Own(PayloadView::Propose(p)) => if p.height == self.state.height
                && self.state.is_own(p.validator) && p.round.0 > self.state.proposed_round().0 {
                HandlerView { state: self.state.with_proposed(p.round), ..self }
            } else {
                self
            },
            _ => self,
        }
    }

    /// The handler after it recalled the saved messages `entries`, in
    /// order.
    #[verifier::opaque]
    pub open spec fn recall(self, entries: Seq<CachedMessageView>) -> HandlerView
        decreases entries.len(),
    {
        if entries.len() == 0 {
            self
        } else {
            self.recall(entries.drop_last()).recall_entry(entries.last())
        }
    }

    /// The handler after it took up the saved message `entry` again at the
    /// time `now`: a message that the node received is handled as when it
    /// came, and not saved again; a message of the node's own changes nothing
    /// here.
    #[verifier::opaque]
    pub open spec fn replay_entry(self, entry: CachedMessageView, now: Milliseconds) -> HandlerView {
        match entry {
            CachedMessageView::Own(_) => self,
            CachedMessageView::Received(msg) => self.handle_consensus(msg, now, false),
        }
    }

    /// The handler after it took up again, at the time `now`, the message
    /// that it holds saved at the place `at`, if it holds one there.
    #[verifier::opaque]
    pub open spec fn replay_at(self, at: int, now: Milliseconds) -> HandlerView {
        if 0 <= at < self.chain.cache.len() {
            self.replay_entry(self.chain.cache[at], now)
        } else {
            self
        }
    }

    /// The handler after it took up again, at the time `now`, the saved
    /// messages at the first `count` places, in order.
    #[verifier::opaque]
    pub open spec fn replay_first(self, count: nat, now: Milliseconds) -> HandlerView
        decreases count,
    {
        if count == 0 {
            self
        } else {
            self.replay_first((count - 1) as nat, now).replay_at(count - 1, now)
        }
    }

    /// The handler after it sent its advertisement to each of the peers
    /// `keys`, in order.
    pub open spec fn connect_all(self, keys: Seq<PublicKey>) -> HandlerView {
        self.send_to_all(
            keys,
            crate::node::events::OutgoingView::Own(
                PayloadView::Connect(self.state.our_connect_message),
            ),
        )
    }

    /// The peers that the node turns to when it starts: the authors of the
    /// advertisements that it holds, then the peers of the connect list that
    /// are not among them; the node itself is left out.
    pub open spec fn startup_peers(self) -> Seq<PublicKey> {
        let own = self.state.consensus_public_key;
        self.state.peers.map_values(|c: Signed<Connect>| c.author).filter(
            |k: PublicKey| k != own,
        ) + self.state.connect_list.map_values(|i: crate::node::ConnectInfo| i.public_key).filter(
            |k: PublicKey| k != own && !self.state.has_peer(k),
        )
    }

    /// The handler after it went back to the round that it had saved.
    pub open spec fn restore_round(self) -> HandlerView {
        HandlerView { state: self.state.with_round(self.chain.consensus_round), ..self }
    }

    /// The handler after it started at the time `now`: it turns to its
    /// peers, goes back to the round that it had saved, sets its deadlines,
    /// recalls what it had cast itself, and then takes up the saved consensus
    /// messages that it had received. So it casts no vote in a round in which
    /// it had cast one before.
    #[verifier::opaque]
    pub open spec fn initialize(self, now: Milliseconds) -> HandlerView {
        self.connect_all(self.startup_peers()).restore_round().add_timeouts(now).recall(
            self.chain.cache,
        ).replay_first(self.chain.cache.len(), now)
    }
}

/// Recalling one saved message more, written out.
pub proof fn lemma_recall_step(s: HandlerView, entries: Seq<CachedMessageView>)
    ensures
        entries.len() == 0 ==> s.recall(entries) == s,
        entries.len() > 0 ==> s.recall(entries) == s.recall(entries.drop_last()).recall_entry(
            entries.last(),
        ),
{
    reveal(HandlerView::recall);
}

/// Taking up one saved message more, written out.
pub proof fn lemma_replay_step(s: HandlerView, count: nat, now: Milliseconds)
    ensures
        count == 0 ==> s.replay_first(count, now) == s,
        count > 0 ==> s.replay_first(count, now) == s.replay_first((count - 1) as nat, now).replay_at(
            count - 1,
            now,
        ),
{
    reveal(HandlerView::replay_first);
}

impl State {
    /// Whether the precommits `precommits` justify the block `block_hash`
    /// at the current height.
    pub fn justified(&self, precommits: &Vec<Signed<Precommit>>, block_hash: crypto::Hash) -> (b: bool)
        requires
            self.wf(),
        ensures
            b == self@.justified(precommits@, block_hash),
    {
        if (precommits.len() as u64) < self.majority_count() {
            return false;
        }
        let first = precommits[0];
        let mut i: usize = 0;
        while i < precommits.len()
            invariant
                i <= precommits.len(),
                0 < precommits.len(),
                first == precommits@[0],
                forall|k: int|
                    0 <= k < i ==> {
                        let p = #[trigger] precommits@[k];
                        &&& p.payload.height == self@.height
                        &&& p.payload.block_hash == block_hash
                        &&& p.payload.round == first.payload.round
                        &&& p.payload.propose_hash == first.payload.propose_hash
                        &&& self@.valid_author(p.payload.validator, p.author)
                    },
                forall|a: int, b: int|
                    0 <= a < b < i ==> (#[trigger] precommits@[a]).payload.validator != (
                    #[trigger] precommits@[b]).payload.validator,
            decreases precommits.len() - i,
        {
            let p = precommits[i];
            if !(p.payload.height == self.height && p.payload.block_hash == block_hash
                && p.payload.round == first.payload.round && p.payload.propose_hash
                == first.payload.propose_hash && self.valid_author(p.payload.validator, p.author)) {
                return false;
            }
            let mut k: usize = 0;
            while k < i
                invariant
                    k <= i,
                    i < precommits.len(),
                    p == precommits@[i as int],
                    forall|a: int|
                        0 <= a < k ==> (#[trigger] precommits@[a]).payload.validator
                            != p.payload.validator,
                decreases i - k,
            {
                if precommits[k].payload.validator == p.payload.validator {
                    return false;
                }
                k = k + 1;
            }
            i = i + 1;
        }
        true
    }
}

impl NodeHandler {
    /// Whether the handler is as it is made for a node with the chain
    /// `chain`, the address `external_address`, the given keys, the connect
    /// list `connect_list` and the API state `api_state`: the node works on
    /// the height after the last block of the chain, in round 0, unlocked,
    /// with nothing seen and nothing asked for; it is a validator, with the
    /// index at which the chain's configuration first lists its consensus
    /// key, if the configuration lists that key, and an auditor else; its
    /// peers are those that the chain had saved; its advertisement bears its
    /// address and the time at which the height was started; and it takes
    /// part in consensus if the API state says so.
    pub open spec fn made_from(
        &self,
        chain: ChainView,
        external_address: Seq<char>,
        consensus_public_key: PublicKey,
        consensus_secret_key: crate::crypto::SecretKey,
        service_public_key: PublicKey,
        service_secret_key: crate::crypto::SecretKey,
        connect_list: Seq<crate::node::ConnectInfo>,
        api_state: SharedNodeState,
    ) -> bool {
        let handler = self@;
        &&& handler.chain == chain
        &&& handler.state == (StateView {
            validator_state: handler.state.validator_state,
            our_connect_message: handler.state.our_connect_message,
            consensus_public_key,
            consensus_secret_key,
            service_public_key,
            service_secret_key,
            validators: chain.validators,
            consensus: chain.consensus,
            connect_list,
            peers: handler.state.peers,
            height: Height(chain.blocks.len() as u64),
            height_start_time: handler.state.height_start_time,
            round: Round(0),
            locked_round: Round(0),
            locked_propose: None,
            last_hash: chain.last_hash(),
            proposes: Seq::empty(),
            prevotes: VotesView { records: Seq::empty(), messages: Seq::empty() },
            precommits: VotesView { records: Seq::empty(), messages: Seq::empty() },
            requests: Map::empty(),
        })
        &&& handler.state.validator_state == (match handler.node_role {
            NodeRole::Validator(id) => Some(ValidatorStateView::fresh(id)),
            NodeRole::Auditor => None,
        })
        &&& match handler.node_role {
            NodeRole::Validator(id) => id.0 < chain.validators.len()
                && chain.validators[id.0 as int].consensus_key == consensus_public_key
                && forall|j: int|
                0 <= j < id.0 ==> chain.validators[j].consensus_key != consensus_public_key,
            NodeRole::Auditor => forall|j: int|
                0 <= j < chain.validators.len() ==> chain.validators[j].consensus_key
                    != consensus_public_key,
        }
        &&& handler.state.peers == (StateView { peers: Seq::empty(), ..handler.state }).with_peers(
            chain.saved_peers,
        ).peers
        &&& handler.state.our_connect_message.pub_addr@ == external_address
        &&& handler.state.our_connect_message.user_agent@ == "exonum-node 0.1.0"@
        &&& handler.state.our_connect_message.time == timestamp_of(handler.state.height_start_time)
        &&& handler.is_enabled == api_state.is_enabled
        &&& handler.api_state == (SharedNodeState { node_role: handler.node_role, ..api_state })
        &&& handler.allow_expedited_propose
        &&& handler.internal == internal_view(self.channel.internal_requests@)
        &&& handler.network == network_view(self.channel.network_requests@)
    }

    /// Handles a consensus message of the height `height` that came from
    /// `author` at the time `now` and that the node does not handle.
    pub fn out_of_window(&mut self, height: Height, author: PublicKey, now: Milliseconds)
        requires
            old(self).wf(),
        ensures
            final(self).wf(),
            final(self)@ == old(self)@.out_of_window(height, author, now),
            final(self).kept(old(self)),
    {
        proof {
            reveal(HandlerView::out_of_window);
        }
        if self.is_enabled && height.0 > self.state.height().0 {
            let current = self.state.height();
            self.request_at(RequestData::Block(current), author, now);
        }
    }

    /// Whether a consensus message of the height `height` and the round
    /// `round`, sent by `author` in the name of the validator `validator`, is
    /// one that the node handles.
    pub fn in_window(&self, height: Height, round: Round, validator: ValidatorId, author: PublicKey) -> (b:
        bool)
        ensures
            b == self@.in_window(height, round, validator, author),
    {
        self.is_enabled && height == self.state.height() && round.0 >= 1 && self.state.valid_author(
            validator,
            author,
        )
    }

    /// Handles the consensus message `msg`, which came at the time `now`.
    /// A message of any other kind changes nothing.
    pub fn handle_consensus(&mut self, msg: Message, now: Milliseconds, save: bool)
        requires
            old(self).wf(),
        ensures
            final(self).wf(),
            final(self)@ == old(self)@.handle_consensus(msg@, now, save),
            final(self).kept(old(self)),
    {
        proof {
            reveal(HandlerView::handle_consensus);
        }
        let author = msg.author;
        let hash = msg.hash;
        let signature = msg.signature;
        match msg.payload {
            Payload::Propose(p) => {
                if self.in_window(p.height, p.round, p.validator, author) {
                    self.handle_propose(Signed { payload: p, author, hash, signature }, now, save);
                } else {
                    self.out_of_window(p.height, author, now);
                }
            },
            Payload::Prevote(p) => {
                if self.in_window(p.height, p.round, p.validator, author) {
                    self.handle_prevote(Signed { payload: p, author, hash, signature }, now, save);
                } else {
                    self.out_of_window(p.height, author, now);
                }
            },
            Payload::Precommit(p) => {
                if self.in_window(p.height, p.round, p.validator, author) {
                    self.handle_precommit(Signed { payload: p, author, hash, signature }, now, save);
                } else {
                    self.out_of_window(p.height, author, now);
                }
            },
            _ => {},
        }
    }

    /// Handles the catch-up payload `b`, which came from `author` at the
    /// time `now`.
    pub fn handle_block(&mut self, b: BlockResponse, author: PublicKey, now: Milliseconds)
        requires
            old(self).wf(),
        ensures
            final(self).wf(),
            final(self)@ == old(self)@.handle_block(b@, author, now),
            final(self).kept(old(self)),
    {
        proof {
            reveal(HandlerView::handle_block);
        }
        if self.is_enabled && b.to == *self.state.consensus_public_key() && b.block.height
            == self.state.height() && self.state.justified(&b.precommits, b.block_hash) {
            let block = ExecutedBlock {
                block: b.block,
                block_hash: b.block_hash,
                results_hash: crypto::Hash::zero(),
            };
            if self.blockchain.can_commit(&block, &b.transactions) {
                self.commit_with(block, &b.transactions, b.precommits, now);
            } else {
                let unknown = unknown_transactions(&self.blockchain, &b.transactions);
                if unknown.len() > 0 {
                    self.request_at(RequestData::Transactions(unknown), author, now);
                }
            }
        }
    }

    /// Handles the message `msg`, which came at the time `now`. Returns
    /// what the services said of the transactions that it brought.
    pub fn handle_message(&mut self, msg: Message, now: Milliseconds) -> (verdicts: Vec<bool>)
        requires
            old(self).wf(),
        ensures
            final(self).wf(),
            final(self)@ == old(self)@.handle_message(msg@, verdicts@, now),
            final(self).kept(old(self)),
    {
        proof {
            reveal(HandlerView::handle_message);
        }
        let author = msg.author;
        let hash = msg.hash;
        let signature = msg.signature;
        let mut verdicts: Vec<bool> = Vec::new();
        match msg.payload {
            Payload::Propose(p) => {
                self.handle_consensus(
                    Signed { payload: Payload::Propose(p), author, hash, signature },
                    now,
                    true,
                );
            },
            Payload::Prevote(p) => {
                self.handle_consensus(
                    Signed { payload: Payload::Prevote(p), author, hash, signature },
                    now,
                    true,
                );
            },
            Payload::Precommit(p) => {
                self.handle_consensus(
                    Signed { payload: Payload::Precommit(p), author, hash, signature },
                    now,
                    true,
                );
            },
            Payload::Status(s) => {
                self.handle_status(Signed { payload: s, author, hash, signature }, now);
            },
            Payload::Connect(c) => {
                self.handle_connect(Signed { payload: c, author, hash, signature });
            },
            Payload::Transaction(t) => {
                let accepted = self.handle_tx(Signed { payload: t, author, hash, signature }, now);
                verdicts.push(accepted);
            },
            Payload::TransactionsResponse(r) => {
                if r.to == *self.state.consensus_public_key() {
                    verdicts = self.handle_txs_batch(r.transactions, now);
                }
            },
            Payload::BlockResponse(b) => {
                self.handle_block(b, author, now);
            },
            Payload::TransactionsRequest(r) => {
                self.handle_request_transactions(r.to, &r.txs, author);
            },
            Payload::ProposeRequest(r) => {
                self.handle_request_propose(Signed { payload: r, author, hash, signature });
            },
            Payload::PrevotesRequest(r) => {
                self.handle_request_prevotes(Signed { payload: r, author, hash, signature });
            },
            Payload::PeersRequest(r) => {
                self.handle_request_peers(Signed { payload: r, author, hash, signature });
            },
            Payload::BlockRequest(r) => {
                self.handle_request_block(Signed { payload: r, author, hash, signature });
            },
        }
        verdicts
    }

    /// Handles the request `message` of the API, which came at the time
    /// `now`. Returns what the services said of the transaction that it
    /// brought, if it brought one.
    pub fn handle_api(&mut self, message: ExternalMessage, now: Milliseconds) -> (verdicts: Vec<bool>)
        requires
            old(self).wf(),
        ensures
            final(self).wf(),
            final(self)@ == old(self)@.handle_api(message@, verdicts@, now),
            final(self).kept(old(self)),
    {
        proof {
            reveal(HandlerView::handle_api);
        }
        let mut verdicts: Vec<bool> = Vec::new();
        match message {
            ExternalMessage::PeerAdd(info) => {
                self.handle_peer_add(info);
            },
            ExternalMessage::Transaction(tx) => {
                let accepted = self.handle_tx(tx, now);
                verdicts.push(accepted);
            },
            ExternalMessage::Enable(on) => {
                self.handle_enable(on);
            },
            ExternalMessage::Shutdown => {
                self.handle_shutdown();
            },
            ExternalMessage::Rebroadcast => {
                self.handle_rebroadcast();
            },
        }
        verdicts
    }

    /// Handles the event `event` at the time `now`. Returns what the
    /// services said of the transactions that it brought. A handler that is
    /// in order stays in order.
    pub fn handle_event_at(&mut self, event: Event, now: Milliseconds) -> (verdicts: Vec<bool>)
        requires
            old(self).wf(),
        ensures
            final(self).wf(),
            final(self)@ == old(self)@.handle_event(event@, verdicts@, now),
            final(self).kept(old(self)),
            in_order(old(self)@) ==> in_order(final(self)@),
    {
        proof {
            reveal(HandlerView::handle_event);
        }
        let ghost before = self@;
        let ghost came = event@;
        let verdicts = match event {
            Event::Network(NetworkEvent::MessageReceived(msg)) => self.handle_message(msg, now),
            Event::Network(NetworkEvent::PeerConnected(connect)) => {
                self.handle_connect(connect);
                Vec::new()
            },
            Event::Network(NetworkEvent::PeerDisconnected(key)) => {
                self.handle_disconnected(key);
                Vec::new()
            },
            Event::Network(NetworkEvent::UnableConnectToPeer(key)) => {
                self.handle_unable_to_connect(key);
                Vec::new()
            },
            Event::Transaction(message) => self.handle_api(message, now),
            Event::Internal(InternalEvent::JumpToRound(height, round)) => {
                self.handle_new_round(height, round);
                Vec::new()
            },
            Event::Internal(InternalEvent::Timeout(timeout)) => {
                self.handle_timeout(timeout, now);
                Vec::new()
            },
            Event::Internal(InternalEvent::Shutdown) => Vec::new(),
            Event::Internal(InternalEvent::BlockExecuted(hash, block)) => {
                self.handle_executed(hash, block, now);
                Vec::new()
            },
        };
        proof {
            if in_order(before) {
                lemma_event_keeps_order(before, came, verdicts@, now);
            }
        }
        verdicts
    }

    /// Handles the event `event`, at the time that the machine gives.
    /// Returns that time and what the services said of the transactions that
    /// the event brought. A handler that is in order stays in order.
    pub fn handle_event(&mut self, event: Event) -> (handled: Handled)
        requires
            old(self).wf(),
        ensures
            final(self).wf(),
            final(self)@ == old(self)@.handle_event(event@, handled.verdicts@, handled.now),
            final(self).kept(old(self)),
            in_order(old(self)@) ==> in_order(final(self)@),
    {
        let now = self.system_state.current_time();
        let verdicts = self.handle_event_at(event, now);
        Handled { now, verdicts }
    }

    /// Recalls the saved message `entry`.
    pub fn recall_entry(&mut self, entry: CachedMessage)
        requires
            old(self).wf(),
        ensures
            final(self).wf(),
            final(self)@ == old(self)@.recall_entry(entry@),
            final(self).kept(old(self)),
    {
        proof {
            reveal(HandlerView::recall_entry);
        }
        match entry {
            CachedMessage::Own(Payload::Prevote(p)) => {
                if p.height == self.state.height() && self.state.validator_id() == Some(
                    p.validator,
                ) {
                    self.state.add_our_prevote(p);
                }
            },
            CachedMessage::Own(Payload::Precommit(p)) => {
                if p.height == self.state.height() && self.state.validator_id() == Some(
                    p.validator,
                ) {
                    let added = self.state.add_our_precommit(p);
                    if added && (self.state.locked_propose().is_none() || p.round.0
                        > self.state.locked_round().0) {
                        self.state.lock(p.round, p.propose_hash);
                    }
                }
            },
            CachedMessage::Own(Payload::Propose(p)) => {
                if p.height == self.state.height() && self.state.validator_id() == Some(
                    p.validator,
                ) && p.round.0 > self.state.proposed_round().0 {
                    self.state.set_proposed(p.round);
                }
            },
            _ => {},
        }
    }

    /// Takes up the saved message `entry` again at the time `now`.
    pub fn replay_entry(&mut self, entry: CachedMessage, now: Milliseconds)
        requires
            old(self).wf(),
        ensures
            final(self).wf(),
            final(self)@ == old(self)@.replay_entry(entry@, now),
            final(self).kept(old(self)),
    {
        proof {
            reveal(HandlerView::replay_entry);
        }
        match entry {
            CachedMessage::Own(_) => {},
            CachedMessage::Received(msg) => {
                self.handle_consensus(msg, now, false);
            },
        }
    }

    /// The peers that the node turns to when it starts.
    pub fn startup_peers(&self) -> (keys: Vec<PublicKey>)
        requires
            self.wf(),
        ensures
            keys@ == self@.startup_peers(),
    {
        let own = *self.state.consensus_public_key();
        let ghost s = self@;
        let ghost authors = s.state.peers.map_values(|c: Signed<Connect>| c.author);
        let ghost not_own = |k: PublicKey| k != own;
        let ghost listed = s.state.connect_list.map_values(
            |i: crate::node::ConnectInfo| i.public_key,
        );
        let ghost fresh = |k: PublicKey| k != own && !s.state.has_peer(k);
        let mut keys: Vec<PublicKey> = Vec::new();
        let mut i: usize = 0;
        proof {
            reveal(Seq::filter);
            assert(authors.subrange(0, 0) =~= Seq::<PublicKey>::empty());
        }
        while i < self.state.peers.len()
            invariant
                i <= self.state.peers.len(),
                authors == self@.state.peers.map_values(|c: Signed<Connect>| c.author),
                not_own == (|k: PublicKey| k != own),
                keys@ == authors.subrange(0, i as int).filter(not_own),
            decreases self.state.peers.len() - i,
        {
            proof {
                assert(authors.subrange(0, i + 1).drop_last() =~= authors.subrange(0, i as int));
                assert(authors.subrange(0, i + 1).last() == self.state.peers@[i as int].author);
                reveal(Seq::filter);
            }
            if self.state.peers[i].author != own {
                keys.push(self.state.peers[i].author);
            }
            i = i + 1;
        }
        proof {
            assert(authors.subrange(0, i as int) =~= authors);
            assert(listed.subrange(0, 0) =~= Seq::<PublicKey>::empty());
            reveal(Seq::filter);
            assert(keys@ =~= authors.filter(not_own) + listed.subrange(0, 0).filter(fresh));
        }
        let mut k: usize = 0;
        while k < self.state.connect_list.peers.len()
            invariant
                k <= self.state.connect_list.peers.len(),
                self.wf(),
                s == self@,
                listed == s.state.connect_list.map_values(
                    |i: crate::node::ConnectInfo| i.public_key,
                ),
                fresh == (|k: PublicKey| k != own && !s.state.has_peer(k)),
                keys@ == authors.filter(not_own) + listed.subrange(0, k as int).filter(fresh),
            decreases self.state.connect_list.peers.len() - k,
        {
            let key = self.state.connect_list.peers[k].public_key;
            proof {
                assert(listed.subrange(0, k + 1).drop_last() =~= listed.subrange(0, k as int));
                assert(listed.subrange(0, k + 1).last() == key);
                reveal(Seq::filter);
            }
            if key != own && self.state.peer_position(&key).is_none() {
                keys.push(key);
            }
            k = k + 1;
        }
        proof {
            assert(listed.subrange(0, k as int) =~= listed);
        }
        keys
    }

    /// Starts the node at the time `now`: turns to the peers, goes back to
    /// the saved round, sets the deadlines, recalls what the node had cast
    /// itself, and takes up the saved consensus messages that it had received.
    /// A handler as it is made starts in order, where it has no message saved
    /// or holds what a handler in order had saved.
    pub fn initialize_at(&mut self, now: Milliseconds)
        requires
            old(self).wf(),
        ensures
            final(self).wf(),
            final(self)@ == old(self)@.initialize(now),
            final(self).kept(old(self)),
            blank(old(self)@) && old(self)@.chain.cache.len() == 0 ==> in_order(final(self)@),
            forall|before: HandlerView|
                in_order(before) && #[trigger] made_anew(old(self)@, before) ==> in_order(
                    final(self)@,
                ),
    {
        proof {
            reveal(HandlerView::initialize);
            let start = self@;
            if blank(start) && start.chain.cache.len() == 0 {
                lemma_start_in_order(start, now);
            }
            assert forall|before: HandlerView|
                in_order(before) && #[trigger] made_anew(start, before) implies in_order(
                start.initialize(now),
            ) by {
                lemma_restart_in_order(before, start, now);
            }
        }
        let ghost start = self@;
        let peers = self.startup_peers();
        let ghost message = crate::node::events::OutgoingView::Own(
            PayloadView::Connect(start.state.our_connect_message),
        );
        let ghost sent = |k: PublicKey| crate::node::events::NetworkRequestView::SendMessage(
            k,
            message,
        );
        let mut i: usize = 0;
        proof {
            assert(self@.network =~= start.network + peers@.subrange(0, 0).map_values(sent));
        }
        while i < peers.len()
            invariant
                i <= peers.len(),
                self.wf(),
                self.kept(old(self)),
                message == crate::node::events::OutgoingView::Own(
                    PayloadView::Connect(start.state.our_connect_message),
                ),
                sent == (|k: PublicKey|
                    crate::node::events::NetworkRequestView::SendMessage(k, message)),
                self@ == (HandlerView {
                    network: start.network + peers@.subrange(0, i as int).map_values(sent),
                    ..start
                }),
            decreases peers.len() - i,
        {
            self.connect(peers[i]);
            proof {
                assert(self@.network =~= start.network + peers@.subrange(0, i + 1).map_values(sent));
            }
            i = i + 1;
        }
        proof {
            assert(peers@.subrange(0, i as int) =~= peers@);
            assert(self@ == start.connect_all(start.startup_peers()));
        }
        let round = self.blockchain.consensus_round();
        self.state.jump_round(round);
        self.add_timeouts(now);
        let cache = self.blockchain.consensus_messages_cache();
        let ghost entries = messages_view(cache@);
        let ghost resumed = self@;
        let mut r: usize = 0;
        proof {
            lemma_recall_step(resumed, entries.subrange(0, 0));
        }
        while r < cache.len()
            invariant
                r <= cache.len(),
                self.wf(),
                self.kept(old(self)),
                entries == messages_view(cache@),
                self@ == resumed.recall(entries.subrange(0, r as int)),
            decreases cache.len() - r,
        {
            proof {
                assert(entries.subrange(0, r + 1).drop_last() =~= entries.subrange(0, r as int));
                assert(entries.subrange(0, r + 1).last() == cache@[r as int]@);
                lemma_recall_step(resumed, entries.subrange(0, r + 1));
            }
            self.recall_entry(cache[r].clone());
            r = r + 1;
        }
        proof {
            assert(entries.subrange(0, r as int) =~= entries);
        }
        let ghost ready = self@;
        let count = cache.len();
        let mut k: usize = 0;
        proof {
            lemma_replay_step(ready, 0, now);
        }
        while k < count
            invariant
                k <= count,
                self.wf(),
                self.kept(old(self)),
                self@ == ready.replay_first(k as nat, now),
            decreases count - k,
        {
            proof {
                lemma_replay_step(ready, (k + 1) as nat, now);
                reveal(HandlerView::replay_at);
            }
            if k < self.blockchain.consensus_messages_cache.len() {
                let entry = self.blockchain.consensus_messages_cache[k].clone();
                self.replay_entry(entry, now);
            }
            k = k + 1;
        }
    }

    /// Starts the node, at the time that the machine gives. Returns that
    /// time. A handler as it is made starts in order, where it has no message
    /// saved or holds what a handler in order had saved.
    pub fn initialize(&mut self) -> (now: Milliseconds)
        requires
            old(self).wf(),
        ensures
            final(self).wf(),
            final(self)@ == old(self)@.initialize(now),
            final(self).kept(old(self)),
            blank(old(self)@) && old(self)@.chain.cache.len() == 0 ==> in_order(final(self)@),
            forall|before: HandlerView|
                in_order(before) && #[trigger] made_anew(old(self)@, before) ==> in_order(
                    final(self)@,
                ),
    {
        let now = self.system_state.current_time();
        self.initialize_at(now);
        now
    }

    /// Makes the handler of a node whose chain is `blockchain`. The node
    /// works on the height after the last block, in round 0 until it is
    /// started, and is a validator where the configuration of the chain lists
    /// its consensus key.
    pub fn new(
        blockchain: Blockchain,
        external_address: &str,
        sender: NodeSender,
        system_state: Box<dyn SystemStateProvider>,
        config: Configuration,
        api_state: SharedNodeState,
        config_file_path: Option<String>,
    ) -> (handler: Self)
        requires
            blockchain.wf(),
            blockchain@.validators.len() <= 0x1_0000,
            config.listener.connect_list.wf(),
        ensures
            handler.wf(),
            handler.made_from(
                blockchain@,
                external_address@,
                config.listener.consensus_public_key,
                config.listener.consensus_secret_key,
                config.service.service_public_key,
                config.service.service_secret_key,
                config.listener.connect_list.peers@,
                api_state,
            ),
            blank(handler@),
            handler.channel == sender,
            handler.peer_discovery == config.peer_discovery,
            handler.blockchain.services == blockchain.services,
            match config_file_path {
                Some(path) => handler.config_manager matches Some(m) && m.path == path,
                None => handler.config_manager is None,
            },
    {
        let last_hash = blockchain.last_hash();
        let last_height = blockchain.height().next();
        let stored = blockchain.actual_configuration();
        let validator_id = match validator_position(
            &stored.validator_keys,
            config.listener.consensus_public_key,
        ) {
            Some(id) => Some(ValidatorId(id as u16)),
            None => None,
        };
        let now = system_state.current_time();
        let agent = user_agent();
        let connect = Connect::new(
            external_address,
            crate::node::consensus::timestamp_from_millis(now),
            agent.as_str(),
        );
        let saved = blockchain.get_saved_peers();
        let mut state = State::new(
            validator_id,
            config.listener.consensus_public_key,
            config.listener.consensus_secret_key,
            config.service.service_public_key,
            config.service.service_secret_key,
            config.listener.connect_list,
            stored,
            connect,
            Vec::new(),
            last_hash,
            last_height,
            now,
        );
        let ghost empty = state@;
        let mut i: usize = 0;
        while i < saved.len()
            invariant
                i <= saved.len(),
                state.wf(),
                state@ == (StateView {
                    peers: empty.with_peers(saved@.subrange(0, i as int)).peers,
                    ..empty
                }),
            decreases saved.len() - i,
        {
            proof {
                assert(saved@.subrange(0, i + 1).drop_last() =~= saved@.subrange(0, i as int));
            }
            state.add_peer(clone_connect(&saved[i]));
            i = i + 1;
        }
        proof {
            assert(saved@.subrange(0, i as int) =~= saved@);
        }
        let node_role = NodeRole::new(validator_id);
        let is_enabled = api_state.is_enabled();
        let mut api_state = api_state;
        api_state.set_node_role(node_role);
        let config_manager = match config_file_path {
            Some(path) => Some(ConfigManager::new(path)),
            None => None,
        };
        let handler = NodeHandler {
            blockchain,
            api_state,
            system_state,
            state,
            channel: sender,
            peer_discovery: config.peer_discovery,
            is_enabled,
            node_role,
            config_manager,
            allow_expedited_propose: true,
        };
        proof {
            assert(handler@.state.proposes =~= Seq::empty());
        }
        handler
    }
}

} // verus!
