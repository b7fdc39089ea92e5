//! The handler: the single place where the node takes an event, changes its
//! state and notes down what is to be sent and what deadlines are to be set.

use vstd::prelude::*;

use crate::blockchain::{Blockchain, ChainView};
use crate::crypto::{self, PublicKey};
use crate::helpers::{Height, Milliseconds, Round};
use crate::messages::{Connect, Payload, PayloadView};
use crate::node::connect_list::has_key;
use crate::node::events::{
    internal_view, network_view, InternalRequest, InternalRequestView, NetworkRequest,
    NetworkRequestView, NodeSender, NodeTimeout, NodeTimeoutView, Outgoing, OutgoingView,
    TimeoutRequest,
};
use crate::node::requests::{with_request, RequestData, RequestKey};
use crate::node::state::{State, StateView};
use crate::node::{NodeRole};

verus! {

/// What the node needs to know of the machine it runs on. Implemented by
/// the user of the node.
pub trait SystemStateProvider {
    /// The address that the node listens on.
    fn listen_address(&self) -> String;

    /// The time now, in milliseconds since the Unix epoch.
    fn current_time(&self) -> Milliseconds;
}

/// What the API shows of the node. The handler refreshes it when the
/// deadline `UpdateApiState` comes.
#[derive(Clone, Copy, Debug, PartialEq, Eq, Structural)]
pub struct SharedNodeState {
    /// Height that the node works on.
    pub height: Height,
    /// Round that the node is in.
    pub round: Round,
    /// Number of connected peers.
    pub peers_count: usize,
    /// Role of the node.
    pub node_role: NodeRole,
    /// Whether the node takes part in consensus.
    pub is_enabled: bool,
    /// Number of transactions in the pool.
    pub tx_pool_size: u64,
    /// Hash of the last block.
    pub last_block_hash: crypto::Hash,
    /// Period at which the handler refreshes these values.
    pub state_update_timeout: Milliseconds,
}

impl SharedNodeState {
    /// The state of a node that has not reported yet: an auditor at height
    /// 0 that takes part in consensus.
    pub open spec fn spec_new(state_update_timeout: Milliseconds) -> SharedNodeState {
        SharedNodeState {
            height: Height(0),
            round: Round(0),
            peers_count: 0,
            node_role: NodeRole::Auditor,
            is_enabled: true,
            tx_pool_size: 0,
            last_block_hash: crypto::Hash(0, 0, 0, 0),
            state_update_timeout,
        }
    }

    /// The state of a node that has not reported yet.
    pub fn new(state_update_timeout: Milliseconds) -> (s: Self)
        ensures
            s == Self::spec_new(state_update_timeout),
    {
        SharedNodeState {
            height: Height(0),
            round: Round(0),
            peers_count: 0,
            node_role: NodeRole::Auditor,
            is_enabled: true,
            tx_pool_size: 0,
            last_block_hash: crypto::Hash::zero(),
            state_update_timeout,
        }
    }

    /// Whether the node takes part in consensus.
    pub fn is_enabled(&self) -> (b: bool)
        ensures
            b == self.is_enabled,
    {
        self.is_enabled
    }

    /// Sets whether the node takes part in consensus.
    pub fn set_enabled(&mut self, is_enabled: bool)
        ensures
            *final(self) == (SharedNodeState { is_enabled, ..*old(self) }),
    {
        self.is_enabled = is_enabled;
    }

    /// Sets the role of the node.
    pub fn set_node_role(&mut self, node_role: NodeRole)
        ensures
            *final(self) == (SharedNodeState { node_role, ..*old(self) }),
    {
        self.node_role = node_role;
    }

    /// Period at which the handler refreshes the state.
    pub fn state_update_timeout(&self) -> (t: Milliseconds)
        ensures
            t == self.state_update_timeout,
    {
        self.state_update_timeout
    }
}

/// Where the node's configuration file is. Whoever runs the node writes
/// the file.
#[derive(Debug)]
pub struct ConfigManager {
    /// Path of the configuration file.
    pub path: String,
}

impl ConfigManager {
    /// A manager of the file at `path`.
    pub fn new(path: String) -> (m: Self)
        ensures
            m.path == path,
    {
        ConfigManager { path }
    }
}

/// The handler of the node.
pub struct NodeHandler {
    /// State of the node.
    pub state: State,
    /// What the API shows of the node.
    pub api_state: SharedNodeState,
    /// The machine that the node runs on.
    pub system_state: Box<dyn SystemStateProvider>,
    /// What the node has asked of its surroundings.
    pub channel: NodeSender,
    /// The chain.
    pub blockchain: Blockchain,
    /// Addresses of peers that were known when the node started.
    pub peer_discovery: Vec<String>,
    /// Whether the node takes part in consensus.
    pub is_enabled: bool,
    /// Role of the node.
    pub node_role: NodeRole,
    /// Where the configuration file is, if there is one.
    pub config_manager: Option<ConfigManager>,
    /// Whether the propose of this round may still be brought forward
    /// because the pool has filled.
    pub allow_expedited_propose: bool,
}

/// The handler, as a mathematical value.
pub struct HandlerView {
    /// State of the node.
    pub state: StateView,
    /// The chain.
    pub chain: ChainView,
    /// What the API shows of the node.
    pub api_state: SharedNodeState,
    /// What the node has asked of the tasks beside it, oldest first.
    pub internal: Seq<InternalRequestView>,
    /// What the node has asked of the network task, oldest first.
    pub network: Seq<NetworkRequestView>,
    /// Whether the node takes part in consensus.
    pub is_enabled: bool,
    /// Role of the node.
    pub node_role: NodeRole,
    /// Whether the propose of this round may still be brought forward.
    pub allow_expedited_propose: bool,
}

impl View for NodeHandler {
    type V = HandlerView;

    open spec fn view(&self) -> HandlerView {
        HandlerView {
            state: self.state@,
            chain: self.blockchain@,
            api_state: self.api_state,
            internal: internal_view(self.channel.internal_requests@),
            network: network_view(self.channel.network_requests@),
            is_enabled: self.is_enabled,
            node_role: self.node_role,
            allow_expedited_propose: self.allow_expedited_propose,
        }
    }
}

/// The time `x`, kept within what 64 bits hold: a time that would lie
/// beyond stands for "never".
pub open spec fn clamp(x: int) -> Milliseconds {
    if x < 0 {
        0
    } else if x > u64::MAX {
        u64::MAX
    } else {
        x as u64
    }
}

/// The round after `round`; the last round that 32 bits hold is its own
/// successor.
pub open spec fn next_round(round: Round) -> Round {
    if round.0 < u32::MAX {
        Round((round.0 + 1) as u32)
    } else {
        round
    }
}

/// The authors of the advertisements `peers` that the connect list `list`
/// holds, in the order of `peers`.
pub open spec fn allowed_peers(
    peers: Seq<crate::messages::Signed<Connect>>,
    list: Seq<crate::node::ConnectInfo>,
) -> Seq<PublicKey> {
    peers.filter(|c: crate::messages::Signed<Connect>| has_key(list, c.author)).map_values(
        |c: crate::messages::Signed<Connect>| c.author,
    )
}

impl HandlerView {
    /// The invariant of the handler: the state and the chain meet theirs,
    /// the node works on the height after the last block, and the state names
    /// the hash of the last block.
    pub open spec fn wf(self) -> bool {
        &&& self.state.wf()
        &&& self.chain.wf()
        &&& self.state.height.0 == self.chain.blocks.len()
        &&& self.state.last_hash == self.chain.last_hash()
    }

    /// The handler after it asked the network task to send `message` to the
    /// peer with the key `key`.
    pub open spec fn send_to_peer(self, key: PublicKey, message: OutgoingView) -> HandlerView {
        HandlerView {
            network: self.network.push(NetworkRequestView::SendMessage(key, message)),
            ..self
        }
    }

    /// The handler after it asked the network task to send `message` to each
    /// of the peers `keys`, in order.
    pub open spec fn send_to_all(self, keys: Seq<PublicKey>, message: OutgoingView) -> HandlerView {
        HandlerView {
            network: self.network + keys.map_values(
                |k: PublicKey| NetworkRequestView::SendMessage(k, message),
            ),
            ..self
        }
    }

    /// The handler after it sent `message` to every connected peer that the
    /// connect list holds.
    pub open spec fn broadcast(self, message: OutgoingView) -> HandlerView {
        self.send_to_all(allowed_peers(self.state.peers, self.state.connect_list), message)
    }

    /// The handler after it sent its advertisement to the peer with the key
    /// `key`.
    pub open spec fn connect(self, key: PublicKey) -> HandlerView {
        self.send_to_peer(
            key,
            OutgoingView::Own(PayloadView::Connect(self.state.our_connect_message)),
        )
    }

    /// The handler after it asked to be woken at the time `time` for
    /// `timeout`.
    pub open spec fn add_timeout(self, timeout: NodeTimeoutView, time: Milliseconds) -> HandlerView {
        HandlerView {
            internal: self.internal.push(InternalRequestView::Timeout(time, timeout)),
            ..self
        }
    }

    /// Length of the first round.
    pub open spec fn first_round_timeout(self) -> Milliseconds {
        self.state.consensus.first_round_timeout
    }

    /// By how much each round is longer than the one before: the configured
    /// percentage of the length of the first round.
    pub open spec fn round_timeout_increase(self) -> Milliseconds {
        clamp(
            self.state.consensus.first_round_timeout * self.state.consensus.round_timeout_increase_pct
                / 100,
        )
    }

    /// When the round `round` starts: `r - 1` first rounds and
    /// `(r - 1)(r - 2) / 2` increases after the height started, where `r` is
    /// the number of the round.
    pub open spec fn round_start_time(self, round: Round) -> Milliseconds {
        let before: int = if round.0 == 0 { 0 } else { round.0 - 1 };
        let pairs: int = if before == 0 { 0 } else { before * (before - 1) / 2 };
        clamp(
            self.state.height_start_time + before * self.first_round_timeout() + pairs
                * self.round_timeout_increase(),
        )
    }

    /// Whether the pool holds so many transactions that the leader proposes
    /// early.
    pub open spec fn need_faster_propose(self) -> bool {
        self.chain.pool.len() >= self.state.consensus.propose_timeout_threshold
    }

    /// How long after the start of a round its leader proposes.
    pub open spec fn propose_timeout(self) -> Milliseconds {
        if self.need_faster_propose() {
            self.state.consensus.min_propose_timeout
        } else {
            self.state.consensus.max_propose_timeout
        }
    }

    /// The handler after it set the deadline at which the current round
    /// ends: the start of the round after it.
    pub open spec fn add_round_timeout(self) -> HandlerView {
        self.add_timeout(
            NodeTimeoutView::Round(self.state.height, self.state.round),
            self.round_start_time(next_round(self.state.round)),
        )
    }

    /// The handler after it set the deadline at which the leader of the
    /// current round proposes.
    pub open spec fn add_propose_timeout(self) -> HandlerView {
        self.add_timeout(
            NodeTimeoutView::Propose(self.state.height, self.state.round),
            clamp(self.round_start_time(self.state.round) + self.propose_timeout()),
        )
    }

    /// The handler after the pool grew: where the pool calls for an early
    /// propose and none was called for in this round, the propose deadline is
    /// set again, and no other will be in this round.
    pub open spec fn maybe_add_propose_timeout(self) -> HandlerView {
        if self.allow_expedited_propose && self.need_faster_propose() {
            HandlerView { allow_expedited_propose: false, ..self.add_propose_timeout() }
        } else {
            self
        }
    }

    /// The handler after it set, at the time `now`, the deadline of the next
    /// status broadcast.
    pub open spec fn add_status_timeout(self, now: Milliseconds) -> HandlerView {
        self.add_timeout(
            NodeTimeoutView::Status(self.state.height),
            clamp(now + self.state.consensus.status_timeout),
        )
    }

    /// The handler after it set, at the time `now`, the deadline until which
    /// it waits for an answer of `peer` to the request `data`.
    pub open spec fn add_request_timeout(
        self,
        data: RequestKey,
        peer: Option<PublicKey>,
        now: Milliseconds,
    ) -> HandlerView {
        self.add_timeout(
            NodeTimeoutView::Request(data, peer),
            clamp(now + RequestData::spec_timeout(data)),
        )
    }

    /// The handler after it set, at the time `now`, the deadline of the next
    /// peer exchange.
    pub open spec fn add_peer_exchange_timeout(self, now: Milliseconds) -> HandlerView {
        self.add_timeout(
            NodeTimeoutView::PeerExchange,
            clamp(now + self.state.consensus.peers_timeout),
        )
    }

    /// The handler after it set, at the time `now`, the deadline at which it
    /// refreshes what the API shows.
    pub open spec fn add_update_api_state_timeout(self, now: Milliseconds) -> HandlerView {
        self.add_timeout(
            NodeTimeoutView::UpdateApiState,
            clamp(now + self.api_state.state_update_timeout),
        )
    }

    /// The handler after it set, at the time `now`, the four deadlines that
    /// it always keeps: round, status, peer exchange and API state.
    pub open spec fn add_timeouts(self, now: Milliseconds) -> HandlerView {
        self.add_round_timeout().add_status_timeout(now).add_peer_exchange_timeout(
            now,
        ).add_update_api_state_timeout(now)
    }

    /// The handler after it noted, at the time `now`, that `peer` can be
    /// asked for `data`. Where nothing was asked for `data` before, the
    /// deadline of the request is set; else nothing is set and nothing is
    /// sent.
    pub open spec fn request(self, data: RequestKey, peer: PublicKey, now: Milliseconds) -> HandlerView {
        let noted = HandlerView {
            state: StateView { requests: with_request(self.state.requests, data, peer), ..self.state },
            ..self
        };
        if self.state.requests.contains_key(data) {
            noted
        } else {
            noted.add_request_timeout(data, None, now)
        }
    }
}

/// `a + b`, kept within 64 bits.
pub fn saturating_time(a: Milliseconds, b: Milliseconds) -> (t: Milliseconds)
    ensures
        t == clamp(a + b),
{
    if a > u64::MAX - b {
        u64::MAX
    } else {
        a + b
    }
}

impl NodeHandler {
    /// The invariant of the handler: the state and the chain meet theirs,
    /// the node works on the height after the last block, and the state names
    /// the hash of the last block.
    pub open spec fn wf(&self) -> bool {
        &&& self.state.wf()
        &&& self.blockchain.wf()
        &&& self@.state.height.0 == self@.chain.blocks.len()
        &&& self@.state.last_hash == self@.chain.last_hash()
    }

    /// A handler that meets its invariant has a view that meets its own.
    pub proof fn lemma_view_wf(&self)
        requires
            self.wf(),
        ensures
            self@.wf(),
    {
        crate::blockchain::lemma_chain_view(&self.blockchain);
    }

    /// What the API shows of the node.
    pub fn api_state(&self) -> (s: &SharedNodeState)
        ensures
            *s == self@.api_state,
    {
        &self.api_state
    }

    /// State of the node.
    pub fn state(&self) -> (s: &State)
        ensures
            s@ == self@.state,
            *s == self.state,
    {
        &self.state
    }

    /// Length of the first round.
    pub fn first_round_timeout(&self) -> (t: Milliseconds)
        ensures
            t == self@.first_round_timeout(),
    {
        self.state().consensus_config().first_round_timeout
    }

    /// By how much each round is longer than the one before.
    pub fn round_timeout_increase(&self) -> (t: Milliseconds)
        ensures
            t == self@.round_timeout_increase(),
    {
        let config = self.state().consensus_config();
        let first: u128 = config.first_round_timeout as u128;
        let pct: u128 = config.round_timeout_increase_pct as u128;
        assert(first * pct <= 0xFFFF_FFFF_FFFF_FFFF * 0xFFFF_FFFF_FFFF_FFFF) by (nonlinear_arith)
            requires
                0 <= first <= 0xFFFF_FFFF_FFFF_FFFF,
                0 <= pct <= 0xFFFF_FFFF_FFFF_FFFF,
        ;
        let product: u128 = first * pct / 100;
        if product > u64::MAX as u128 {
            u64::MAX
        } else {
            product as u64
        }
    }

    /// Period of the status broadcast.
    pub fn status_timeout(&self) -> (t: Milliseconds)
        ensures
            t == self@.state.consensus.status_timeout,
    {
        self.state().consensus_config().status_timeout
    }

    /// Period of the peer exchange.
    pub fn peers_timeout(&self) -> (t: Milliseconds)
        ensures
            t == self@.state.consensus.peers_timeout,
    {
        self.state().consensus_config().peers_timeout
    }

    /// Largest number of transactions in a block.
    pub fn txs_block_limit(&self) -> (n: u32)
        ensures
            n == self@.state.consensus.txs_block_limit,
    {
        self.state().consensus_config().txs_block_limit
    }

    /// Propose timeout while the pool is full enough.
    pub fn min_propose_timeout(&self) -> (t: Milliseconds)
        ensures
            t == self@.state.consensus.min_propose_timeout,
    {
        self.state().consensus_config().min_propose_timeout
    }

    /// Propose timeout while the pool is not full enough.
    pub fn max_propose_timeout(&self) -> (t: Milliseconds)
        ensures
            t == self@.state.consensus.max_propose_timeout,
    {
        self.state().consensus_config().max_propose_timeout
    }

    /// Pool size from which the shorter propose timeout is used.
    pub fn propose_timeout_threshold(&self) -> (n: u32)
        ensures
            n == self@.state.consensus.propose_timeout_threshold,
    {
        self.state().consensus_config().propose_timeout_threshold
    }

    /// Hash of the last block.
    pub fn last_block_hash(&self) -> (h: crypto::Hash)
        requires
            self.wf(),
        ensures
            h == self@.chain.last_hash(),
    {
        self.blockchain.last_hash()
    }

    /// When the round `round` starts.
    pub fn round_start_time(&self, round: Round) -> (t: Milliseconds)
        ensures
            t == self@.round_start_time(round),
    {
        let before: u128 = round.previous().0 as u128;
        let first: u128 = self.first_round_timeout() as u128;
        let increase: u128 = self.round_timeout_increase() as u128;
        let start: u128 = self.state.height_start_time() as u128;
        assert(before == 0 || before * (before - 1) <= 0xFFFF_FFFF * 0xFFFF_FFFF) by (nonlinear_arith)
            requires
                0 <= before <= 0xFFFF_FFFF,
        ;
        let pairs: u128 = if before == 0 { 0 } else { before * (before - 1) / 2 };
        assert(before * first <= 0xFFFF_FFFF * 0xFFFF_FFFF_FFFF_FFFF) by (nonlinear_arith)
            requires
                0 <= before <= 0xFFFF_FFFF,
                0 <= first <= 0xFFFF_FFFF_FFFF_FFFF,
        ;
        assert(pairs * increase <= 0x7FFF_FFFF_FFFF_FFFF * 0xFFFF_FFFF_FFFF_FFFF) by (nonlinear_arith)
            requires
                0 <= pairs <= 0x7FFF_FFFF_FFFF_FFFF,
                0 <= increase <= 0xFFFF_FFFF_FFFF_FFFF,
        ;
        let ms: u128 = start + before * first + pairs * increase;
        if ms > u64::MAX as u128 {
            u64::MAX
        } else {
            ms as u64
        }
    }

    /// Asks the network task to send `message` to the peer with the key
    /// `public_key`.
    pub fn send_to_peer(&mut self, public_key: PublicKey, message: Outgoing)
        requires
            old(self).wf(),
        ensures
            final(self).wf(),
            final(self)@ == old(self)@.send_to_peer(public_key, message@),
            final(self).kept(old(self)),
    {
        let ghost before = self@.network;
        let ghost view = message@;
        let request = NetworkRequest::SendMessage(public_key, message);
        self.channel.network_requests.push(request);
        proof {
            assert(self@.network =~= before.push(NetworkRequestView::SendMessage(public_key, view)));
        }
    }

    /// What no event changes: the machine, the services, the peers known at
    /// the start, the configuration file and the requests of the API.
    pub open spec fn kept(&self, before: &NodeHandler) -> bool {
        &&& self.system_state == before.system_state
        &&& self.blockchain.services == before.blockchain.services
        &&& self.peer_discovery == before.peer_discovery
        &&& self.config_manager == before.config_manager
        &&& self.channel.api_requests == before.channel.api_requests
    }

    /// Sends `message` to every connected peer that the connect list holds,
    /// in the order in which the peers connected.
    pub fn broadcast(&mut self, message: Outgoing)
        requires
            old(self).wf(),
        ensures
            final(self).wf(),
            final(self)@ == old(self)@.broadcast(message@),
            final(self).kept(old(self)),
    {
        let ghost start = self@;
        let ghost peers = self.state@.peers;
        let ghost list = self.state@.connect_list;
        let ghost allowed = |c: crate::messages::Signed<Connect>| has_key(list, c.author);
        let ghost author = |c: crate::messages::Signed<Connect>| c.author;
        let ghost sent = |k: PublicKey| NetworkRequestView::SendMessage(k, message@);
        let mut i: usize = 0;
        proof {
            reveal(Seq::filter);
            assert(peers.subrange(0, 0) =~= Seq::empty());
            assert(self@.network =~= start.network + peers.subrange(0, 0).filter(
                allowed,
            ).map_values(author).map_values(sent));
        }
        while i < self.state.peers.len()
            invariant
                i <= self.state.peers.len(),
                self.wf(),
                self.kept(old(self)),
                peers == self.state@.peers,
                list == self.state@.connect_list,
                allowed == (|c: crate::messages::Signed<Connect>| has_key(list, c.author)),
                author == (|c: crate::messages::Signed<Connect>| c.author),
                sent == (|k: PublicKey| NetworkRequestView::SendMessage(k, message@)),
                self@ == (HandlerView {
                    network: start.network + peers.subrange(0, i as int).filter(allowed).map_values(
                        author,
                    ).map_values(sent),
                    ..start
                }),
            decreases self.state.peers.len() - i,
        {
            let key = self.state.peers[i].author;
            proof {
                let done = peers.subrange(0, i as int);
                let next = peers.subrange(0, i + 1);
                assert(next.drop_last() =~= done);
                assert(next.last() == peers[i as int]);
                reveal(Seq::filter);
                if allowed(peers[i as int]) {
                    assert(next.filter(allowed) =~= done.filter(allowed).push(peers[i as int]));
                    assert(next.filter(allowed).map_values(author).map_values(sent) =~= done.filter(
                        allowed,
                    ).map_values(author).map_values(sent).push(sent(key)));
                } else {
                    assert(next.filter(allowed) =~= done.filter(allowed));
                }
            }
            if self.state.connect_list.is_peer_allowed(&key) {
                let ghost before = self@.network;
                self.send_to_peer(key, message.clone());
                proof {
                    assert(self@.network =~= start.network + peers.subrange(0, i + 1).filter(
                        allowed,
                    ).map_values(author).map_values(sent));
                }
            }
            i = i + 1;
        }
        proof {
            assert(peers.subrange(0, i as int) =~= peers);
            assert(allowed_peers(peers, list).map_values(sent) =~= peers.filter(
                allowed,
            ).map_values(author).map_values(sent));
        }
    }

    /// Sends the node's advertisement to the peer with the key `key`.
    pub fn connect(&mut self, key: PublicKey)
        requires
            old(self).wf(),
        ensures
            final(self).wf(),
            final(self)@ == old(self)@.connect(key),
            final(self).kept(old(self)),
    {
        let connect = self.state.our_connect_message().clone();
        self.send_to_peer(key, Outgoing::Own(Payload::Connect(connect)));
    }

    /// Asks to be woken at the time `time` for `timeout`.
    pub fn add_timeout(&mut self, timeout: NodeTimeout, time: Milliseconds)
        requires
            old(self).wf(),
        ensures
            final(self).wf(),
            final(self)@ == old(self)@.add_timeout(timeout@, time),
            final(self).kept(old(self)),
    {
        let ghost before = self@.internal;
        let ghost view = timeout@;
        let request = TimeoutRequest(time, timeout);
        self.channel.internal_requests.push(InternalRequest::Timeout(request));
        proof {
            assert(self@.internal =~= before.push(InternalRequestView::Timeout(time, view)));
        }
    }

    /// Whether the pool holds so many transactions that the leader proposes
    /// early.
    pub fn need_faster_propose(&self) -> (b: bool)
        ensures
            b == self@.need_faster_propose(),
    {
        let pending_tx_count = self.blockchain.transactions_pool_len();
        pending_tx_count >= self.propose_timeout_threshold() as u64
    }

    /// Sets the deadline at which the current round ends.
    pub fn add_round_timeout(&mut self)
        requires
            old(self).wf(),
        ensures
            final(self).wf(),
            final(self)@ == old(self)@.add_round_timeout(),
            final(self).kept(old(self)),
    {
        let round = self.state.round();
        let next = if round.0 < u32::MAX { round.next() } else { round };
        let time = self.round_start_time(next);
        let timeout = NodeTimeout::Round(self.state.height(), round);
        self.add_timeout(timeout, time);
    }

    /// Sets the deadline at which the leader of the current round proposes:
    /// the shorter propose timeout after the start of the round where the
    /// pool is full enough, the longer one else.
    pub fn add_propose_timeout(&mut self)
        requires
            old(self).wf(),
        ensures
            final(self).wf(),
            final(self)@ == old(self)@.add_propose_timeout(),
            final(self).kept(old(self)),
    {
        let timeout = if self.need_faster_propose() {
            self.min_propose_timeout()
        } else {
            self.max_propose_timeout()
        };
        let time = saturating_time(self.round_start_time(self.state.round()), timeout);
        let timeout = NodeTimeout::Propose(self.state.height(), self.state.round());
        self.add_timeout(timeout, time);
    }

    /// Brings the propose of this round forward where the pool calls for it,
    /// once in a round.
    pub fn maybe_add_propose_timeout(&mut self)
        requires
            old(self).wf(),
        ensures
            final(self).wf(),
            final(self)@ == old(self)@.maybe_add_propose_timeout(),
            final(self).kept(old(self)),
    {
        if self.allow_expedited_propose && self.need_faster_propose() {
            self.add_propose_timeout();
            self.allow_expedited_propose = false;
        }
    }

    /// Sets, at the time `now`, the deadline of the next status broadcast.
    pub fn add_status_timeout_at(&mut self, now: Milliseconds)
        requires
            old(self).wf(),
        ensures
            final(self).wf(),
            final(self)@ == old(self)@.add_status_timeout(now),
            final(self).kept(old(self)),
    {
        let time = saturating_time(now, self.status_timeout());
        let height = self.state.height();
        self.add_timeout(NodeTimeout::Status(height), time);
    }

    /// Sets the deadline of the next status broadcast, counted from the
    /// time that the machine gives.
    pub fn add_status_timeout(&mut self)
        requires
            old(self).wf(),
        ensures
            final(self).wf(),
            exists|now: Milliseconds| final(self)@ == old(self)@.add_status_timeout(now),
            final(self).kept(old(self)),
    {
        let now = self.system_state.current_time();
        self.add_status_timeout_at(now);
    }

    /// Sets, at the time `now`, the deadline until which the node waits for
    /// an answer of `peer` to the request `data`.
    pub fn add_request_timeout_at(
        &mut self,
        data: RequestData,
        peer: Option<PublicKey>,
        now: Milliseconds,
    )
        requires
            old(self).wf(),
        ensures
            final(self).wf(),
            final(self)@ == old(self)@.add_request_timeout(data@, peer, now),
            final(self).kept(old(self)),
    {
        let time = saturating_time(now, data.timeout());
        self.add_timeout(NodeTimeout::Request(data, peer), time);
    }

    /// Sets the deadline until which the node waits for an answer of `peer`
    /// to the request `data`, counted from the time that the machine gives.
    pub fn add_request_timeout(&mut self, data: RequestData, peer: Option<PublicKey>)
        requires
            old(self).wf(),
        ensures
            final(self).wf(),
            exists|now: Milliseconds|
                final(self)@ == old(self)@.add_request_timeout(data@, peer, now),
            final(self).kept(old(self)),
    {
        let now = self.system_state.current_time();
        self.add_request_timeout_at(data, peer, now);
    }

    /// Sets, at the time `now`, the deadline of the next peer exchange.
    pub fn add_peer_exchange_timeout_at(&mut self, now: Milliseconds)
        requires
            old(self).wf(),
        ensures
            final(self).wf(),
            final(self)@ == old(self)@.add_peer_exchange_timeout(now),
            final(self).kept(old(self)),
    {
        let time = saturating_time(now, self.peers_timeout());
        self.add_timeout(NodeTimeout::PeerExchange, time);
    }

    /// Sets the deadline of the next peer exchange, counted from the time
    /// that the machine gives.
    pub fn add_peer_exchange_timeout(&mut self)
        requires
            old(self).wf(),
        ensures
            final(self).wf(),
            exists|now: Milliseconds| final(self)@ == old(self)@.add_peer_exchange_timeout(now),
            final(self).kept(old(self)),
    {
        let now = self.system_state.current_time();
        self.add_peer_exchange_timeout_at(now);
    }

    /// Sets, at the time `now`, the deadline at which the node refreshes
    /// what the API shows.
    pub fn add_update_api_state_timeout_at(&mut self, now: Milliseconds)
        requires
            old(self).wf(),
        ensures
            final(self).wf(),
            final(self)@ == old(self)@.add_update_api_state_timeout(now),
            final(self).kept(old(self)),
    {
        let time = saturating_time(now, self.api_state().state_update_timeout());
        self.add_timeout(NodeTimeout::UpdateApiState, time);
    }

    /// Sets the deadline at which the node refreshes what the API shows,
    /// counted from the time that the machine gives.
    pub fn add_update_api_state_timeout(&mut self)
        requires
            old(self).wf(),
        ensures
            final(self).wf(),
            exists|now: Milliseconds| final(self)@ == old(self)@.add_update_api_state_timeout(now),
            final(self).kept(old(self)),
    {
        let now = self.system_state.current_time();
        self.add_update_api_state_timeout_at(now);
    }

    /// Sets, at the time `now`, the four deadlines that the node always
    /// keeps.
    pub fn add_timeouts(&mut self, now: Milliseconds)
        requires
            old(self).wf(),
        ensures
            final(self).wf(),
            final(self)@ == old(self)@.add_timeouts(now),
            final(self).kept(old(self)),
    {
        self.add_round_timeout();
        self.add_status_timeout_at(now);
        self.add_peer_exchange_timeout_at(now);
        self.add_update_api_state_timeout_at(now);
    }

    /// Notes, at the time `now`, that `peer` can be asked for `data`, and
    /// sets the deadline of the request where nothing was asked for `data`
    /// before.
    pub fn request_at(&mut self, data: RequestData, peer: PublicKey, now: Milliseconds)
        requires
            old(self).wf(),
        ensures
            final(self).wf(),
            final(self)@ == old(self)@.request(data@, peer, now),
            final(self).kept(old(self)),
    {
        let is_new = self.state.request(data.clone(), peer);
        if is_new {
            self.add_request_timeout_at(data, None, now);
        }
    }

    /// Notes that `peer` can be asked for `data`, and sets the deadline of
    /// the request, counted from the time that the machine gives, where
    /// nothing was asked for `data` before.
    pub fn request(&mut self, data: RequestData, peer: PublicKey)
        requires
            old(self).wf(),
        ensures
            final(self).wf(),
            exists|now: Milliseconds| final(self)@ == old(self)@.request(data@, peer, now),
            final(self).kept(old(self)),
    {
        let now = self.system_state.current_time();
        self.request_at(data, peer, now);
    }
}

} // verus!
