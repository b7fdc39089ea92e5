//! What reaches the node and what leaves it: events, timeouts, and the
//! requests that the node hands to its surroundings to carry out.

use vstd::prelude::*;
use crate::blockchain::ExecutedBlock;
use crate::crypto::{self, PublicKey};
use crate::helpers::{Height, Milliseconds, Round, ValidatorId};
use crate::messages::{clone_message, Connect, Message, Payload, PayloadView, RawTransaction, Signed, SignedView, TxView};
use crate::node::requests::{RequestData, RequestKey};
use crate::node::ConnectInfo;

verus! {

/// What the API asks of the node.
#[derive(Debug)]
pub enum ExternalMessage {
    /// Accept a peer and connect to it.
    PeerAdd(ConnectInfo),
    /// Take a transaction.
    Transaction(Signed<RawTransaction>),
    /// Take part in consensus, or stop taking part.
    Enable(bool),
    /// Shut down.
    Shutdown,
    /// Send the transactions of the pool to the peers again.
    Rebroadcast,
}

/// A request of the API, as a mathematical value.
pub enum ExternalMessageView {
    /// Accept a peer and connect to it.
    PeerAdd(ConnectInfo),
    /// Take a transaction.
    Transaction(SignedView<TxView>),
    /// Take part in consensus, or stop taking part.
    Enable(bool),
    /// Shut down.
    Shutdown,
    /// Send the transactions of the pool to the peers again.
    Rebroadcast,
}

impl View for ExternalMessage {
    type V = ExternalMessageView;

    open spec fn view(&self) -> ExternalMessageView {
        match *self {
            ExternalMessage::PeerAdd(info) => ExternalMessageView::PeerAdd(info),
            ExternalMessage::Transaction(tx) => ExternalMessageView::Transaction(tx@),
            ExternalMessage::Enable(on) => ExternalMessageView::Enable(on),
            ExternalMessage::Shutdown => ExternalMessageView::Shutdown,
            ExternalMessage::Rebroadcast => ExternalMessageView::Rebroadcast,
        }
    }
}

/// The deadlines that pace the node.
#[derive(Debug)]
pub enum NodeTimeout {
    /// Time to broadcast the status, set at the given height.
    Status(Height),
    /// End of a round.
    Round(Height, Round),
    /// End of the wait for an answer of the given peer to a request; no peer
    /// where none was asked yet.
    Request(RequestData, Option<PublicKey>),
    /// Time to propose in a round.
    Propose(Height, Round),
    /// Time to refresh the state shown by the API.
    UpdateApiState,
    /// Time to ask a peer for its peers.
    PeerExchange,
}

/// A deadline, as a mathematical value.
pub enum NodeTimeoutView {
    /// Time to broadcast the status, set at the given height.
    Status(Height),
    /// End of a round.
    Round(Height, Round),
    /// End of the wait for an answer to a request.
    Request(RequestKey, Option<PublicKey>),
    /// Time to propose in a round.
    Propose(Height, Round),
    /// Time to refresh the state shown by the API.
    UpdateApiState,
    /// Time to ask a peer for its peers.
    PeerExchange,
}

impl View for NodeTimeout {
    type V = NodeTimeoutView;

    open spec fn view(&self) -> NodeTimeoutView {
        match *self {
            NodeTimeout::Status(h) => NodeTimeoutView::Status(h),
            NodeTimeout::Round(h, r) => NodeTimeoutView::Round(h, r),
            NodeTimeout::Request(data, peer) => NodeTimeoutView::Request(data@, peer),
            NodeTimeout::Propose(h, r) => NodeTimeoutView::Propose(h, r),
            NodeTimeout::UpdateApiState => NodeTimeoutView::UpdateApiState,
            NodeTimeout::PeerExchange => NodeTimeoutView::PeerExchange,
        }
    }
}

/// A deadline with its time, in milliseconds since the Unix epoch.
#[derive(Debug)]
pub struct TimeoutRequest(pub Milliseconds, pub NodeTimeout);

/// A request to execute the transactions of a propose, in their order, on
/// the state that the last block left.
#[derive(Debug)]
pub struct ExecuteRequest {
    /// Hash of the propose.
    pub propose_hash: crypto::Hash,
    /// Height of the block.
    pub height: Height,
    /// Index of the proposer.
    pub proposer: ValidatorId,
    /// Hashes of the transactions, in block order.
    pub transactions: Vec<crypto::Hash>,
}

/// A request to execute a propose, as a mathematical value.
pub struct ExecuteRequestView {
    /// Hash of the propose.
    pub propose_hash: crypto::Hash,
    /// Height of the block.
    pub height: Height,
    /// Index of the proposer.
    pub proposer: ValidatorId,
    /// Hashes of the transactions, in block order.
    pub transactions: Seq<crypto::Hash>,
}

impl View for ExecuteRequest {
    type V = ExecuteRequestView;

    open spec fn view(&self) -> ExecuteRequestView {
        ExecuteRequestView {
            propose_hash: self.propose_hash,
            height: self.height,
            proposer: self.proposer,
            transactions: self.transactions@,
        }
    }
}

/// What the node asks of the tasks beside it.
#[derive(Debug)]
pub enum InternalRequest {
    /// Wake the node at a deadline.
    Timeout(TimeoutRequest),
    /// Hand the node the order to go to a round.
    JumpToRound(Height, Round),
    /// Stop.
    Shutdown,
    /// Sign a message of the node itself with its consensus key and hand it
    /// to the node as a message received.
    Deliver(Payload),
    /// Execute a propose and hand the node the outcome.
    ExecuteBlock(ExecuteRequest),
}

/// A request to the tasks beside the node, as a mathematical value.
pub enum InternalRequestView {
    /// Wake the node at a deadline.
    Timeout(Milliseconds, NodeTimeoutView),
    /// Hand the node the order to go to a round.
    JumpToRound(Height, Round),
    /// Stop.
    Shutdown,
    /// Sign a message of the node itself and hand it back.
    Deliver(PayloadView),
    /// Execute a propose and hand the node the outcome.
    ExecuteBlock(ExecuteRequestView),
}

impl View for InternalRequest {
    type V = InternalRequestView;

    open spec fn view(&self) -> InternalRequestView {
        match *self {
            InternalRequest::Timeout(t) => InternalRequestView::Timeout(t.0, t.1@),
            InternalRequest::JumpToRound(h, r) => InternalRequestView::JumpToRound(h, r),
            InternalRequest::Shutdown => InternalRequestView::Shutdown,
            InternalRequest::Deliver(p) => InternalRequestView::Deliver(p@),
            InternalRequest::ExecuteBlock(e) => InternalRequestView::ExecuteBlock(e@),
        }
    }
}

/// A message on its way out: one of the node's own, which is signed with the
/// node's consensus key before it is sent, or one that the node received and
/// passes on as it is.
#[derive(Debug)]
pub enum Outgoing {
    /// A message of the node itself, not signed yet.
    Own(Payload),
    /// A message that the node received.
    Relayed(Message),
}

/// A message on its way out, as a mathematical value.
pub enum OutgoingView {
    /// A message of the node itself, not signed yet.
    Own(PayloadView),
    /// A message that the node received.
    Relayed(SignedView<PayloadView>),
}

impl View for Outgoing {
    type V = OutgoingView;

    open spec fn view(&self) -> OutgoingView {
        match *self {
            Outgoing::Own(p) => OutgoingView::Own(p@),
            Outgoing::Relayed(m) => OutgoingView::Relayed(m@),
        }
    }
}

impl Clone for Outgoing {
    fn clone(&self) -> (r: Self)
        ensures
            r@ == self@,
    {
        match self {
            Outgoing::Own(p) => Outgoing::Own(p.clone()),
            Outgoing::Relayed(m) => Outgoing::Relayed(clone_message(m)),
        }
    }
}

/// What the node asks of the network task.
#[derive(Debug)]
pub enum NetworkRequest {
    /// Send a message to the peer with the given key.
    SendMessage(PublicKey, Outgoing),
    /// Close the connection with the peer with the given key.
    DisconnectWithPeer(PublicKey),
    /// Stop.
    Shutdown,
}

/// A request to the network task, as a mathematical value.
pub enum NetworkRequestView {
    /// Send a message to the peer with the given key.
    SendMessage(PublicKey, OutgoingView),
    /// Close the connection with the peer with the given key.
    DisconnectWithPeer(PublicKey),
    /// Stop.
    Shutdown,
}

impl View for NetworkRequest {
    type V = NetworkRequestView;

    open spec fn view(&self) -> NetworkRequestView {
        match *self {
            NetworkRequest::SendMessage(k, m) => NetworkRequestView::SendMessage(k, m@),
            NetworkRequest::DisconnectWithPeer(k) => NetworkRequestView::DisconnectWithPeer(k),
            NetworkRequest::Shutdown => NetworkRequestView::Shutdown,
        }
    }
}

/// What the network task tells the node.
#[derive(Debug)]
pub enum NetworkEvent {
    /// A message came, and its signature was found good.
    MessageReceived(Message),
    /// A peer connected and sent this advertisement.
    PeerConnected(Signed<Connect>),
    /// The peer with the given key went away.
    PeerDisconnected(PublicKey),
    /// The peer with the given key could not be reached.
    UnableConnectToPeer(PublicKey),
}

/// What the tasks beside the node tell it.
#[derive(Debug)]
pub enum InternalEvent {
    /// Go to a round.
    JumpToRound(Height, Round),
    /// A deadline came.
    Timeout(NodeTimeout),
    /// Stop.
    Shutdown,
    /// Executing the propose with the given hash gave this block.
    BlockExecuted(crypto::Hash, ExecutedBlock),
}

/// News of the network task, as a mathematical value.
pub enum NetworkEventView {
    /// A message came, and its signature was found good.
    MessageReceived(SignedView<PayloadView>),
    /// A peer connected and sent this advertisement.
    PeerConnected(Signed<Connect>),
    /// The peer with the given key went away.
    PeerDisconnected(PublicKey),
    /// The peer with the given key could not be reached.
    UnableConnectToPeer(PublicKey),
}

impl View for NetworkEvent {
    type V = NetworkEventView;

    open spec fn view(&self) -> NetworkEventView {
        match *self {
            NetworkEvent::MessageReceived(m) => NetworkEventView::MessageReceived(m@),
            NetworkEvent::PeerConnected(c) => NetworkEventView::PeerConnected(c),
            NetworkEvent::PeerDisconnected(k) => NetworkEventView::PeerDisconnected(k),
            NetworkEvent::UnableConnectToPeer(k) => NetworkEventView::UnableConnectToPeer(k),
        }
    }
}

/// News of the tasks beside the node, as a mathematical value.
pub enum InternalEventView {
    /// Go to a round.
    JumpToRound(Height, Round),
    /// A deadline came.
    Timeout(NodeTimeoutView),
    /// Stop.
    Shutdown,
    /// Executing the propose with the given hash gave this block.
    BlockExecuted(crypto::Hash, ExecutedBlock),
}

impl View for InternalEvent {
    type V = InternalEventView;

    open spec fn view(&self) -> InternalEventView {
        match *self {
            InternalEvent::JumpToRound(h, r) => InternalEventView::JumpToRound(h, r),
            InternalEvent::Timeout(t) => InternalEventView::Timeout(t@),
            InternalEvent::Shutdown => InternalEventView::Shutdown,
            InternalEvent::BlockExecuted(h, b) => InternalEventView::BlockExecuted(h, b),
        }
    }
}

/// Anything that the node handles, as a mathematical value.
pub enum EventView {
    /// From the network task.
    Network(NetworkEventView),
    /// From the API.
    Transaction(ExternalMessageView),
    /// From the tasks beside the node.
    Internal(InternalEventView),
}

impl View for Event {
    type V = EventView;

    open spec fn view(&self) -> EventView {
        match *self {
            Event::Network(e) => EventView::Network(e@),
            Event::Transaction(e) => EventView::Transaction(e@),
            Event::Internal(e) => EventView::Internal(e@),
        }
    }
}

/// Anything that the node handles.
#[derive(Debug)]
pub enum Event {
    /// From the network task.
    Network(NetworkEvent),
    /// From the API.
    Transaction(ExternalMessage),
    /// From the tasks beside the node.
    Internal(InternalEvent),
}

impl From<ExternalMessage> for Event {
    fn from(message: ExternalMessage) -> (e: Self) {
        Event::Transaction(message)
    }
}

impl vstd::std_specs::convert::FromSpecImpl<ExternalMessage> for Event {
    open spec fn obeys_from_spec() -> bool {
        true
    }

    open spec fn from_spec(message: ExternalMessage) -> Event {
        Event::Transaction(message)
    }
}

/// The views of `requests`, in order.
pub open spec fn internal_view(requests: Seq<InternalRequest>) -> Seq<InternalRequestView> {
    requests.map_values(|r: InternalRequest| r@)
}

/// The views of `requests`, in order.
pub open spec fn network_view(requests: Seq<NetworkRequest>) -> Seq<NetworkRequestView> {
    requests.map_values(|r: NetworkRequest| r@)
}

/// What the node has asked of the tasks beside it and of the API, in the
/// order in which it asked. Whoever runs the node takes the requests out
/// and carries them out.
#[derive(Debug)]
pub struct NodeSender {
    /// Requests to the tasks beside the node.
    pub internal_requests: Vec<InternalRequest>,
    /// Requests to the network task.
    pub network_requests: Vec<NetworkRequest>,
    /// Requests to the node itself, as the API would make them.
    pub api_requests: Vec<ExternalMessage>,
}

impl NodeSender {
    /// A sender through which nothing was asked.
    pub fn new() -> (s: Self)
        ensures
            s.internal_requests@.len() == 0,
            s.network_requests@.len() == 0,
            s.api_requests@.len() == 0,
    {
        NodeSender {
            internal_requests: Vec::new(),
            network_requests: Vec::new(),
            api_requests: Vec::new(),
        }
    }
}

/// Why a message could not be handed over.
#[derive(Clone, Copy, Debug, PartialEq, Eq, Structural)]
pub enum SendError {
    /// The receiver is gone.
    Closed,
}

/// The views of `messages`, in order.
pub open spec fn external_view(messages: Seq<ExternalMessage>) -> Seq<ExternalMessageView> {
    messages.map_values(|m: ExternalMessage| m@)
}

/// The way from the API to the node: a queue that keeps the order of what is
/// put in, until the node stops taking requests.
#[derive(Debug)]
pub struct ApiSender {
    /// What was sent and not taken out yet, oldest first.
    pub queue: Vec<ExternalMessage>,
    /// Whether the node has stopped taking requests.
    pub closed: bool,
}

impl ApiSender {
    /// An open queue with nothing in it.
    pub fn new() -> (s: Self)
        ensures
            s.queue@.len() == 0,
            !s.closed,
    {
        ApiSender { queue: Vec::new(), closed: false }
    }

    /// Asks the node to accept the peer `addr`.
    pub fn peer_add(&mut self, addr: ConnectInfo) -> (r: Result<(), SendError>)
        ensures
            final(self).closed == old(self).closed,
            r == if old(self).closed {
                Err::<(), SendError>(SendError::Closed)
            } else {
                Ok::<(), SendError>(())
            },
            external_view(final(self).queue@) == if old(self).closed {
                external_view(old(self).queue@)
            } else {
                external_view(old(self).queue@).push(ExternalMessageView::PeerAdd(addr))
            },
    {
        let msg = ExternalMessage::PeerAdd(addr);
        self.send_external_message(msg)
    }

    /// Hands `message` to the node. Fails, and leaves the queue as it is,
    /// where the node has stopped taking requests.
    pub fn send_external_message(&mut self, message: ExternalMessage) -> (r: Result<(), SendError>)
        ensures
            final(self).closed == old(self).closed,
            r == if old(self).closed {
                Err::<(), SendError>(SendError::Closed)
            } else {
                Ok::<(), SendError>(())
            },
            external_view(final(self).queue@) == if old(self).closed {
                external_view(old(self).queue@)
            } else {
                external_view(old(self).queue@).push(message@)
            },
    {
        if self.closed {
            return Err(SendError::Closed);
        }
        let ghost before = external_view(self.queue@);
        self.queue.push(message);
        proof {
            assert(external_view(self.queue@) =~= before.push(message@));
        }
        Ok(())
    }

    /// Hands the transaction `tx` to the node.
    pub fn broadcast_transaction(&mut self, tx: Signed<RawTransaction>) -> (r: Result<(), SendError>)
        ensures
            final(self).closed == old(self).closed,
            r == if old(self).closed {
                Err::<(), SendError>(SendError::Closed)
            } else {
                Ok::<(), SendError>(())
            },
            external_view(final(self).queue@) == if old(self).closed {
                external_view(old(self).queue@)
            } else {
                external_view(old(self).queue@).push(ExternalMessageView::Transaction(tx@))
            },
    {
        let msg = ExternalMessage::Transaction(tx);
        self.send_external_message(msg)
    }

    /// Takes the oldest message out of the queue.
    pub fn receive(&mut self) -> (r: Option<ExternalMessage>)
        ensures
            final(self).closed == old(self).closed,
            match r {
                Some(m) => old(self).queue@.len() > 0 && m == old(self).queue@[0] && final(self).queue@ == old(self).queue@.drop_first(),
                None => old(self).queue@.len() == 0 && final(self).queue@ == old(self).queue@,
            },
    {
        if self.queue.len() == 0 {
            None
        } else {
            let m = self.queue.remove(0);
            proof {
                assert(self.queue@ =~= old(self).queue@.drop_first());
            }
            Some(m)
        }
    }

    /// Stops taking requests.
    pub fn close(&mut self)
        ensures
            final(self).closed,
            final(self).queue == old(self).queue,
    {
        self.closed = true;
    }
}

} // verus!
