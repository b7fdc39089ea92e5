use exonum_node::blockchain::{
    Block, Blockchain, CachedMessage, ConsensusConfig, ExecutedBlock, Service, StoredBlock,
    StoredConfiguration, ValidatorKeys,
};
use exonum_node::crypto::{self, PublicKey, SecretKey, Signature};
use exonum_node::helpers::{Height, Round, ValidatorId};
use exonum_node::messages::{
    BlockRequest, BlockResponse, Payload, PeersRequest, Precommit, Prevote, Propose, ProposeRequest,
    PrevotesRequest, RawTransaction, Signed, Status, TransactionsRequest,
};
use exonum_node::node::events::{
    Event, InternalEvent, InternalRequest, NetworkEvent, NetworkRequest, Outgoing,
};
use exonum_node::node::handler::SharedNodeState;
use exonum_node::node::{
    Configuration, ConnectInfo, ConnectList, ExternalMessage, ListenerConfig, MemoryPoolConfig,
    NetworkConfiguration, NodeHandler, NodeRole, NodeSender, NodeTimeout, RequestData,
    ServiceConfig, SystemStateProvider,
};
use std::cell::Cell;
use std::rc::Rc;

const SERVICE_ID: u16 = 0;

struct TestService;

impl Service for TestService {
    fn service_id(&self) -> u16 {
        SERVICE_ID
    }

    fn service_name(&self) -> String {
        "test service".to_owned()
    }

    fn accepts(&self, _: &RawTransaction) -> bool {
        true
    }
}

struct Clock(Rc<Cell<u64>>);

impl SystemStateProvider for Clock {
    fn listen_address(&self) -> String {
        "127.0.0.1:16500".to_owned()
    }

    fn current_time(&self) -> u64 {
        self.0.get()
    }
}

fn key(n: u64) -> PublicKey {
    PublicKey(0, 0, 0, n)
}

fn hash(n: u64) -> crypto::Hash {
    crypto::Hash(0, 0, 0, n)
}

fn secret() -> SecretKey {
    SecretKey(0, 0, 0, 0, 0, 0, 0, 0)
}

fn signature() -> Signature {
    Signature(0, 0, 0, 0, 0, 0, 0, 0)
}

fn genesis() -> StoredBlock {
    StoredBlock {
        hash: hash(1000),
        header: Block {
            proposer_id: ValidatorId(0),
            height: Height(0),
            tx_count: 0,
            prev_hash: crypto::Hash::zero(),
            tx_hash: crypto::Hash::zero(),
            state_hash: crypto::Hash::zero(),
        },
        precommits: vec![],
        transactions: vec![],
    }
}

fn consensus() -> ConsensusConfig {
    ConsensusConfig {
        first_round_timeout: 3000,
        round_timeout_increase_pct: 10,
        status_timeout: 5000,
        peers_timeout: 10000,
        txs_block_limit: 100,
        max_message_len: 1 << 20,
        min_propose_timeout: 10,
        max_propose_timeout: 200,
        propose_timeout_threshold: 500,
    }
}

/// A handler of the validator `own` (or of an auditor where `own` is
/// `validators`) in a network of `validators` validators with keys 1, 2, ...
fn node(validators: u64, own: u64, services: Vec<Box<dyn Service>>) -> (NodeHandler, Rc<Cell<u64>>) {
    let keys: Vec<ValidatorKeys> = (0..validators)
        .map(|i| ValidatorKeys { consensus_key: key(i + 1), service_key: key(100 + i) })
        .collect();
    let stored =
        StoredConfiguration { actual_from: Height(0), validator_keys: keys, consensus: consensus() };
    let chain = Blockchain::new(services, stored, genesis());
    let mut list = ConnectList::new();
    for i in 0..validators {
        if i != own {
            list.add(ConnectInfo { address: format!("127.0.0.1:{}", 16500 + i), public_key: key(i + 1) });
        }
    }
    let config = Configuration {
        listener: ListenerConfig {
            consensus_public_key: key(own + 1),
            consensus_secret_key: secret(),
            connect_list: list,
            address: "127.0.0.1:16500".to_owned(),
        },
        service: ServiceConfig { service_public_key: key(100 + own), service_secret_key: secret() },
        network: NetworkConfiguration::default(),
        peer_discovery: vec![],
        mempool: MemoryPoolConfig::default(),
    };
    let time = Rc::new(Cell::new(1_000_000));
    let handler = NodeHandler::new(
        chain,
        "127.0.0.1:16500",
        NodeSender::new(),
        Box::new(Clock(time.clone())),
        config,
        SharedNodeState::new(10_000),
        None,
    );
    (handler, time)
}

fn create_simple_tx(n: u64) -> Signed<RawTransaction> {
    Signed::new(
        RawTransaction::new(SERVICE_ID, b"Hello, World!".to_vec()),
        key(500),
        hash(n),
        signature(),
    )
}

/// Carries out what the handler asked of the tasks beside it: signs its
/// own messages and hands them back, and executes proposes. Returns how many
/// requests were carried out.
fn run(handler: &mut NodeHandler, counter: &mut u64) -> usize {
    let mut done = 0;
    loop {
        let requests: Vec<InternalRequest> = handler.channel.internal_requests.drain(..).collect();
        if requests.is_empty() {
            return done;
        }
        for request in requests {
            match request {
                InternalRequest::Deliver(payload) => {
                    *counter += 1;
                    let author = *handler.state.consensus_public_key();
                    let message = Signed::new(payload, author, hash(10_000 + *counter), signature());
                    handler.handle_event(Event::Network(NetworkEvent::MessageReceived(message)));
                    done += 1;
                }
                InternalRequest::ExecuteBlock(request) => {
                    let block = ExecutedBlock {
                        block: Block {
                            proposer_id: request.proposer,
                            height: request.height,
                            tx_count: request.transactions.len() as u32,
                            prev_hash: handler.state.last_hash(),
                            tx_hash: hash(1),
                            state_hash: hash(2),
                        },
                        block_hash: hash(20_000 + request.height.0),
                        results_hash: hash(3),
                    };
                    handler.handle_event(Event::Internal(InternalEvent::BlockExecuted(
                        request.propose_hash,
                        block,
                    )));
                    done += 1;
                }
                _ => {}
            }
        }
    }
}

fn timeouts(handler: &NodeHandler) -> Vec<(u64, String)> {
    handler
        .channel
        .internal_requests
        .iter()
        .filter_map(|r| match r {
            InternalRequest::Timeout(t) => Some((t.0, format!("{:?}", t.1))),
            _ => None,
        })
        .collect()
}

#[test]
fn test_duplicated_transaction() {
    let services = vec![Box::new(TestService) as Box<dyn Service>];
    let (mut handler, _) = node(1, 0, services);

    let tx = create_simple_tx(7);

    // Create the first transaction.
    let tx_orig = tx.clone();
    let event = ExternalMessage::Transaction(tx_orig);
    handler.handle_event(event.into());

    // Initial transaction should be added to the pool.
    assert_eq!(handler.blockchain.transactions_pool_len(), 1);

    // Create duplicated transaction.
    let tx_copy = tx.clone();
    let event = ExternalMessage::Transaction(tx_copy);
    handler.handle_event(event.into());

    // Duplicated transaction shouldn't be added to the pool.
    assert_eq!(handler.blockchain.transactions_pool_len(), 1);
}

#[test]
fn test_transaction_without_service() {
    let services = vec![];
    let (mut handler, _) = node(1, 0, services);

    let tx = create_simple_tx(7);

    // Send transaction to node.
    let event = ExternalMessage::Transaction(tx);
    handler.handle_event(event.into());

    // Service not found for transaction.
    assert_eq!(handler.blockchain.transactions_pool_len(), 0);
}

#[test]
fn new_handler_works_on_height_after_last_block() {
    let (handler, _) = node(4, 2, vec![]);
    assert_eq!(handler.state.height(), Height(1));
    assert_eq!(handler.state.round(), Round(0));
    assert_eq!(handler.state.validator_id(), Some(ValidatorId(2)));
    assert_eq!(handler.node_role, NodeRole::Validator(ValidatorId(2)));
    assert_eq!(handler.state.last_hash(), hash(1000));
    assert_eq!(handler.api_state.node_role, NodeRole::Validator(ValidatorId(2)));
    assert_eq!(handler.state.locked_round(), Round(0));
    assert_eq!(handler.state.locked_propose(), None);
    assert_eq!(handler.state.height_start_time(), 1_000_000);
}

#[test]
fn node_without_validator_key_is_auditor() {
    let (handler, _) = node(4, 4, vec![]);
    assert_eq!(handler.state.validator_id(), None);
    assert_eq!(handler.node_role, NodeRole::Auditor);
    assert!(!handler.state.is_validator());
}

#[test]
fn round_start_time_grows_quadratically() {
    let (handler, _) = node(4, 0, vec![]);
    let start = 1_000_000;
    // t1 = 3000, dt = 300.
    assert_eq!(handler.first_round_timeout(), 3000);
    assert_eq!(handler.round_timeout_increase(), 300);
    assert_eq!(handler.round_start_time(Round(1)), start);
    assert_eq!(handler.round_start_time(Round(2)), start + 3000);
    assert_eq!(handler.round_start_time(Round(3)), start + 2 * 3000 + 300);
    assert_eq!(handler.round_start_time(Round(4)), start + 3 * 3000 + 3 * 300);
    assert_eq!(handler.round_start_time(Round(5)), start + 4 * 3000 + 6 * 300);
    assert_eq!(handler.round_start_time(Round(0)), start);
}

#[test]
fn round_start_time_saturates() {
    let (mut handler, _) = node(4, 0, vec![]);
    handler.state.config.consensus.first_round_timeout = u64::MAX;
    assert_eq!(handler.round_start_time(Round(3)), u64::MAX);
    assert_eq!(handler.round_timeout_increase(), u64::MAX / 10);
}

#[test]
fn initialize_restores_saved_round_and_sets_deadlines() {
    let (mut handler, _) = node(4, 1, vec![]);
    handler.blockchain.consensus_round = Round(3);
    let now = handler.initialize();
    assert_eq!(now, 1_000_000);
    assert_eq!(handler.state.height(), Height(1));
    assert_eq!(handler.state.round(), Round(3));
    let set = timeouts(&handler);
    assert_eq!(
        set,
        vec![
            (1_000_000 + 3 * 3000 + 3 * 300, "Round(Height(1), Round(3))".to_owned()),
            (1_005_000, "Status(Height(1))".to_owned()),
            (1_010_000, "PeerExchange".to_owned()),
            (1_010_000, "UpdateApiState".to_owned()),
        ]
    );
    // The node turned to the three other validators of its connect list.
    let sent: Vec<PublicKey> = handler
        .channel
        .network_requests
        .iter()
        .filter_map(|r| match r {
            NetworkRequest::SendMessage(to, Outgoing::Own(Payload::Connect(_))) => Some(*to),
            _ => None,
        })
        .collect();
    assert_eq!(sent, vec![key(1), key(3), key(4)]);
}

#[test]
fn single_node_commits_transactions_in_hash_order() {
    let services = vec![Box::new(TestService) as Box<dyn Service>];
    let (mut handler, time) = node(1, 0, services);
    let mut counter = 0;
    handler.initialize();
    handler.handle_event(ExternalMessage::Transaction(create_simple_tx(30)).into());
    handler.handle_event(ExternalMessage::Transaction(create_simple_tx(10)).into());
    handler.handle_event(ExternalMessage::Transaction(create_simple_tx(20)).into());
    assert_eq!(handler.blockchain.transactions_pool_len(), 3);

    // Round 1 begins when the first round deadline comes.
    assert_eq!(handler.state.round(), Round(1));
    handler.channel.internal_requests.clear();
    time.set(1_000_200);
    handler.handle_event(Event::Internal(InternalEvent::Timeout(NodeTimeout::Propose(
        Height(1),
        Round(1),
    ))));
    run(&mut handler, &mut counter);

    assert_eq!(handler.state.height(), Height(2));
    assert_eq!(handler.state.round(), Round(1));
    assert_eq!(handler.blockchain.blocks.len(), 2);
    let block = &handler.blockchain.blocks[1];
    let hashes: Vec<crypto::Hash> = block.transactions.iter().map(|t| t.hash).collect();
    assert_eq!(hashes, vec![hash(10), hash(20), hash(30)]);
    assert_eq!(block.header.height, Height(1));
    assert_eq!(block.header.prev_hash, hash(1000));
    assert_eq!(block.precommits.len(), 1);
    assert_eq!(handler.blockchain.transactions_pool_len(), 0);
    assert_eq!(handler.state.last_hash(), hash(20_001));
    assert!(handler.blockchain.consensus_messages_cache.is_empty());
}

#[test]
fn leader_timeout_advances_rounds_without_commit() {
    // Validator 0 at height 1: leader of round r is (1 + r) mod 4, so the
    // leaders of rounds 1 and 2 are validators 2 and 3.
    let (mut handler, _) = node(4, 0, vec![]);
    handler.initialize();
    handler.state.jump_round(Round(1));
    handler.channel.internal_requests.clear();

    handler.handle_event(Event::Internal(InternalEvent::Timeout(NodeTimeout::Round(
        Height(1),
        Round(1),
    ))));
    assert_eq!(handler.state.round(), Round(2));
    let set = timeouts(&handler);
    assert_eq!(set[0], (1_000_000 + 3000 + 3000 + 300, "Round(Height(1), Round(2))".to_owned()));

    // A stale deadline changes nothing.
    handler.handle_event(Event::Internal(InternalEvent::Timeout(NodeTimeout::Round(
        Height(1),
        Round(1),
    ))));
    assert_eq!(handler.state.round(), Round(2));

    handler.handle_event(Event::Internal(InternalEvent::Timeout(NodeTimeout::Round(
        Height(1),
        Round(2),
    ))));
    assert_eq!(handler.state.round(), Round(3));
    assert_eq!(handler.state.height(), Height(1));
    assert_eq!(handler.blockchain.blocks.len(), 1);
    assert_eq!(handler.blockchain.consensus_round, Round(3));
}

fn prevote(validator: u16, round: u32, propose: crypto::Hash, n: u64) -> Event {
    Event::Network(NetworkEvent::MessageReceived(Signed::new(
        Payload::Prevote(Prevote {
            validator: ValidatorId(validator),
            height: Height(1),
            round: Round(round),
            propose_hash: propose,
            locked_round: Round(0),
        }),
        key(validator as u64 + 1),
        hash(30_000 + n),
        signature(),
    )))
}

fn precommit(validator: u16, round: u32, propose: crypto::Hash, block: crypto::Hash, n: u64) -> Event {
    Event::Network(NetworkEvent::MessageReceived(Signed::new(
        Payload::Precommit(Precommit {
            validator: ValidatorId(validator),
            height: Height(1),
            round: Round(round),
            propose_hash: propose,
            block_hash: block,
            time: exonum_node::messages::Timestamp { secs: 0, nanos: 0 },
        }),
        key(validator as u64 + 1),
        hash(40_000 + n),
        signature(),
    )))
}

fn propose(validator: u16, round: u32, id: crypto::Hash, txs: Vec<crypto::Hash>) -> Event {
    Event::Network(NetworkEvent::MessageReceived(Signed::new(
        Payload::Propose(Propose {
            validator: ValidatorId(validator),
            height: Height(1),
            round: Round(round),
            prev_hash: hash(1000),
            transactions: txs,
        }),
        key(validator as u64 + 1),
        id,
        signature(),
    )))
}

#[test]
fn lock_is_kept_until_a_later_round_has_a_quorum() {
    // Validator 0 of four at height 1. Leaders: round 1 -> 2, round 2 -> 3,
    // round 3 -> 0, round 4 -> 1.
    let (mut handler, _) = node(4, 0, vec![]);
    let mut counter = 0;
    handler.initialize();
    handler.state.jump_round(Round(1));
    handler.handle_event(Event::Internal(InternalEvent::Timeout(NodeTimeout::Round(
        Height(1),
        Round(1),
    ))));
    assert_eq!(handler.state.round(), Round(2));

    // The propose P of round 2 comes; the node prevotes it.
    let p = hash(77);
    handler.handle_event(propose(3, 2, p, vec![]));
    run(&mut handler, &mut counter);
    assert_eq!(handler.state.our_prevote(Round(2)).map(|v| v.propose_hash), Some(p));
    // Two more prevotes make a quorum of three: the node locks and
    // precommits.
    handler.handle_event(prevote(1, 2, p, 1));
    assert_eq!(handler.state.locked_round(), Round(0));
    handler.handle_event(prevote(2, 2, p, 2));
    run(&mut handler, &mut counter);
    assert_eq!(handler.state.locked_round(), Round(2));
    assert_eq!(handler.state.locked_propose(), Some(p));
    let own = handler.state.our_precommit(Round(2)).unwrap();
    assert_eq!(own.propose_hash, p);
    assert_eq!(own.block_hash, hash(20_001));

    // Round 3: the node prevotes P again though another propose has come.
    handler.handle_event(Event::Internal(InternalEvent::Timeout(NodeTimeout::Round(
        Height(1),
        Round(2),
    ))));
    run(&mut handler, &mut counter);
    assert_eq!(handler.state.round(), Round(3));
    let q = hash(88);
    // The node itself leads round 3, but another validator's propose for
    // round 4 is on the table.
    handler.handle_event(propose(1, 4, q, vec![]));
    run(&mut handler, &mut counter);
    assert_eq!(handler.state.our_prevote(Round(3)).map(|v| v.propose_hash), Some(p));

    // A quorum for Q in round 2, the round of the lock, does not move the
    // lock.
    handler.handle_event(prevote(1, 2, q, 3));
    handler.handle_event(prevote(2, 2, q, 4));
    handler.handle_event(prevote(3, 2, q, 5));
    run(&mut handler, &mut counter);
    assert_eq!(handler.state.locked_round(), Round(2));
    assert_eq!(handler.state.locked_propose(), Some(p));

    // A quorum for Q in round 4 moves it, and the node goes to round 4.
    handler.handle_event(prevote(1, 4, q, 6));
    handler.handle_event(prevote(2, 4, q, 7));
    handler.handle_event(prevote(3, 4, q, 8));
    run(&mut handler, &mut counter);
    assert_eq!(handler.state.round(), Round(4));
    assert_eq!(handler.state.locked_round(), Round(4));
    assert_eq!(handler.state.locked_propose(), Some(q));
    assert_eq!(handler.state.our_prevote(Round(4)).map(|v| v.propose_hash), Some(q));
    // The node never voted twice in a round.
    let votes = &handler.state.validator_state.as_ref().unwrap().our_prevotes;
    for (i, a) in votes.iter().enumerate() {
        for b in votes.iter().skip(i + 1) {
            assert_ne!(a.round, b.round);
        }
    }
    assert_eq!(handler.state.height(), Height(1));
}

#[test]
fn commit_needs_a_quorum_of_precommits_for_our_block() {
    let (mut handler, _) = node(4, 0, vec![]);
    let mut counter = 0;
    handler.initialize();
    handler.state.jump_round(Round(1));
    let p = hash(77);
    handler.handle_event(propose(2, 1, p, vec![]));
    run(&mut handler, &mut counter);
    // Precommits that name another block than the node's own do not commit.
    handler.handle_event(precommit(1, 1, p, hash(666), 1));
    handler.handle_event(precommit(2, 1, p, hash(666), 2));
    handler.handle_event(precommit(3, 1, p, hash(666), 3));
    run(&mut handler, &mut counter);
    assert_eq!(handler.state.height(), Height(1));
    assert_eq!(handler.state.executed_block(&p).map(|b| b.block_hash), Some(hash(20_001)));
    // Precommits for the node's own block do.
    handler.handle_event(precommit(1, 1, p, hash(20_001), 4));
    handler.handle_event(precommit(2, 1, p, hash(20_001), 5));
    assert_eq!(handler.state.height(), Height(1));
    handler.handle_event(precommit(3, 1, p, hash(20_001), 6));
    assert_eq!(handler.state.height(), Height(2));
    assert_eq!(handler.blockchain.blocks[1].hash, hash(20_001));
    assert_eq!(handler.blockchain.blocks[1].precommits.len(), 3);
    // The peers are told: a status for height 2 went out to no one, there
    // being no connected peers, and the deadlines of the new height are set.
    let set = timeouts(&handler);
    assert!(set.iter().any(|t| t.1 == "Round(Height(2), Round(1))"));
    assert!(set.iter().any(|t| t.1 == "Status(Height(2))"));
}

#[test]
fn propose_with_committed_transaction_is_rejected() {
    let services = vec![Box::new(TestService) as Box<dyn Service>];
    let (mut handler, time) = node(1, 0, services);
    let mut counter = 0;
    handler.initialize();
    handler.handle_event(ExternalMessage::Transaction(create_simple_tx(10)).into());
    time.set(1_000_200);
    handler.handle_event(Event::Internal(InternalEvent::Timeout(NodeTimeout::Propose(
        Height(1),
        Round(1),
    ))));
    run(&mut handler, &mut counter);
    assert_eq!(handler.state.height(), Height(2));

    // A propose of the leader for height 2 that names the committed
    // transaction again.
    let again = Event::Network(NetworkEvent::MessageReceived(Signed::new(
        Payload::Propose(Propose {
            validator: ValidatorId(0),
            height: Height(2),
            round: Round(1),
            prev_hash: handler.state.last_hash(),
            transactions: vec![hash(10)],
        }),
        key(1),
        hash(99),
        signature(),
    )));
    handler.handle_event(again);
    assert!(handler.state.propose(&hash(99)).is_none());
    assert!(handler.state.proposes.is_empty());

    // The same propose without the transaction is taken.
    let fine = Event::Network(NetworkEvent::MessageReceived(Signed::new(
        Payload::Propose(Propose {
            validator: ValidatorId(0),
            height: Height(2),
            round: Round(1),
            prev_hash: handler.state.last_hash(),
            transactions: vec![],
        }),
        key(1),
        hash(98),
        signature(),
    )));
    handler.handle_event(fine);
    assert!(handler.state.propose(&hash(98)).is_some());
}

#[test]
fn messages_of_an_earlier_height_change_nothing() {
    let services = vec![Box::new(TestService) as Box<dyn Service>];
    let (mut handler, time) = node(1, 0, services);
    let mut counter = 0;
    handler.initialize();
    time.set(1_000_200);
    handler.handle_event(Event::Internal(InternalEvent::Timeout(NodeTimeout::Propose(
        Height(1),
        Round(1),
    ))));
    run(&mut handler, &mut counter);
    assert_eq!(handler.state.height(), Height(2));

    handler.channel.internal_requests.clear();
    handler.channel.network_requests.clear();
    let round = handler.state.round();
    // Messages of height 1, taken up again as after a restart.
    let old = vec![
        propose(0, 1, hash(77), vec![]),
        prevote(0, 1, hash(77), 1),
        precommit(0, 1, hash(77), hash(20_001), 2),
    ];
    for event in old {
        match event {
            Event::Network(NetworkEvent::MessageReceived(message)) => {
                handler.replay_entry(CachedMessage::Received(message), 1_000_300);
            }
            _ => unreachable!(),
        }
    }
    handler.recall_entry(CachedMessage::Own(Payload::Prevote(Prevote {
        validator: ValidatorId(0),
        height: Height(1),
        round: Round(1),
        propose_hash: hash(77),
        locked_round: Round(0),
    })));
    // And as they come from the network.
    handler.handle_event(prevote(0, 1, hash(77), 3));
    handler.handle_event(precommit(0, 1, hash(77), hash(20_001), 4));
    handler.handle_event(propose(0, 1, hash(78), vec![]));
    assert_eq!(handler.state.height(), Height(2));
    assert_eq!(handler.state.round(), round);
    assert!(handler.state.proposes.is_empty());
    assert!(handler.state.prevotes.records.is_empty());
    assert!(handler.state.precommits.records.is_empty());
    assert!(handler.state.validator_state.as_ref().unwrap().our_prevotes.is_empty());
    assert!(handler.channel.internal_requests.is_empty());
    assert!(handler.channel.network_requests.is_empty());
    assert!(handler.blockchain.consensus_messages_cache.is_empty());
}

#[test]
fn restart_resumes_at_saved_round_and_replays_own_prevote() {
    // The node is validator 1 at height 1 and had prevoted in round 3
    // before it went down.
    let (mut handler, _) = node(4, 1, vec![]);
    handler.blockchain.consensus_round = Round(3);
    let own = Prevote {
        validator: ValidatorId(1),
        height: Height(1),
        round: Round(3),
        propose_hash: hash(55),
        locked_round: Round(0),
    };
    handler.blockchain.consensus_messages_cache.push(CachedMessage::Own(Payload::Prevote(own)));
    handler.blockchain.consensus_messages_cache.push(CachedMessage::Received(Signed::new(
        Payload::Prevote(own),
        key(2),
        hash(56),
        signature(),
    )));
    handler.initialize();
    assert_eq!(handler.state.height(), Height(1));
    assert_eq!(handler.state.round(), Round(3));
    assert_eq!(handler.state.our_prevote(Round(3)), Some(own));
    assert_eq!(handler.state.prevotes.records.len(), 1);
    // Nothing was signed anew: no message of the node's own was asked to be
    // delivered, and the saved messages are as they were.
    assert!(!handler
        .channel
        .internal_requests
        .iter()
        .any(|r| matches!(r, InternalRequest::Deliver(_))));
    assert_eq!(handler.blockchain.consensus_messages_cache.len(), 2);
    // The node does not prevote another propose in that round.
    handler.cast_prevote(Round(3), hash(66));
    assert_eq!(handler.state.our_prevote(Round(3)), Some(own));
}

#[test]
fn restart_does_not_prevote_again_in_a_round() {
    // Validator 1 had received the propose of round 1 while it lacked a
    // transaction of it, and had prevoted for no propose when the deadline
    // came. It restarts with the propose complete.
    let (mut handler, _) = node(4, 1, vec![]);
    let saved_propose = match propose(2, 1, hash(77), vec![]) {
        Event::Network(NetworkEvent::MessageReceived(message)) => message,
        _ => unreachable!(),
    };
    let own = Prevote {
        validator: ValidatorId(1),
        height: Height(1),
        round: Round(1),
        propose_hash: crypto::Hash::zero(),
        locked_round: Round(0),
    };
    handler.blockchain.consensus_messages_cache.push(CachedMessage::Received(saved_propose));
    handler.blockchain.consensus_messages_cache.push(CachedMessage::Own(Payload::Prevote(own)));
    handler.initialize();
    assert_eq!(handler.state.round(), Round(1));
    assert_eq!(handler.state.proposes.len(), 1);
    assert_eq!(handler.state.our_prevote(Round(1)), Some(own));
    assert_eq!(handler.state.validator_state.as_ref().unwrap().our_prevotes.len(), 1);
    assert!(!handler
        .channel
        .internal_requests
        .iter()
        .any(|r| matches!(r, InternalRequest::Deliver(_))));
    assert_eq!(handler.blockchain.consensus_messages_cache.len(), 2);
}

#[test]
fn restart_recalls_the_lock_of_a_precommit() {
    let (mut handler, time) = node(4, 1, vec![]);
    handler.blockchain.consensus_round = Round(2);
    let first = Precommit {
        validator: ValidatorId(1),
        height: Height(1),
        round: Round(2),
        propose_hash: hash(55),
        block_hash: hash(56),
        time: exonum_node::messages::Timestamp { secs: 0, nanos: 0 },
    };
    let earlier = Precommit { round: Round(1), propose_hash: hash(44), block_hash: hash(45), ..first };
    handler.blockchain.consensus_messages_cache.push(CachedMessage::Own(Payload::Precommit(first)));
    handler.blockchain.consensus_messages_cache.push(CachedMessage::Own(Payload::Precommit(earlier)));
    handler.initialize();
    assert_eq!(handler.state.our_precommit(Round(2)), Some(first));
    assert_eq!(handler.state.our_precommit(Round(1)), Some(earlier));
    assert_eq!(handler.state.locked_round(), Round(2));
    assert_eq!(handler.state.locked_propose(), Some(hash(55)));
    // In the next round the node prevotes the propose of its lock.
    time.set(1_010_000);
    handler.handle_event(Event::Internal(InternalEvent::Timeout(NodeTimeout::Round(
        Height(1),
        Round(2),
    ))));
    assert_eq!(handler.state.round(), Round(3));
    assert_eq!(handler.state.our_prevote(Round(3)).map(|v| v.propose_hash), Some(hash(55)));
}

fn restarted_with_precommit(block: crypto::Hash) -> NodeHandler {
    // Validator 0 had precommitted the propose 77 in round 2 with `block`
    // before it went down. The propose comes again, a quorum prevotes it
    // in round 3, and executing it gives the block 20001.
    let (mut handler, _) = node(4, 0, vec![]);
    let mut counter = 0;
    handler.blockchain.consensus_round = Round(2);
    let first = Precommit {
        validator: ValidatorId(0),
        height: Height(1),
        round: Round(2),
        propose_hash: hash(77),
        block_hash: block,
        time: exonum_node::messages::Timestamp { secs: 0, nanos: 0 },
    };
    handler.blockchain.consensus_messages_cache.push(CachedMessage::Own(Payload::Precommit(first)));
    handler.initialize();
    handler.handle_event(propose(3, 2, hash(77), vec![]));
    handler.handle_event(prevote(1, 3, hash(77), 1));
    handler.handle_event(prevote(2, 3, hash(77), 2));
    handler.handle_event(prevote(3, 3, hash(77), 3));
    run(&mut handler, &mut counter);
    assert_eq!(handler.state.round(), Round(3));
    assert_eq!(handler.state.locked_round(), Round(3));
    assert_eq!(handler.state.locked_propose(), Some(hash(77)));
    assert_eq!(handler.state.our_prevote(Round(3)).map(|v| v.propose_hash), Some(hash(77)));
    handler
}

#[test]
fn node_does_not_precommit_a_propose_with_another_block() {
    let handler = restarted_with_precommit(hash(90));
    assert!(handler.state.has_other_block(hash(77), hash(20_001)));
    assert!(handler.state.our_precommit(Round(3)).is_none());
    let handler = restarted_with_precommit(hash(20_001));
    assert!(!handler.state.has_other_block(hash(77), hash(20_001)));
    let again = handler.state.our_precommit(Round(3)).unwrap();
    assert_eq!(again.propose_hash, hash(77));
    assert_eq!(again.block_hash, hash(20_001));
}

#[test]
fn vote_in_own_name_that_the_node_did_not_cast_is_ignored() {
    let (mut handler, _) = node(4, 1, vec![]);
    handler.initialize();
    handler.channel.internal_requests.clear();
    handler.channel.network_requests.clear();
    handler.handle_event(prevote(1, 1, hash(77), 1));
    handler.handle_event(precommit(1, 1, hash(77), hash(78), 2));
    assert!(handler.state.prevotes.records.is_empty());
    assert!(handler.state.precommits.records.is_empty());
    assert!(handler.state.our_prevote(Round(1)).is_none());
    assert!(handler.state.our_precommit(Round(1)).is_none());
    assert!(handler.blockchain.consensus_messages_cache.is_empty());
    assert!(handler.channel.network_requests.is_empty());
    // A prevote that the node did cast is taken when it comes back.
    handler.cast_prevote(Round(1), hash(77));
    handler.handle_event(prevote(1, 1, hash(88), 3));
    assert!(handler.state.prevotes.records.is_empty());
    handler.handle_event(prevote(1, 1, hash(77), 4));
    assert_eq!(handler.state.prevotes.records.len(), 1);
}

fn block_response(rounds: [u32; 3]) -> Event {
    let precommits = (0..3u16)
        .map(|v| {
            Signed::new(
                Precommit {
                    validator: ValidatorId(v + 1),
                    height: Height(1),
                    round: Round(rounds[v as usize]),
                    propose_hash: hash(77),
                    block_hash: hash(90),
                    time: exonum_node::messages::Timestamp { secs: 0, nanos: 0 },
                },
                key(v as u64 + 2),
                hash(41_000 + v as u64),
                signature(),
            )
        })
        .collect();
    Event::Network(NetworkEvent::MessageReceived(Signed::new(
        Payload::BlockResponse(BlockResponse {
            to: key(1),
            block: Block {
                proposer_id: ValidatorId(2),
                height: Height(1),
                tx_count: 0,
                prev_hash: hash(1000),
                tx_hash: crypto::Hash::zero(),
                state_hash: crypto::Hash::zero(),
            },
            block_hash: hash(90),
            precommits,
            transactions: vec![],
        }),
        key(2),
        hash(42_000),
        signature(),
    )))
}

#[test]
fn block_is_committed_on_precommits_of_one_round_only() {
    let (mut handler, _) = node(4, 0, vec![]);
    handler.initialize();
    handler.handle_event(block_response([1, 2, 1]));
    assert_eq!(handler.state.height(), Height(1));
    assert_eq!(handler.blockchain.blocks.len(), 1);
    handler.handle_event(block_response([2, 2, 2]));
    assert_eq!(handler.state.height(), Height(2));
    assert_eq!(handler.blockchain.blocks.len(), 2);
    assert_eq!(handler.blockchain.blocks[1].hash, hash(90));
    assert_eq!(handler.blockchain.blocks[1].precommits.len(), 3);
}

struct Picky {
    id: u16,
    verdict: bool,
}

impl Service for Picky {
    fn service_id(&self) -> u16 {
        self.id
    }

    fn service_name(&self) -> String {
        "picky service".to_owned()
    }

    fn accepts(&self, _: &RawTransaction) -> bool {
        self.verdict
    }
}

#[test]
fn first_service_with_the_identifier_is_asked() {
    let services = vec![
        Box::new(Picky { id: 7, verdict: true }) as Box<dyn Service>,
        Box::new(Picky { id: 9, verdict: false }) as Box<dyn Service>,
        Box::new(Picky { id: 9, verdict: true }) as Box<dyn Service>,
    ];
    let (handler, _) = node(1, 0, services);
    let chain = &handler.blockchain;
    assert_eq!(chain.service_position(7), Some(0));
    assert_eq!(chain.service_position(9), Some(1));
    assert_eq!(chain.service_position(8), None);
    assert!(chain.tx_from_raw(&RawTransaction { service_id: 7, payload: vec![1] }));
    assert!(!chain.tx_from_raw(&RawTransaction { service_id: 9, payload: vec![1] }));
    assert!(!chain.tx_from_raw(&RawTransaction { service_id: 8, payload: vec![1] }));
}

#[test]
fn status_of_a_later_height_asks_for_the_block() {
    let (mut handler, _) = node(4, 0, vec![]);
    handler.initialize();
    handler.channel.internal_requests.clear();
    let status = Event::Network(NetworkEvent::MessageReceived(Signed::new(
        Payload::Status(Status { height: Height(5), last_hash: hash(9) }),
        key(2),
        hash(3),
        signature(),
    )));
    handler.handle_event(status);
    assert!(handler.state.requests.contains(&RequestData::Block(Height(1))));
    let set = timeouts(&handler);
    assert_eq!(set, vec![(1_000_400, "Request(Block(Height(1)), None)".to_owned())]);

    // The same request again sets nothing.
    let status = Event::Network(NetworkEvent::MessageReceived(Signed::new(
        Payload::Status(Status { height: Height(6), last_hash: hash(9) }),
        key(3),
        hash(4),
        signature(),
    )));
    handler.handle_event(status);
    assert_eq!(timeouts(&handler).len(), 1);

    // When the wait is over the first candidate is asked; when the wait for
    // it is over, the second; then the request is dropped.
    handler.channel.network_requests.clear();
    handler.handle_event(Event::Internal(InternalEvent::Timeout(NodeTimeout::Request(
        RequestData::Block(Height(1)),
        None,
    ))));
    handler.handle_event(Event::Internal(InternalEvent::Timeout(NodeTimeout::Request(
        RequestData::Block(Height(1)),
        Some(key(2)),
    ))));
    let asked: Vec<PublicKey> = handler
        .channel
        .network_requests
        .iter()
        .filter_map(|r| match r {
            NetworkRequest::SendMessage(to, Outgoing::Own(Payload::BlockRequest(b))) => {
                assert_eq!(b.height, Height(1));
                Some(*to)
            }
            _ => None,
        })
        .collect();
    assert_eq!(asked, vec![key(2), key(3)]);
    handler.handle_event(Event::Internal(InternalEvent::Timeout(NodeTimeout::Request(
        RequestData::Block(Height(1)),
        Some(key(3)),
    ))));
    assert!(!handler.state.requests.contains(&RequestData::Block(Height(1))));
}

/// A network of validators that hand each other what they send, in the
/// order in which it was sent.
struct Network {
    nodes: Vec<NodeHandler>,
    counter: u64,
}

impl Network {
    fn new(validators: u64) -> Network {
        let mut nodes = vec![];
        for own in 0..validators {
            let services = vec![Box::new(TestService) as Box<dyn Service>];
            let (mut handler, _) = node(validators, own, services);
            handler.initialize();
            handler.channel.internal_requests.clear();
            handler.channel.network_requests.clear();
            nodes.push(handler);
        }
        // Everyone is connected with everyone.
        for i in 0..nodes.len() {
            for j in 0..nodes.len() {
                if i != j {
                    let connect = Signed::new(
                        nodes[j].state.our_connect_message().clone(),
                        key(j as u64 + 1),
                        hash(50_000 + j as u64),
                        signature(),
                    );
                    nodes[i].handle_event(Event::Network(NetworkEvent::PeerConnected(connect)));
                }
            }
            nodes[i].channel.network_requests.clear();
        }
        Network { nodes, counter: 0 }
    }

    fn index_of(&self, k: PublicKey) -> usize {
        (k.3 - 1) as usize
    }

    /// The digest of a message of the node `author`: the same content of
    /// the same author has the same digest wherever it is signed.
    fn sign(&mut self, author: usize, payload: Payload) -> Signed<Payload> {
        let text = format!("{}{:?}", author, payload);
        let mut digest: u64 = 1469598103934665603;
        for b in text.bytes() {
            digest = (digest ^ b as u64).wrapping_mul(1099511628211);
        }
        self.counter += 1;
        Signed::new(payload, key(author as u64 + 1), crypto::Hash(9, 9, 9, digest), signature())
    }

    /// Carries out what the nodes asked for, until none asks for anything.
    /// The nodes in `silent` neither send nor receive.
    fn run(&mut self, silent: &[usize]) {
        loop {
            let mut idle = true;
            for i in 0..self.nodes.len() {
                let internal: Vec<InternalRequest> =
                    self.nodes[i].channel.internal_requests.drain(..).collect();
                let network: Vec<NetworkRequest> =
                    self.nodes[i].channel.network_requests.drain(..).collect();
                if silent.contains(&i) {
                    continue;
                }
                for request in network {
                    if let NetworkRequest::SendMessage(to, outgoing) = request {
                        idle = false;
                        let to = self.index_of(to);
                        if silent.contains(&to) {
                            continue;
                        }
                        let message = match outgoing {
                            Outgoing::Own(payload) => self.sign(i, payload),
                            Outgoing::Relayed(message) => message,
                        };
                        self.nodes[to]
                            .handle_event(Event::Network(NetworkEvent::MessageReceived(message)));
                    }
                }
                for request in internal {
                    match request {
                        InternalRequest::Deliver(payload) => {
                            idle = false;
                            let message = self.sign(i, payload);
                            self.nodes[i].handle_event(Event::Network(
                                NetworkEvent::MessageReceived(message),
                            ));
                        }
                        InternalRequest::ExecuteBlock(request) => {
                            idle = false;
                            let block = ExecutedBlock {
                                block: Block {
                                    proposer_id: request.proposer,
                                    height: request.height,
                                    tx_count: request.transactions.len() as u32,
                                    prev_hash: self.nodes[i].state.last_hash(),
                                    tx_hash: hash(1),
                                    state_hash: hash(2),
                                },
                                // Everyone gets the same block of the same propose.
                                block_hash: crypto::Hash(
                                    7,
                                    request.propose_hash.1,
                                    request.propose_hash.2,
                                    request.propose_hash.3,
                                ),
                                results_hash: hash(3),
                            };
                            self.nodes[i].handle_event(Event::Internal(
                                InternalEvent::BlockExecuted(request.propose_hash, block),
                            ));
                        }
                        _ => {}
                    }
                }
            }
            if idle {
                return;
            }
        }
    }

    fn deadline(&mut self, node: usize, timeout: NodeTimeout) {
        self.nodes[node].handle_event(Event::Internal(InternalEvent::Timeout(timeout)));
    }
}

#[test]
fn four_validators_commit_the_same_block() {
    let mut network = Network::new(4);
    // A client hands a transaction to validator 3; it reaches everyone.
    network.nodes[3].handle_event(ExternalMessage::Transaction(create_simple_tx(5)).into());
    network.nodes[1].handle_event(ExternalMessage::Transaction(create_simple_tx(4)).into());
    network.run(&[]);
    for node in &network.nodes {
        assert_eq!(node.blockchain.pool.iter_by_hash(), vec![hash(4), hash(5)]);
        assert_eq!(node.state.round(), Round(1));
    }
    // The leader of round 1 at height 1 is validator (1 + 1) mod 4 = 2.
    for i in 0..4 {
        assert_eq!(network.nodes[i].state.is_leader(), i == 2);
    }
    network.deadline(2, NodeTimeout::Propose(Height(1), Round(1)));
    network.run(&[]);
    for node in &network.nodes {
        assert_eq!(node.state.height(), Height(2));
        assert_eq!(node.blockchain.blocks.len(), 2);
        assert_eq!(node.blockchain.blocks[1].hash, network.nodes[0].blockchain.blocks[1].hash);
        let hashes: Vec<crypto::Hash> =
            node.blockchain.blocks[1].transactions.iter().map(|t| t.hash).collect();
        assert_eq!(hashes, vec![hash(4), hash(5)]);
        assert!(node.blockchain.blocks[1].precommits.len() >= 3);
        assert_eq!(node.blockchain.transactions_pool_len(), 0);
        assert_eq!(node.state.last_hash(), network.nodes[0].blockchain.blocks[1].hash);
    }
}

#[test]
fn three_of_four_validators_commit_and_the_fourth_catches_up() {
    let mut network = Network::new(4);
    network.deadline(2, NodeTimeout::Propose(Height(1), Round(1)));
    // Validator 0 hears nothing.
    network.run(&[0]);
    assert_eq!(network.nodes[0].state.height(), Height(1));
    for i in 1..4 {
        assert_eq!(network.nodes[i].state.height(), Height(2));
    }
    // It learns of the new height from a status, asks for the block, and
    // commits it on the strength of its precommits.
    let status = network.sign(1, Payload::Status(Status { height: Height(2), last_hash: hash(0) }));
    network.nodes[0].handle_event(Event::Network(NetworkEvent::MessageReceived(status)));
    assert!(network.nodes[0].state.requests.contains(&RequestData::Block(Height(1))));
    network.deadline(0, NodeTimeout::Request(RequestData::Block(Height(1)), None));
    network.run(&[]);
    assert_eq!(network.nodes[0].state.height(), Height(2));
    assert_eq!(network.nodes[0].blockchain.blocks[1].hash, network.nodes[1].blockchain.blocks[1].hash);
}

#[test]
fn two_of_four_validators_do_not_commit() {
    let mut network = Network::new(4);
    network.deadline(2, NodeTimeout::Propose(Height(1), Round(1)));
    network.run(&[0, 1]);
    for node in &network.nodes {
        assert_eq!(node.state.height(), Height(1));
        assert_eq!(node.blockchain.blocks.len(), 1);
    }
    // The two that talk have prevoted, and no more than that.
    assert!(network.nodes[2].state.our_prevote(Round(1)).is_some());
    assert!(network.nodes[2].state.our_precommit(Round(1)).is_none());
    assert_eq!(network.nodes[2].state.locked_round(), Round(0));
}

fn connected(own: u64, peers: &[u64]) -> NodeHandler {
    let (mut handler, _) = node(4, own, vec![Box::new(TestService) as Box<dyn Service>]);
    handler.initialize();
    for p in peers {
        let connect = Signed::new(
            exonum_node::messages::Connect::new(
                "127.0.0.1:1",
                exonum_node::messages::Timestamp { secs: 1, nanos: 0 },
                "peer",
            ),
            key(*p),
            hash(60_000 + p),
            signature(),
        );
        handler.handle_event(Event::Network(NetworkEvent::PeerConnected(connect)));
    }
    handler.channel.network_requests.clear();
    handler.channel.internal_requests.clear();
    handler
}

fn sent_to(handler: &NodeHandler) -> Vec<PublicKey> {
    handler
        .channel
        .network_requests
        .iter()
        .filter_map(|r| match r {
            NetworkRequest::SendMessage(to, _) => Some(*to),
            _ => None,
        })
        .collect()
}

#[test]
fn broadcast_reaches_the_connected_peers_of_the_connect_list() {
    // Validator 0 accepts the keys 2, 3 and 4; a peer with the key 9 is not
    // accepted and so not noted as connected.
    let mut handler = connected(0, &[3, 9, 2]);
    assert_eq!(handler.state.peers().len(), 2);
    handler.broadcast(Outgoing::Own(Payload::Status(Status {
        height: Height(1),
        last_hash: hash(1000),
    })));
    assert_eq!(sent_to(&handler), vec![key(3), key(2)]);
    // A peer that leaves the connect list is no longer sent to.
    handler.channel.network_requests.clear();
    handler.state.connect_list.peers.retain(|p| p.public_key != key(3));
    handler.broadcast(Outgoing::Own(Payload::Status(Status {
        height: Height(1),
        last_hash: hash(1000),
    })));
    assert_eq!(sent_to(&handler), vec![key(2)]);
}

#[test]
fn a_new_peer_is_sent_the_advertisement_and_a_known_one_is_not() {
    let mut handler = connected(0, &[]);
    let connect = |n: u64| {
        Event::Network(NetworkEvent::MessageReceived(Signed::new(
            Payload::Connect(exonum_node::messages::Connect::new(
                "127.0.0.1:1",
                exonum_node::messages::Timestamp { secs: n as i64, nanos: 0 },
                "peer",
            )),
            key(2),
            hash(60_000 + n),
            signature(),
        )))
    };
    handler.handle_event(connect(1));
    assert_eq!(sent_to(&handler), vec![key(2)]);
    handler.handle_event(connect(2));
    assert_eq!(sent_to(&handler), vec![key(2)]);
    // The later advertisement took the place of the earlier one.
    assert_eq!(handler.state.peers().len(), 1);
    assert_eq!(handler.state.peers()[0].payload.time.secs, 2);
    // The node's own advertisement changes nothing.
    let own = Event::Network(NetworkEvent::MessageReceived(Signed::new(
        Payload::Connect(handler.state.our_connect_message().clone()),
        key(1),
        hash(3),
        signature(),
    )));
    handler.handle_event(own);
    assert_eq!(handler.state.peers().len(), 1);

    // A peer that goes away is asked to come back, being in the connect
    // list.
    handler.channel.network_requests.clear();
    handler.handle_event(Event::Network(NetworkEvent::PeerDisconnected(key(2))));
    assert!(handler.state.peers().is_empty());
    assert_eq!(sent_to(&handler), vec![key(2)]);
    handler.handle_event(Event::Network(NetworkEvent::UnableConnectToPeer(key(2))));
    assert_eq!(sent_to(&handler), vec![key(2)]);
}

#[test]
fn requests_of_the_api() {
    let mut handler = connected(0, &[2]);
    handler.handle_event(ExternalMessage::Transaction(create_simple_tx(5)).into());
    handler.handle_event(ExternalMessage::Transaction(create_simple_tx(3)).into());
    // Each transaction went to the peer when it came.
    assert_eq!(sent_to(&handler), vec![key(2), key(2)]);
    handler.channel.network_requests.clear();
    handler.handle_event(ExternalMessage::Rebroadcast.into());
    let again: Vec<crypto::Hash> = handler
        .channel
        .network_requests
        .iter()
        .filter_map(|r| match r {
            NetworkRequest::SendMessage(_, Outgoing::Relayed(m)) => Some(m.hash),
            _ => None,
        })
        .collect();
    assert_eq!(again, vec![hash(3), hash(5)]);

    handler.handle_event(
        ExternalMessage::PeerAdd(ConnectInfo { address: "10.0.0.9:1".to_owned(), public_key: key(9) })
            .into(),
    );
    assert!(handler.state.connect_list().is_peer_allowed(&key(9)));
    assert_eq!(sent_to(&handler).last(), Some(&key(9)));

    // A node that does not take part in consensus does not move when a
    // round ends.
    handler.handle_event(ExternalMessage::Enable(false).into());
    assert!(!handler.is_enabled);
    assert!(!handler.api_state.is_enabled);
    let round = handler.state.round();
    handler.handle_event(Event::Internal(InternalEvent::Timeout(NodeTimeout::Round(
        Height(1),
        round,
    ))));
    assert_eq!(handler.state.round(), round);
    handler.handle_event(ExternalMessage::Enable(true).into());
    handler.handle_event(Event::Internal(InternalEvent::Timeout(NodeTimeout::Round(
        Height(1),
        round,
    ))));
    assert_eq!(handler.state.round(), round.next());

    handler.channel.internal_requests.clear();
    handler.channel.network_requests.clear();
    handler.handle_event(ExternalMessage::Shutdown.into());
    assert!(matches!(handler.channel.internal_requests[0], InternalRequest::Shutdown));
    assert!(matches!(handler.channel.network_requests[0], NetworkRequest::Shutdown));
}

#[test]
fn periodic_deadlines() {
    let mut handler = connected(0, &[2, 3]);
    handler.handle_event(ExternalMessage::Transaction(create_simple_tx(5)).into());
    handler.channel.network_requests.clear();
    handler.channel.internal_requests.clear();

    handler.handle_event(Event::Internal(InternalEvent::Timeout(NodeTimeout::Status(Height(1)))));
    assert_eq!(sent_to(&handler), vec![key(2), key(3)]);
    assert_eq!(timeouts(&handler), vec![(1_005_000, "Status(Height(1))".to_owned())]);
    // A status deadline of another height is stale.
    handler.handle_event(Event::Internal(InternalEvent::Timeout(NodeTimeout::Status(Height(0)))));
    assert_eq!(timeouts(&handler).len(), 1);

    handler.channel.network_requests.clear();
    handler.channel.internal_requests.clear();
    handler.handle_event(Event::Internal(InternalEvent::Timeout(NodeTimeout::PeerExchange)));
    // The time is 1_000_000, which is even: the first of the two peers.
    match &handler.channel.network_requests[0] {
        NetworkRequest::SendMessage(to, Outgoing::Own(Payload::PeersRequest(r))) => {
            assert_eq!(*to, key(2));
            assert_eq!(r.to, key(2));
        }
        other => panic!("{:?}", other),
    }
    assert_eq!(timeouts(&handler), vec![(1_010_000, "PeerExchange".to_owned())]);

    handler.channel.internal_requests.clear();
    handler.handle_event(Event::Internal(InternalEvent::Timeout(NodeTimeout::UpdateApiState)));
    assert_eq!(
        handler.api_state,
        SharedNodeState {
            height: Height(1),
            round: Round(1),
            peers_count: 2,
            node_role: NodeRole::Validator(ValidatorId(0)),
            is_enabled: true,
            tx_pool_size: 1,
            last_block_hash: hash(1000),
            state_update_timeout: 10_000,
        }
    );
    assert_eq!(timeouts(&handler), vec![(1_010_000, "UpdateApiState".to_owned())]);
}

#[test]
fn propose_deadline_depends_on_the_pool() {
    let (mut handler, _) = node(4, 2, vec![Box::new(TestService) as Box<dyn Service>]);
    handler.state.config.consensus.propose_timeout_threshold = 2;
    handler.initialize();
    handler.channel.internal_requests.clear();
    // Validator 2 leads round 1. With an empty pool it waits the longer
    // time.
    assert!(handler.state.is_leader());
    assert!(!handler.need_faster_propose());
    handler.add_propose_timeout();
    assert_eq!(timeouts(&handler), vec![(1_000_200, "Propose(Height(1), Round(1))".to_owned())]);
    handler.channel.internal_requests.clear();
    handler.handle_event(ExternalMessage::Transaction(create_simple_tx(1)).into());
    assert!(timeouts(&handler).is_empty());
    // With the second transaction the pool is full enough: the propose is
    // brought forward, once.
    handler.handle_event(ExternalMessage::Transaction(create_simple_tx(2)).into());
    assert!(handler.need_faster_propose());
    assert_eq!(timeouts(&handler), vec![(1_000_010, "Propose(Height(1), Round(1))".to_owned())]);
    handler.handle_event(ExternalMessage::Transaction(create_simple_tx(3)).into());
    assert_eq!(timeouts(&handler).len(), 1);
    // In the next round it may be brought forward again.
    handler.handle_event(Event::Internal(InternalEvent::Timeout(NodeTimeout::Round(
        Height(1),
        Round(1),
    ))));
    assert!(handler.allow_expedited_propose);
}

#[test]
fn outcome_of_an_execution_is_kept() {
    let (mut handler, _) = node(4, 0, vec![]);
    handler.initialize();
    let p = hash(77);
    handler.handle_event(propose(2, 1, p, vec![]));
    let block = |n: u64| ExecutedBlock {
        block: Block {
            proposer_id: ValidatorId(2),
            height: Height(1),
            tx_count: 0,
            prev_hash: hash(1000),
            tx_hash: hash(1),
            state_hash: hash(n),
        },
        block_hash: hash(n),
        results_hash: hash(n),
    };
    handler.handle_event(Event::Internal(InternalEvent::BlockExecuted(p, block(1))));
    assert_eq!(handler.state.executed_block(&p), Some(block(1)));
    handler.handle_event(Event::Internal(InternalEvent::BlockExecuted(p, block(2))));
    assert_eq!(handler.state.executed_block(&p), Some(block(1)));
    // Of a propose that the node does not know, no outcome is noted.
    handler.handle_event(Event::Internal(InternalEvent::BlockExecuted(hash(78), block(3))));
    assert_eq!(handler.state.executed_block(&hash(78)), None);
}

#[test]
fn peers_answer_requests_for_data() {
    let mut handler = connected(0, &[2]);
    handler.handle_event(ExternalMessage::Transaction(create_simple_tx(5)).into());
    let p = hash(77);
    handler.handle_event(propose(2, 1, p, vec![hash(5)]));
    handler.handle_event(prevote(1, 1, p, 1));
    handler.channel.network_requests.clear();
    let ask = |payload: Payload| {
        Event::Network(NetworkEvent::MessageReceived(Signed::new(
            payload,
            key(2),
            hash(1),
            signature(),
        )))
    };
    handler.handle_event(ask(Payload::ProposeRequest(ProposeRequest {
        to: key(1),
        height: Height(1),
        propose_hash: p,
    })));
    handler.handle_event(ask(Payload::PrevotesRequest(PrevotesRequest {
        to: key(1),
        height: Height(1),
        round: Round(1),
        propose_hash: p,
    })));
    handler.handle_event(ask(Payload::TransactionsRequest(TransactionsRequest {
        to: key(1),
        txs: vec![hash(6), hash(5)],
    })));
    handler.handle_event(ask(Payload::BlockRequest(BlockRequest { to: key(1), height: Height(0) })));
    handler.handle_event(ask(Payload::PeersRequest(PeersRequest { to: key(1) })));
    // Requests for another node, or for what the node lacks, are not
    // answered.
    handler.handle_event(ask(Payload::PeersRequest(PeersRequest { to: key(3) })));
    handler.handle_event(ask(Payload::BlockRequest(BlockRequest { to: key(1), height: Height(1) })));
    handler.handle_event(ask(Payload::ProposeRequest(ProposeRequest {
        to: key(1),
        height: Height(1),
        propose_hash: hash(78),
    })));
    let kinds: Vec<String> = handler
        .channel
        .network_requests
        .iter()
        .map(|r| match r {
            NetworkRequest::SendMessage(to, Outgoing::Relayed(m)) => {
                assert_eq!(*to, key(2));
                match &m.payload {
                    Payload::Propose(q) => format!("propose {:?}", q.transactions),
                    Payload::Prevote(v) => format!("prevote of {}", v.validator.0),
                    Payload::Connect(_) => "connect".to_owned(),
                    other => format!("{:?}", other),
                }
            }
            NetworkRequest::SendMessage(_, Outgoing::Own(Payload::TransactionsResponse(r))) => {
                format!("transactions {:?}", r.transactions.iter().map(|t| t.hash.3).collect::<Vec<_>>())
            }
            NetworkRequest::SendMessage(_, Outgoing::Own(Payload::BlockResponse(b))) => {
                format!("block {}", b.block.height.0)
            }
            other => format!("{:?}", other),
        })
        .collect();
    assert_eq!(
        kinds,
        vec![
            "propose [Hash(0, 0, 0, 5)]".to_owned(),
            "prevote of 1".to_owned(),
            "transactions [5]".to_owned(),
            "block 0".to_owned(),
            "connect".to_owned(),
        ]
    );
}

#[test]
fn propose_that_lacks_transactions_waits_for_them() {
    let mut handler = connected(0, &[3]);
    handler.handle_event(ExternalMessage::Transaction(create_simple_tx(5)).into());
    handler.channel.internal_requests.clear();
    let p = hash(77);
    handler.handle_event(propose(2, 1, p, vec![hash(5), hash(6), hash(7)]));
    let state = handler.state.propose(&p).unwrap();
    assert_eq!(state.unknown_txs, vec![hash(6), hash(7)]);
    assert!(handler.state.requests.contains(&RequestData::Transactions(vec![hash(6), hash(7)])));
    assert!(handler.state.our_prevote(Round(1)).is_none());
    handler.handle_event(ExternalMessage::Transaction(create_simple_tx(7)).into());
    assert!(handler.state.our_prevote(Round(1)).is_none());
    // The transactions can come in one answer.
    let answer = Event::Network(NetworkEvent::MessageReceived(Signed::new(
        Payload::TransactionsResponse(exonum_node::messages::TransactionsResponse {
            to: key(1),
            transactions: vec![create_simple_tx(6)],
        }),
        key(3),
        hash(2),
        signature(),
    )));
    let handled = handler.handle_event(answer);
    assert_eq!(handled.verdicts, vec![true]);
    assert_eq!(handled.now, 1_000_000);
    assert!(handler.state.propose(&p).unwrap().is_complete());
    assert_eq!(handler.state.our_prevote(Round(1)).map(|v| v.propose_hash), Some(p));
    // Proposes that are not the leader's, or name a transaction twice, or
    // do not follow the last block are not taken.
    handler.handle_event(propose(1, 1, hash(80), vec![]));
    handler.handle_event(propose(2, 1, hash(81), vec![hash(5), hash(5)]));
    assert_eq!(handler.state.proposes.len(), 1);
}
