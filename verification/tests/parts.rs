use exonum_node::blockchain::config::validator_position;
use exonum_node::blockchain::{
    Block, Blockchain, ConsensusConfig, ExecutedBlock, GenesisConfig, StoredBlock,
    StoredConfiguration, TransactionPool, ValidatorKeys,
};
use exonum_node::crypto::{self, PublicKey, SecretKey, Signature};
use exonum_node::helpers::{Height, NodePrivateConfig, NodePublicConfig, Round, ValidatorId};
use exonum_node::messages::{Precommit, RawTransaction, Signed, Timestamp};
use exonum_node::node::connect_list::ConnectList;
use exonum_node::node::events::{SendError, TimeoutRequest};
use exonum_node::node::requests::{
    Requests, REQUEST_BLOCK_TIMEOUT, REQUEST_PEERS_TIMEOUT, REQUEST_PREVOTES_TIMEOUT,
    REQUEST_PROPOSE_TIMEOUT, REQUEST_TRANSACTIONS_TIMEOUT,
};
use exonum_node::node::timer::TimeoutQueue;
use exonum_node::node::votes::{quorum_size, VoteKey, VoteOutcome, VoteRecord, Votes};
use exonum_node::node::{
    AllowOrigin, ApiAccess, ApiSender, ConnectInfo, ConnectListConfig, DbOptions,
    EventsPoolCapacity, ExternalMessage, MemoryPoolConfig, NetworkConfiguration, NodeApiConfig,
    NodeTimeout, RequestData,
};

fn key(n: u64) -> PublicKey {
    PublicKey(0, 0, 0, n)
}

fn hash(n: u64) -> crypto::Hash {
    crypto::Hash(0, 0, 0, n)
}

fn tx(h: crypto::Hash) -> Signed<RawTransaction> {
    Signed::new(RawTransaction::new(1, vec![1, 2]), key(9), h, Signature(0, 0, 0, 0, 0, 0, 0, 0))
}

fn info(n: u64, address: &str) -> ConnectInfo {
    ConnectInfo { address: address.to_owned(), public_key: key(n) }
}

#[test]
fn heights_and_rounds() {
    assert_eq!(Height::zero(), Height(0));
    assert_eq!(Height(5).next(), Height(6));
    assert_eq!(Height(5).previous(), Height(4));
    assert_eq!(Height(0).previous(), Height(0));
    assert_eq!(Round::zero(), Round(0));
    assert_eq!(Round::first(), Round(1));
    assert_eq!(Round(1).next(), Round(2));
    assert_eq!(Round(1).previous(), Round(0));
    assert_eq!(Round(0).previous(), Round(0));
}

#[test]
fn hashes_are_ordered_by_words() {
    assert!(crypto::Hash(0, 0, 0, 1).lt(&crypto::Hash(0, 0, 0, 2)));
    assert!(crypto::Hash(0, 9, 9, 9).lt(&crypto::Hash(1, 0, 0, 0)));
    assert!(!crypto::Hash(1, 0, 0, 0).lt(&crypto::Hash(0, 9, 9, 9)));
    assert!(!crypto::Hash(1, 2, 3, 4).lt(&crypto::Hash(1, 2, 3, 4)));
    assert!(crypto::Hash(1, 2, 3, 4).lt(&crypto::Hash(1, 2, 4, 0)));
    assert_eq!(crypto::Hash::zero(), crypto::Hash(0, 0, 0, 0));
}

#[test]
fn timestamps() {
    assert_eq!(Timestamp::epoch(), Timestamp { secs: 0, nanos: 0 });
    assert_eq!(Timestamp::from_millis(1_234_567), Timestamp { secs: 1234, nanos: 567_000_000 });
    assert_eq!(
        Timestamp::from_millis(u64::MAX),
        Timestamp { secs: 18_446_744_073_709_551, nanos: 615_000_000 }
    );
    assert!(Timestamp { secs: -1, nanos: 5 }.le(&Timestamp { secs: 0, nanos: 0 }));
    assert!(Timestamp { secs: 1, nanos: 5 }.le(&Timestamp { secs: 1, nanos: 5 }));
    assert!(!Timestamp { secs: 1, nanos: 6 }.le(&Timestamp { secs: 1, nanos: 5 }));
}

#[test]
fn defaults_of_the_configuration() {
    assert_eq!(
        EventsPoolCapacity::default(),
        EventsPoolCapacity {
            network_requests_capacity: 512,
            network_events_capacity: 512,
            internal_events_capacity: 128,
            api_requests_capacity: 1024,
        }
    );
    assert_eq!(MemoryPoolConfig::default().events_pool_capacity, EventsPoolCapacity::default());
    let api = NodeApiConfig::default();
    assert_eq!(api.state_update_timeout, 10_000);
    assert!(api.public_api_address.is_none());
    assert!(api.private_api_address.is_none());
    assert!(api.public_allow_origin.is_none());
    assert!(api.private_allow_origin.is_none());
    let network = NetworkConfiguration::default();
    assert_eq!(network.max_incoming_connections, 128);
    assert_eq!(network.tcp_connect_retry_timeout, 15_000);
    let consensus = ConsensusConfig::default();
    assert_eq!(consensus.first_round_timeout, 3000);
    assert_eq!(consensus.round_timeout_increase_pct, 10);
    assert_eq!(ConsensusConfig::TIMEOUT_LINEAR_INCREASE_PERCENT, 10);
    assert_eq!(consensus.txs_block_limit, 1000);
    assert_eq!(DbOptions::default(), DbOptions { max_open_files: None, create_if_missing: true });
    let genesis = GenesisConfig::new(vec![]);
    assert_eq!(genesis.consensus, consensus);
    assert!(ConnectListConfig::default().peers.is_empty());
}

#[test]
fn api_servers_to_start() {
    let mut api = NodeApiConfig::default();
    assert!(api.api_runtimes().is_empty());
    api.private_api_address = Some("127.0.0.1:8001".to_owned());
    api.private_allow_origin = Some(AllowOrigin::Whitelist(vec!["http://a".to_owned()]));
    let servers = api.api_runtimes();
    assert_eq!(servers.len(), 1);
    assert_eq!(servers[0].access, ApiAccess::Private);
    assert_eq!(servers[0].listen_address, "127.0.0.1:8001");
    api.public_api_address = Some("0.0.0.0:8000".to_owned());
    api.public_allow_origin = Some(AllowOrigin::Any);
    let servers = api.api_runtimes();
    assert_eq!(servers.len(), 2);
    assert_eq!(servers[0].access, ApiAccess::Public);
    assert_eq!(servers[0].listen_address, "0.0.0.0:8000");
    assert!(matches!(servers[0].allow_origin, Some(AllowOrigin::Any)));
    assert_eq!(servers[1].access, ApiAccess::Private);
    match &servers[1].allow_origin {
        Some(AllowOrigin::Whitelist(list)) => assert_eq!(list, &vec!["http://a".to_owned()]),
        other => panic!("{:?}", other),
    }
}

#[test]
fn connect_list_config_from_node_configs() {
    let keys = |n: u64| ValidatorKeys { consensus_key: key(n), service_key: key(100 + n) };
    let list = vec![
        NodePublicConfig { address: "a:1".to_owned(), validator_keys: keys(1) },
        NodePublicConfig { address: "b:2".to_owned(), validator_keys: keys(2) },
        NodePublicConfig { address: "c:3".to_owned(), validator_keys: keys(3) },
    ];
    let node = NodePrivateConfig {
        listen_address: "0.0.0.0:2".to_owned(),
        external_address: "b:2".to_owned(),
        consensus_public_key: key(2),
        service_public_key: key(102),
    };
    let config = ConnectListConfig::from_node_config(&list, &node);
    let peers: Vec<(String, PublicKey)> =
        config.peers.iter().map(|p| (p.address.clone(), p.public_key)).collect();
    assert_eq!(peers, vec![("a:1".to_owned(), key(1)), ("c:3".to_owned(), key(3))]);
    assert_eq!(config.addresses(), vec!["a:1".to_owned(), "c:3".to_owned()]);
    assert_eq!(config.peers[0].to_string(), "a:1");
}

#[test]
fn connect_list_config_from_validator_keys() {
    let keys: Vec<ValidatorKeys> =
        (1..=3).map(|n| ValidatorKeys { consensus_key: key(n), service_key: key(100 + n) }).collect();
    let peers = vec!["a:1".to_owned(), "b:2".to_owned()];
    let config = ConnectListConfig::from_validator_keys(&keys, &peers);
    assert_eq!(config.peers.len(), 2);
    assert_eq!(config.peers[1].address, "b:2");
    assert_eq!(config.peers[1].public_key, key(2));
    let more = vec!["a".to_owned(), "b".to_owned(), "c".to_owned(), "d".to_owned()];
    assert_eq!(ConnectListConfig::from_validator_keys(&keys, &more).peers.len(), 3);
    assert!(ConnectListConfig::from_validator_keys(&[], &more).peers.is_empty());
}

#[test]
fn connect_list_holds_each_key_once() {
    let config = ConnectListConfig {
        peers: vec![info(1, "a:1"), info(2, "b:2"), info(1, "a:9"), info(3, "c:3")],
    };
    let mut list = ConnectList::from_config(config);
    let peers: Vec<(u64, String)> =
        list.peers().iter().map(|p| (p.public_key.3, p.address.clone())).collect();
    assert_eq!(
        peers,
        vec![(1, "a:9".to_owned()), (2, "b:2".to_owned()), (3, "c:3".to_owned())]
    );
    assert!(list.is_peer_allowed(&key(2)));
    assert!(!list.is_peer_allowed(&key(4)));
    list.add(info(4, "d:4"));
    assert!(list.is_peer_allowed(&key(4)));
    assert_eq!(list.find_address_by_pubkey(&key(1)).unwrap().address, "a:9");
    assert!(list.find_address_by_pubkey(&key(5)).is_none());
    let back = ConnectListConfig::from_connect_list(&list);
    assert_eq!(back.peers.len(), 4);
    assert_eq!(back.peers[3].address, "d:4");
}

#[test]
fn validator_is_found_by_its_consensus_key() {
    let keys: Vec<ValidatorKeys> =
        (1..=3).map(|n| ValidatorKeys { consensus_key: key(n), service_key: key(100 + n) }).collect();
    assert_eq!(validator_position(&keys, key(3)), Some(2));
    assert_eq!(validator_position(&keys, key(1)), Some(0));
    assert_eq!(validator_position(&keys, key(101)), None);
}

#[test]
fn pool_keeps_transactions_in_hash_order_each_once() {
    let mut pool = TransactionPool::new();
    assert!(pool.insert(tx(crypto::Hash(0, 0, 1, 0))));
    assert!(pool.insert(tx(crypto::Hash(0, 0, 0, 5))));
    assert!(pool.insert(tx(crypto::Hash(2, 0, 0, 0))));
    assert!(pool.insert(tx(crypto::Hash(0, 0, 0, 7))));
    assert!(!pool.insert(tx(crypto::Hash(0, 0, 0, 5))));
    assert_eq!(pool.len(), 4);
    let order = vec![
        crypto::Hash(0, 0, 0, 5),
        crypto::Hash(0, 0, 0, 7),
        crypto::Hash(0, 0, 1, 0),
        crypto::Hash(2, 0, 0, 0),
    ];
    assert_eq!(pool.iter_by_hash(), order);
    assert_eq!(pool.first_hashes(2), order[..2].to_vec());
    assert_eq!(pool.first_hashes(9), order);
    assert!(pool.first_hashes(0).is_empty());
    assert!(pool.contains(&crypto::Hash(0, 0, 1, 0)));
    assert!(!pool.contains(&crypto::Hash(0, 0, 1, 1)));
    assert_eq!(pool.get(&crypto::Hash(2, 0, 0, 0)).unwrap().hash, crypto::Hash(2, 0, 0, 0));
    assert!(pool.get(&hash(1)).is_none());
    assert_eq!(pool.position(&crypto::Hash(0, 0, 0, 7)), Some(1));

    pool.remove_many(&vec![crypto::Hash(0, 0, 0, 7), hash(99), crypto::Hash(2, 0, 0, 0)]);
    assert_eq!(pool.iter_by_hash(), vec![crypto::Hash(0, 0, 0, 5), crypto::Hash(0, 0, 1, 0)]);
    assert_eq!(pool.remove(&crypto::Hash(0, 0, 0, 5)).unwrap().hash, crypto::Hash(0, 0, 0, 5));
    assert!(pool.remove(&crypto::Hash(0, 0, 0, 5)).is_none());
    assert_eq!(pool.len(), 1);
}

fn empty_chain() -> Blockchain {
    let genesis = StoredBlock {
        hash: hash(100),
        header: Block {
            proposer_id: ValidatorId(0),
            height: Height(0),
            tx_count: 0,
            prev_hash: crypto::Hash::zero(),
            tx_hash: crypto::Hash::zero(),
            state_hash: crypto::Hash::zero(),
        },
        precommits: vec![],
        transactions: vec![],
    };
    let stored = StoredConfiguration {
        actual_from: Height(0),
        validator_keys: vec![],
        consensus: ConsensusConfig::default(),
    };
    Blockchain::new(vec![], stored, genesis)
}

fn executed(height: u64, prev: crypto::Hash, txs: u32) -> ExecutedBlock {
    ExecutedBlock {
        block: Block {
            proposer_id: ValidatorId(0),
            height: Height(height),
            tx_count: txs,
            prev_hash: prev,
            tx_hash: hash(1),
            state_hash: hash(2),
        },
        block_hash: hash(100 + height),
        results_hash: hash(3),
    }
}

#[test]
fn commit_moves_transactions_from_the_pool_into_the_block() {
    let mut chain = empty_chain();
    assert_eq!(chain.consensus_round(), Round(1));
    for n in [5, 3, 9, 7] {
        assert!(chain.add_transaction_into_pool(tx(hash(n))));
    }
    assert!(!chain.add_transaction_into_pool(tx(hash(3))));
    assert!(chain.is_known(&hash(3)));
    assert!(!chain.is_in_block(&hash(3)));
    chain.save_round(Round(4));

    let block = executed(1, hash(100), 2);
    let order = vec![hash(9), hash(3)];
    assert!(chain.can_commit(&block, &order));
    // What cannot follow the last block.
    assert!(!chain.can_commit(&executed(2, hash(100), 2), &order));
    assert!(!chain.can_commit(&executed(1, hash(99), 2), &order));
    assert!(!chain.can_commit(&executed(1, hash(100), 3), &order));
    assert!(!chain.can_commit(&block, &vec![hash(9), hash(9)]));
    assert!(!chain.can_commit(&block, &vec![hash(9), hash(4)]));

    chain.commit(block, &order, vec![]);
    assert_eq!(chain.height(), Height(1));
    assert_eq!(chain.last_hash(), hash(101));
    let in_block: Vec<crypto::Hash> = chain.last_block().transactions.iter().map(|t| t.hash).collect();
    assert_eq!(in_block, order);
    assert_eq!(chain.pool.iter_by_hash(), vec![hash(5), hash(7)]);
    assert_eq!(chain.consensus_round(), Round(1));
    assert!(chain.consensus_messages_cache().is_empty());
    // A committed transaction does not come back into the pool.
    assert!(chain.is_in_block(&hash(9)));
    assert!(!chain.add_transaction_into_pool(tx(hash(9))));
    assert_eq!(chain.transactions_pool_len(), 2);
    assert_eq!(
        chain.committed_location(&hash(3)).map(|l| (l.block_height, l.position_in_block)),
        Some((Height(1), 1))
    );
    assert!(chain.committed_location(&hash(5)).is_none());
    assert!(chain.block(Height(1)).is_some());
    assert!(chain.block(Height(2)).is_none());
}

fn vote(validator: u16, round: u32, propose: u64) -> (ValidatorId, VoteKey, Signed<Precommit>) {
    let key = VoteKey {
        round: Round(round),
        propose_hash: hash(propose),
        block_hash: crypto::Hash::zero(),
    };
    let message = Signed::new(
        Precommit {
            validator: ValidatorId(validator),
            height: Height(1),
            round: Round(round),
            propose_hash: hash(propose),
            block_hash: crypto::Hash::zero(),
            time: Timestamp::epoch(),
        },
        PublicKey(0, 0, 0, validator as u64),
        hash(validator as u64 * 1000 + round as u64 * 10 + propose),
        Signature(0, 0, 0, 0, 0, 0, 0, 0),
    );
    (ValidatorId(validator), key, message)
}

#[test]
fn quorum_is_more_than_two_thirds() {
    assert_eq!(quorum_size(0), 1);
    assert_eq!(quorum_size(1), 1);
    assert_eq!(quorum_size(2), 2);
    assert_eq!(quorum_size(3), 3);
    assert_eq!(quorum_size(4), 3);
    assert_eq!(quorum_size(5), 4);
    assert_eq!(quorum_size(6), 5);
    assert_eq!(quorum_size(7), 5);
    assert_eq!(quorum_size(100), 67);
    assert_eq!(quorum_size(65536), 43691);
}

#[test]
fn votes_are_counted_once_for_each_validator_and_subject() {
    let mut votes: Votes<Precommit> = Votes::new();
    let (v, k, m) = vote(0, 1, 7);
    assert_eq!(votes.add(v, k, m), VoteOutcome::Added(1));
    assert_eq!(votes.add(v, k, m), VoteOutcome::Duplicate);
    let (v, k, m) = vote(1, 1, 7);
    assert_eq!(votes.add(v, k, m), VoteOutcome::Added(2));
    // The same validator for another propose in the same round: both are
    // held, each under its subject.
    let (v, other, m) = vote(1, 1, 8);
    assert_eq!(votes.add(v, other, m), VoteOutcome::Added(1));
    let (v, later, m) = vote(2, 3, 7);
    assert_eq!(votes.add(v, later, m), VoteOutcome::Added(1));
    let (v, _, m) = vote(2, 1, 7);
    assert_eq!(votes.add(v, k, m), VoteOutcome::Added(3));

    assert_eq!(votes.count(&k), 3);
    assert_eq!(votes.count(&other), 1);
    assert!(votes.has_quorum(&k, 3));
    assert!(!votes.has_quorum(&k, 4));
    assert!(votes.contains(&VoteRecord { validator: ValidatorId(1), key: other }));
    assert!(!votes.contains(&VoteRecord { validator: ValidatorId(0), key: other }));
    let messages = votes.messages_for(&k);
    let voters: Vec<u16> = messages.iter().map(|m| m.payload.validator.0).collect();
    assert_eq!(voters, vec![0, 1, 2]);
    // Any quorum after a round.
    assert_eq!(votes.quorum_after(Round(0), 3), Some(k));
    assert_eq!(votes.quorum_after(Round(1), 1), Some(later));
    assert_eq!(votes.quorum_after(Round(1), 2), None);
    assert_eq!(votes.quorum_after(Round(3), 1), None);
    // A quorum at exactly a round.
    assert_eq!(votes.quorum_at(Round(1), 3), Some(k));
    assert_eq!(votes.quorum_at(Round(1), 1), Some(k));
    assert_eq!(votes.quorum_at(Round(3), 1), Some(later));
    assert_eq!(votes.quorum_at(Round(2), 1), None);
    assert_eq!(votes.quorum_at(Round(3), 2), None);
}

#[test]
fn requests_are_made_once_and_candidates_rotate() {
    assert_eq!(RequestData::Propose(hash(1)).timeout(), REQUEST_PROPOSE_TIMEOUT);
    assert_eq!(RequestData::Transactions(vec![hash(1)]).timeout(), REQUEST_TRANSACTIONS_TIMEOUT);
    assert_eq!(RequestData::Prevotes(Round(1), hash(1)).timeout(), REQUEST_PREVOTES_TIMEOUT);
    assert_eq!(RequestData::Block(Height(1)).timeout(), REQUEST_BLOCK_TIMEOUT);
    assert_eq!(RequestData::Peers.timeout(), REQUEST_PEERS_TIMEOUT);
    let all = [
        REQUEST_PROPOSE_TIMEOUT,
        REQUEST_TRANSACTIONS_TIMEOUT,
        REQUEST_PREVOTES_TIMEOUT,
        REQUEST_BLOCK_TIMEOUT,
        REQUEST_PEERS_TIMEOUT,
    ];
    for (i, a) in all.iter().enumerate() {
        for b in all.iter().skip(i + 1) {
            assert_ne!(a, b);
        }
    }

    let mut requests = Requests::new();
    let data = RequestData::Transactions(vec![hash(1), hash(2)]);
    assert!(requests.request(data.clone(), key(1)));
    assert!(!requests.request(data.clone(), key(2)));
    assert!(!requests.request(data.clone(), key(1)));
    assert!(!requests.request(RequestData::Transactions(vec![hash(1), hash(2)]), key(3)));
    assert!(requests.request(RequestData::Transactions(vec![hash(2), hash(1)]), key(3)));
    assert!(requests.contains(&data));
    assert!(!requests.contains(&RequestData::Peers));
    assert!(data.same(&RequestData::Transactions(vec![hash(1), hash(2)])));
    assert!(!data.same(&RequestData::Propose(hash(1))));

    // The first wait is over: the first candidate is asked.
    assert_eq!(requests.retry(&data, None), Some(key(1)));
    // It did not answer: the next one is asked, and so on.
    assert_eq!(requests.retry(&data, Some(key(1))), Some(key(2)));
    assert_eq!(requests.retry(&data, Some(key(2))), Some(key(3)));
    // None is left: the request is dropped.
    assert_eq!(requests.retry(&data, Some(key(3))), None);
    assert!(!requests.contains(&data));
    assert_eq!(requests.retry(&data, None), None);

    let other = RequestData::Block(Height(4));
    requests.request(other.clone(), key(7));
    requests.request(other.clone(), key(8));
    assert_eq!(requests.remove_request(&other), vec![key(7), key(8)]);
    assert!(requests.remove_request(&other).is_empty());
}

#[test]
fn api_sender_keeps_the_order_until_it_is_closed() {
    let mut sender = ApiSender::new();
    assert_eq!(sender.peer_add(info(1, "a:1")), Ok(()));
    assert_eq!(sender.send_external_message(ExternalMessage::Enable(false)), Ok(()));
    assert_eq!(sender.broadcast_transaction(tx(hash(4))), Ok(()));
    assert!(matches!(sender.receive(), Some(ExternalMessage::PeerAdd(_))));
    assert!(matches!(sender.receive(), Some(ExternalMessage::Enable(false))));
    sender.close();
    assert_eq!(sender.send_external_message(ExternalMessage::Shutdown), Err(SendError::Closed));
    assert_eq!(sender.peer_add(info(1, "a:1")), Err(SendError::Closed));
    assert!(matches!(sender.receive(), Some(ExternalMessage::Transaction(_))));
    assert!(sender.receive().is_none());
}

#[test]
fn deadlines_come_out_earliest_first() {
    let mut queue = TimeoutQueue::new();
    queue.push(TimeoutRequest(30, NodeTimeout::PeerExchange));
    queue.push(TimeoutRequest(10, NodeTimeout::Status(Height(1))));
    queue.push(TimeoutRequest(20, NodeTimeout::Round(Height(1), Round(1))));
    queue.push(TimeoutRequest(10, NodeTimeout::UpdateApiState));
    assert_eq!(queue.len(), 4);
    assert_eq!(queue.next_deadline(), Some(10));
    assert!(queue.pop_due(9).is_none());
    // Deadlines of one time come out in the order in which they were set.
    assert!(matches!(queue.pop_due(10), Some(TimeoutRequest(10, NodeTimeout::Status(_)))));
    assert!(matches!(queue.pop_due(10), Some(TimeoutRequest(10, NodeTimeout::UpdateApiState))));
    assert!(queue.pop_due(10).is_none());
    assert!(matches!(queue.pop_due(100), Some(TimeoutRequest(20, NodeTimeout::Round(_, _)))));
    assert!(matches!(queue.pop_due(100), Some(TimeoutRequest(30, NodeTimeout::PeerExchange))));
    assert!(queue.pop_due(100).is_none());
    assert_eq!(queue.next_deadline(), None);
}

#[test]
fn secret_keys_take_the_place_of_their_stand_ins() {
    let config = exonum_node::node::NodeConfig {
        genesis: GenesisConfig::new(vec![]),
        listen_address: "0.0.0.0:2000".to_owned(),
        external_address: "127.0.0.1:2000".to_owned(),
        network: NetworkConfiguration::default(),
        consensus_public_key: key(1),
        consensus_secret_key: "consensus.key".to_owned(),
        service_public_key: key(2),
        service_secret_key: "service.key".to_owned(),
        api: NodeApiConfig::default(),
        mempool: MemoryPoolConfig::default(),
        services_configs: Default::default(),
        database: DbOptions::default(),
        connect_list: ConnectListConfig::default(),
        thread_pool_size: Some(4),
    };
    let with = config.with_secret_keys(
        SecretKey(1, 0, 0, 0, 0, 0, 0, 0),
        SecretKey(2, 0, 0, 0, 0, 0, 0, 0),
    );
    assert_eq!(with.consensus_secret_key, SecretKey(1, 0, 0, 0, 0, 0, 0, 0));
    assert_eq!(with.service_secret_key, SecretKey(2, 0, 0, 0, 0, 0, 0, 0));
    assert_eq!(with.external_address, "127.0.0.1:2000");
    assert_eq!(with.thread_pool_size, Some(4));
    assert_eq!(with.consensus_public_key, key(1));
}
