//! The node: its configuration, its role, and the handler that drives
//! consensus.

pub mod agreement;
pub mod basic;
pub mod conduct;
pub mod connect_list;
pub mod consensus;
pub mod dispatch;
pub mod events;
pub mod handler;
pub mod laws;
pub mod ledger;
pub mod requests;
pub mod restart;
pub mod rules;
pub mod safety;
pub mod state;
pub mod timer;
pub mod votes;

pub use self::connect_list::{ConnectList, PeerAddress};
pub use self::events::{ApiSender, ExternalMessage, NodeSender, NodeTimeout};
pub use self::handler::{NodeHandler, SystemStateProvider};
pub use self::state::{RequestData, State, ValidatorState};

use vstd::prelude::*;
use std::collections::BTreeMap;
use crate::blockchain::Blockchain;
use crate::blockchain::config::{GenesisConfig, ValidatorKeys};
use crate::node::handler::SharedNodeState;
use crate::crypto::{PublicKey, SecretKey};
use crate::helpers::{Milliseconds, NodePrivateConfig, NodePublicConfig, ValidatorId};
use crate::node::connect_list::SharedConnectList;

verus! {

/// Service keys of the node.
#[derive(Clone, Copy, Debug, PartialEq, Eq, Structural)]
pub struct ServiceConfig {
    /// Service public key.
    pub service_public_key: PublicKey,
    /// Service secret key.
    pub service_secret_key: SecretKey,
}

/// What the node needs to listen for peers.
#[derive(Debug)]
pub struct ListenerConfig {
    /// Consensus public key.
    pub consensus_public_key: PublicKey,
    /// Consensus secret key.
    pub consensus_secret_key: SecretKey,
    /// Peers that the node accepts.
    pub connect_list: ConnectList,
    /// Address that the node listens on.
    pub address: String,
}

/// Which origins the HTTP API answers to.
#[derive(Debug)]
pub enum AllowOrigin {
    /// Every origin.
    Any,
    /// The listed origins.
    Whitelist(Vec<String>),
}

impl Clone for AllowOrigin {
    fn clone(&self) -> (r: Self)
        ensures
            match (*self, r) {
                (AllowOrigin::Any, AllowOrigin::Any) => true,
                (AllowOrigin::Whitelist(a), AllowOrigin::Whitelist(b)) => a@ == b@,
                _ => false,
            },
    {
        match self {
            AllowOrigin::Any => AllowOrigin::Any,
            AllowOrigin::Whitelist(list) => {
                let copy = list.clone();
                assert(copy@ =~= list@);
                AllowOrigin::Whitelist(copy)
            },
        }
    }
}

/// Options of the HTTP API.
#[derive(Debug)]
pub struct NodeApiConfig {
    /// Period, in milliseconds, at which the state shown by the API is
    /// refreshed.
    pub state_update_timeout: usize,
    /// Address of the public endpoints, if they are served.
    pub public_api_address: Option<String>,
    /// Address of the private endpoints, if they are served.
    pub private_api_address: Option<String>,
    /// Origins that the public endpoints answer to.
    pub public_allow_origin: Option<AllowOrigin>,
    /// Origins that the private endpoints answer to.
    pub private_allow_origin: Option<AllowOrigin>,
}

impl Default for NodeApiConfig {
    fn default() -> (c: Self)
        ensures
            c.state_update_timeout == 10_000,
            c.public_api_address is None,
            c.private_api_address is None,
            c.public_allow_origin is None,
            c.private_allow_origin is None,
    {
        NodeApiConfig {
            state_update_timeout: 10_000,
            public_api_address: None,
            private_api_address: None,
            public_allow_origin: None,
            private_allow_origin: None,
        }
    }
}

/// Who may call an API endpoint.
#[derive(Clone, Copy, Debug, PartialEq, Eq, Structural)]
pub enum ApiAccess {
    /// Anyone.
    Public,
    /// The operator of the node.
    Private,
}

/// One HTTP server to start.
#[derive(Debug)]
pub struct ApiRuntimeConfig {
    /// Address to listen on.
    pub listen_address: String,
    /// Which endpoints the server offers.
    pub access: ApiAccess,
    /// Origins that the server answers to.
    pub allow_origin: Option<AllowOrigin>,
}

/// Whether `b` is a copy of `a`.
pub open spec fn same_origin(a: Option<AllowOrigin>, b: Option<AllowOrigin>) -> bool {
    match (a, b) {
        (None, None) => true,
        (Some(AllowOrigin::Any), Some(AllowOrigin::Any)) => true,
        (Some(AllowOrigin::Whitelist(x)), Some(AllowOrigin::Whitelist(y))) => x@ == y@,
        _ => false,
    }
}

impl NodeApiConfig {
    /// Whether `r` is the server that the options describe for `access`.
    pub open spec fn describes(&self, access: ApiAccess, r: ApiRuntimeConfig) -> bool {
        match access {
            ApiAccess::Public => self.public_api_address == Some(r.listen_address) && r.access
                == ApiAccess::Public && same_origin(self.public_allow_origin, r.allow_origin),
            ApiAccess::Private => self.private_api_address == Some(r.listen_address) && r.access
                == ApiAccess::Private && same_origin(self.private_allow_origin, r.allow_origin),
        }
    }

    /// The HTTP servers to start: the public one where a public address is
    /// set, then the private one where a private address is set.
    pub fn api_runtimes(&self) -> (v: Vec<ApiRuntimeConfig>)
        ensures
            v.len() == (if self.public_api_address is Some { 1int } else { 0int }) + (
            if self.private_api_address is Some { 1int } else { 0int }),
            self.public_api_address is Some ==> self.describes(ApiAccess::Public, v[0]),
            self.private_api_address is Some ==> self.describes(
                ApiAccess::Private,
                v[v.len() - 1],
            ),
    {
        let mut v: Vec<ApiRuntimeConfig> = Vec::new();
        match &self.public_api_address {
            Some(address) => {
                let allow_origin = match &self.public_allow_origin {
                    Some(origin) => Some(origin.clone()),
                    None => None,
                };
                v.push(
                    ApiRuntimeConfig {
                        listen_address: address.clone(),
                        access: ApiAccess::Public,
                        allow_origin,
                    },
                );
            },
            None => {},
        }
        match &self.private_api_address {
            Some(address) => {
                let allow_origin = match &self.private_allow_origin {
                    Some(origin) => Some(origin.clone()),
                    None => None,
                };
                v.push(
                    ApiRuntimeConfig {
                        listen_address: address.clone(),
                        access: ApiAccess::Private,
                        allow_origin,
                    },
                );
            },
            None => {},
        }
        v
    }
}

/// Capacities of the queues between the node's tasks.
#[derive(Clone, Copy, Debug, PartialEq, Eq, Structural)]
pub struct EventsPoolCapacity {
    /// Largest number of queued outgoing network messages.
    pub network_requests_capacity: usize,
    /// Largest number of queued incoming network messages.
    pub network_events_capacity: usize,
    /// Largest number of queued internal events.
    pub internal_events_capacity: usize,
    /// Largest number of queued requests from the API.
    pub api_requests_capacity: usize,
}

impl Default for EventsPoolCapacity {
    fn default() -> (c: Self)
        ensures
            c == (EventsPoolCapacity {
                network_requests_capacity: 512,
                network_events_capacity: 512,
                internal_events_capacity: 128,
                api_requests_capacity: 1024,
            }),
    {
        EventsPoolCapacity {
            network_requests_capacity: 512,
            network_events_capacity: 512,
            internal_events_capacity: 128,
            api_requests_capacity: 1024,
        }
    }
}

/// Memory pool configuration.
#[derive(Clone, Copy, Debug, PartialEq, Eq, Structural)]
pub struct MemoryPoolConfig {
    /// Capacities of the queues between the node's tasks.
    pub events_pool_capacity: EventsPoolCapacity,
}

impl Default for MemoryPoolConfig {
    fn default() -> (c: Self)
        ensures
            c.events_pool_capacity == (EventsPoolCapacity {
                network_requests_capacity: 512,
                network_events_capacity: 512,
                internal_events_capacity: 128,
                api_requests_capacity: 1024,
            }),
    {
        MemoryPoolConfig { events_pool_capacity: EventsPoolCapacity::default() }
    }
}

/// Limits of the peer-to-peer transport.
#[derive(Clone, Copy, Debug, PartialEq, Eq, Structural)]
pub struct NetworkConfiguration {
    /// Largest number of incoming connections.
    pub max_incoming_connections: usize,
    /// Largest number of outgoing connections.
    pub max_outgoing_connections: usize,
    /// Whether Nagle's algorithm is switched off.
    pub tcp_nodelay: bool,
    /// Keep-alive interval, if keep-alive is on.
    pub tcp_keep_alive: Option<u64>,
    /// Pause before a failed connection is tried again.
    pub tcp_connect_retry_timeout: Milliseconds,
    /// How often a failed connection is tried again.
    pub tcp_connect_max_retries: u64,
}

impl Default for NetworkConfiguration {
    fn default() -> (c: Self)
        ensures
            c == (NetworkConfiguration {
                max_incoming_connections: 128,
                max_outgoing_connections: 128,
                tcp_nodelay: true,
                tcp_keep_alive: None,
                tcp_connect_retry_timeout: 15_000,
                tcp_connect_max_retries: 10,
            }),
    {
        NetworkConfiguration {
            max_incoming_connections: 128,
            max_outgoing_connections: 128,
            tcp_nodelay: true,
            tcp_keep_alive: None,
            tcp_connect_retry_timeout: 15_000,
            tcp_connect_max_retries: 10,
        }
    }
}

/// What the handler is made from.
#[derive(Debug)]
pub struct Configuration {
    /// Address and consensus keys of the node, and the peers it accepts.
    pub listener: ListenerConfig,
    /// Service keys of the node.
    pub service: ServiceConfig,
    /// Limits of the peer-to-peer transport.
    pub network: NetworkConfiguration,
    /// Addresses of known peers.
    pub peer_discovery: Vec<String>,
    /// Memory pool configuration.
    pub mempool: MemoryPoolConfig,
}

/// Role of the node in consensus.
#[derive(Clone, Copy, Debug, PartialEq, Eq, Structural)]
pub enum NodeRole {
    /// The node votes, as the validator with this index.
    Validator(ValidatorId),
    /// The node follows consensus and does not vote.
    Auditor,
}

impl Default for NodeRole {
    fn default() -> (r: Self)
        ensures
            r == NodeRole::Auditor,
    {
        NodeRole::Auditor
    }
}

impl NodeRole {
    /// The role of a node with the given validator index, if it has one.
    pub fn new(validator_id: Option<ValidatorId>) -> (r: Self)
        ensures
            r == match validator_id {
                Some(id) => NodeRole::Validator(id),
                None => NodeRole::Auditor,
            },
    {
        match validator_id {
            Some(validator_id) => NodeRole::Validator(validator_id),
            None => NodeRole::Auditor,
        }
    }

    /// Whether the node is a validator.
    pub fn is_validator(self) -> (b: bool)
        ensures
            b == (self is Validator),
    {
        match self {
            NodeRole::Validator(_) => true,
            _ => false,
        }
    }

    /// Whether the node is an auditor.
    pub fn is_auditor(self) -> (b: bool)
        ensures
            b == (self is Auditor),
    {
        match self {
            NodeRole::Auditor => true,
            _ => false,
        }
    }
}

/// What is needed to add a peer to the connect list.
#[derive(Debug)]
pub struct ConnectInfo {
    /// Address of the peer.
    pub address: String,
    /// Public key of the peer.
    pub public_key: PublicKey,
}

impl Clone for ConnectInfo {
    fn clone(&self) -> (r: Self)
        ensures
            r == *self,
    {
        ConnectInfo { address: self.address.clone(), public_key: self.public_key }
    }
}

impl ConnectInfo {
    /// The peer as text: its address.
    pub fn to_string(&self) -> (s: String)
        ensures
            s == self.address,
    {
        self.address.clone()
    }
}

/// The connect list as the configuration file holds it.
#[derive(Debug)]
pub struct ConnectListConfig {
    /// Peers that the node may connect to.
    pub peers: Vec<ConnectInfo>,
}

impl Default for ConnectListConfig {
    fn default() -> (c: Self)
        ensures
            c.peers@ == Seq::<ConnectInfo>::empty(),
    {
        ConnectListConfig { peers: Vec::new() }
    }
}

impl Clone for ConnectListConfig {
    fn clone(&self) -> (r: Self)
        ensures
            r.peers@ == self.peers@,
    {
        let peers = self.peers.clone();
        assert(peers@ =~= self.peers@);
        ConnectListConfig { peers }
    }
}

/// The entry that stands for the node `config` in a connect list.
pub open spec fn connect_info_of(config: NodePublicConfig) -> ConnectInfo {
    ConnectInfo { address: config.address, public_key: config.validator_keys.consensus_key }
}

/// The entries for the nodes of `list` other than the one with the consensus
/// key `own`, in the order of `list`.
pub open spec fn peers_of_node_configs(list: Seq<NodePublicConfig>, own: PublicKey) -> Seq<
    ConnectInfo,
> {
    list.filter(|c: NodePublicConfig| c.validator_keys.consensus_key != own).map_values(
        |c: NodePublicConfig| connect_info_of(c),
    )
}

/// The entries that pair `peers` with `keys` position by position, as far as
/// both reach.
pub open spec fn peers_of_validator_keys(keys: Seq<ValidatorKeys>, peers: Seq<String>) -> Seq<
    ConnectInfo,
> {
    Seq::new(
        if keys.len() <= peers.len() { keys.len() } else { peers.len() },
        |i: int| ConnectInfo { address: peers[i], public_key: keys[i].consensus_key },
    )
}

impl ConnectListConfig {
    /// The connect list of the node `node` in a network of the nodes `list`:
    /// every node of the network but `node` itself.
    pub fn from_node_config(list: &[NodePublicConfig], node: &NodePrivateConfig) -> (c: Self)
        ensures
            c.peers@ == peers_of_node_configs(list@, node.consensus_public_key),
    {
        let ghost keep = |c: NodePublicConfig|
            c.validator_keys.consensus_key != node.consensus_public_key;
        let ghost entry = |c: NodePublicConfig| connect_info_of(c);
        let mut peers: Vec<ConnectInfo> = Vec::new();
        let mut i: usize = 0;
        proof {
            assert(list@.subrange(0, 0) =~= Seq::<NodePublicConfig>::empty());
            assert(list@.subrange(0, 0).filter(keep).map_values(entry) =~= peers@);
        }
        while i < list.len()
            invariant
                i <= list.len(),
                keep == (|c: NodePublicConfig|
                    c.validator_keys.consensus_key != node.consensus_public_key),
                entry == (|c: NodePublicConfig| connect_info_of(c)),
                peers@ == list@.subrange(0, i as int).filter(keep).map_values(entry),
            decreases list.len() - i,
        {
            let config = &list[i];
            proof {
                let before = list@.subrange(0, i as int);
                let after = list@.subrange(0, i + 1);
                assert(after.drop_last() =~= before);
                assert(after.last() == *config);
                reveal(Seq::filter);
                if keep(*config) {
                    assert(after.filter(keep) =~= before.filter(keep).push(*config));
                    assert(after.filter(keep).map_values(entry) =~= before.filter(
                        keep,
                    ).map_values(entry).push(entry(*config)));
                } else {
                    assert(after.filter(keep) =~= before.filter(keep));
                }
            }
            if config.validator_keys.consensus_key != node.consensus_public_key {
                peers.push(
                    ConnectInfo {
                        public_key: config.validator_keys.consensus_key,
                        address: config.address.clone(),
                    },
                );
            }
            i = i + 1;
        }
        proof {
            assert(list@.subrange(0, i as int) =~= list@);
        }
        ConnectListConfig { peers }
    }

    /// The connect list that pairs the addresses `peers` with the validators
    /// `validators_keys`, position by position, as far as both reach.
    pub fn from_validator_keys(validators_keys: &[ValidatorKeys], peers: &[String]) -> (c: Self)
        ensures
            c.peers@ == peers_of_validator_keys(validators_keys@, peers@),
    {
        let n = if validators_keys.len() <= peers.len() {
            validators_keys.len()
        } else {
            peers.len()
        };
        let mut out: Vec<ConnectInfo> = Vec::new();
        let mut i: usize = 0;
        while i < n
            invariant
                i <= n,
                n <= validators_keys.len(),
                n <= peers.len(),
                out.len() == i,
                forall|j: int|
                    0 <= j < i ==> out[j] == (ConnectInfo {
                        address: peers[j],
                        public_key: validators_keys[j].consensus_key,
                    }),
            decreases n - i,
        {
            out.push(
                ConnectInfo {
                    address: peers[i].clone(),
                    public_key: validators_keys[i].consensus_key,
                },
            );
            i = i + 1;
        }
        proof {
            assert(out@ =~= peers_of_validator_keys(validators_keys@, peers@));
        }
        ConnectListConfig { peers: out }
    }

    /// The configuration that describes `connect_list`.
    pub fn from_connect_list(connect_list: &SharedConnectList) -> (c: Self)
        ensures
            c.peers@ == connect_list.peers@,
    {
        ConnectListConfig { peers: connect_list.peers() }
    }

    /// The addresses of the peers, in order.
    pub fn addresses(&self) -> (v: Vec<String>)
        ensures
            v@ == self.peers@.map_values(|p: ConnectInfo| p.address),
    {
        let mut v: Vec<String> = Vec::new();
        let mut i: usize = 0;
        while i < self.peers.len()
            invariant
                i <= self.peers.len(),
                v.len() == i,
                forall|j: int| 0 <= j < i ==> v[j] == self.peers[j].address,
            decreases self.peers.len() - i,
        {
            v.push(self.peers[i].address.clone());
            i = i + 1;
        }
        proof {
            assert(v@ =~= self.peers@.map_values(|p: ConnectInfo| p.address));
        }
        v
    }
}

/// A value of a configuration file in TOML, as the `toml` crate holds it.
/// The library carries such values to the services and never looks inside.
#[verifier::external_type_specification]
#[verifier::external_body]
pub struct ExTomlValue(toml::Value);

/// Options of the storage.
#[derive(Clone, Copy, Debug, PartialEq, Eq, Structural)]
pub struct DbOptions {
    /// Largest number of files that the storage keeps open; no limit where
    /// it is not set.
    pub max_open_files: Option<i32>,
    /// Whether the storage is created where it does not exist.
    pub create_if_missing: bool,
}

impl Default for DbOptions {
    fn default() -> (o: Self)
        ensures
            o == (DbOptions { max_open_files: None, create_if_missing: true }),
    {
        DbOptions { max_open_files: None, create_if_missing: true }
    }
}

/// The configuration of a node. `T` is what stands for a secret key: the
/// key itself, or the path of the file that holds it.
pub struct NodeConfig<T = SecretKey> {
    /// Configuration written into the genesis block.
    pub genesis: GenesisConfig,
    /// Address that the node listens on.
    pub listen_address: String,
    /// Address at which peers reach the node.
    pub external_address: String,
    /// Limits of the peer-to-peer transport.
    pub network: NetworkConfiguration,
    /// Consensus public key.
    pub consensus_public_key: PublicKey,
    /// Consensus secret key.
    pub consensus_secret_key: T,
    /// Service public key.
    pub service_public_key: PublicKey,
    /// Service secret key.
    pub service_secret_key: T,
    /// Options of the HTTP API.
    pub api: NodeApiConfig,
    /// Memory pool configuration.
    pub mempool: MemoryPoolConfig,
    /// Configuration of the services, by name.
    pub services_configs: BTreeMap<String, toml::Value>,
    /// Options of the storage.
    pub database: DbOptions,
    /// Peers that the node may connect to.
    pub connect_list: ConnectListConfig,
    /// Number of threads that check transactions.
    pub thread_pool_size: Option<u8>,
}

impl<T> NodeConfig<T> {
    /// The same configuration with `consensus_secret_key` and
    /// `service_secret_key` in the place of what stood for the secret keys.
    pub fn with_secret_keys<U>(self, consensus_secret_key: U, service_secret_key: U) -> (c:
        NodeConfig<U>)
        ensures
            c.consensus_secret_key == consensus_secret_key,
            c.service_secret_key == service_secret_key,
            c.genesis == self.genesis,
            c.listen_address == self.listen_address,
            c.external_address == self.external_address,
            c.network == self.network,
            c.consensus_public_key == self.consensus_public_key,
            c.service_public_key == self.service_public_key,
            c.api == self.api,
            c.mempool == self.mempool,
            c.services_configs == self.services_configs,
            c.database == self.database,
            c.connect_list == self.connect_list,
            c.thread_pool_size == self.thread_pool_size,
    {
        NodeConfig {
            consensus_secret_key,
            service_secret_key,
            genesis: self.genesis,
            listen_address: self.listen_address,
            external_address: self.external_address,
            network: self.network,
            consensus_public_key: self.consensus_public_key,
            service_public_key: self.service_public_key,
            api: self.api,
            mempool: self.mempool,
            services_configs: self.services_configs,
            database: self.database,
            connect_list: self.connect_list,
            thread_pool_size: self.thread_pool_size,
        }
    }
}

/// A node: its handler, and what is needed to run it.
pub struct Node {
    /// Options of the HTTP API.
    pub api_options: NodeApiConfig,
    /// Limits of the peer-to-peer transport.
    pub network_config: NetworkConfiguration,
    /// The handler.
    pub handler: NodeHandler,
    /// The way from the API to the node.
    pub channel: ApiSender,
    /// Largest length of a message, in bytes.
    pub max_message_len: u32,
    /// Number of threads that check transactions.
    pub thread_pool_size: Option<u8>,
}

impl Node {
    /// Makes the node that the configuration `node_cfg` describes, on the
    /// chain `blockchain` as it was found in the storage and on the machine
    /// `system_state`.
    pub fn new(
        blockchain: Blockchain,
        node_cfg: NodeConfig,
        system_state: Box<dyn SystemStateProvider>,
        config_file_path: Option<String>,
    ) -> (node: Self)
        requires
            blockchain.wf(),
            blockchain@.validators.len() <= 0x1_0000,
        ensures
            node.handler.wf(),
            node.handler.made_from(
                blockchain@,
                node_cfg.external_address@,
                node_cfg.consensus_public_key,
                node_cfg.consensus_secret_key,
                node_cfg.service_public_key,
                node_cfg.service_secret_key,
                crate::node::connect_list::with_peers(node_cfg.connect_list.peers@),
                SharedNodeState::spec_new(node_cfg.api.state_update_timeout as u64),
            ),
            node.handler@.internal.len() == 0,
            node.handler@.network.len() == 0,
            node.handler.channel.api_requests@.len() == 0,
            node.handler.config_manager is Some == config_file_path is Some,
            node.handler.peer_discovery@ == node_cfg.connect_list.peers@.map_values(
                |p: ConnectInfo| p.address,
            ),
            node.handler.blockchain.services == blockchain.services,
            node.api_options == node_cfg.api,
            node.network_config == node_cfg.network,
            node.max_message_len == node_cfg.genesis.consensus.max_message_len,
            node.thread_pool_size == node_cfg.thread_pool_size,
            node.channel.queue@.len() == 0,
            !node.channel.closed,
    {
        let peers = node_cfg.connect_list.addresses();
        let config = Configuration {
            listener: ListenerConfig {
                consensus_public_key: node_cfg.consensus_public_key,
                consensus_secret_key: node_cfg.consensus_secret_key,
                connect_list: ConnectList::from_config(node_cfg.connect_list),
                address: node_cfg.listen_address,
            },
            service: ServiceConfig {
                service_public_key: node_cfg.service_public_key,
                service_secret_key: node_cfg.service_secret_key,
            },
            mempool: node_cfg.mempool,
            network: node_cfg.network,
            peer_discovery: peers,
        };
        let api_state = SharedNodeState::new(node_cfg.api.state_update_timeout as u64);
        let network_config = config.network;
        let sender = NodeSender::new();
        let handler = NodeHandler::new(
            blockchain,
            node_cfg.external_address.as_str(),
            sender,
            system_state,
            config,
            api_state,
            config_file_path,
        );
        proof {
            assert(handler@.internal =~= Seq::empty());
            assert(handler@.network =~= Seq::empty());
        }
        Node {
            api_options: node_cfg.api,
            handler,
            channel: ApiSender::new(),
            network_config,
            max_message_len: node_cfg.genesis.consensus.max_message_len,
            thread_pool_size: node_cfg.thread_pool_size,
        }
    }

    /// The chain.
    pub fn blockchain(&self) -> (b: &Blockchain)
        ensures
            *b == self.handler.blockchain,
    {
        &self.handler.blockchain
    }

    /// State of the node.
    pub fn state(&self) -> (s: &State)
        ensures
            *s == self.handler.state,
    {
        self.handler.state()
    }

    /// The handler.
    pub fn handler(&self) -> (h: &NodeHandler)
        ensures
            *h == self.handler,
    {
        &self.handler
    }

    /// The way from the API to the node.
    pub fn channel(&mut self) -> (c: &mut ApiSender)
        ensures
            *c == old(self).channel,
            *final(self) == (Node { channel: *final(c), ..*old(self) }),
    {
        &mut self.channel
    }
}

} // verus!
