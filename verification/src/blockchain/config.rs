//! Configuration that is stored in the chain and sampled at every height.

use vstd::prelude::*;
use crate::crypto::PublicKey;
use crate::helpers::{Height, Milliseconds};

verus! {

/// The two public keys of a validator.
#[derive(Clone, Copy, Debug, PartialEq, Eq, Structural)]
pub struct ValidatorKeys {
    /// Key that signs consensus messages.
    pub consensus_key: PublicKey,
    /// Key that signs service transactions.
    pub service_key: PublicKey,
}

/// Consensus parameters.
#[derive(Clone, Copy, Debug, PartialEq, Eq, Structural)]
pub struct ConsensusConfig {
    /// Length of the first round of a height.
    pub first_round_timeout: Milliseconds,
    /// By how many percent of `first_round_timeout` each further round is
    /// longer than the one before.
    pub round_timeout_increase_pct: u64,
    /// Period of the status broadcast.
    pub status_timeout: Milliseconds,
    /// Period of the peer exchange.
    pub peers_timeout: Milliseconds,
    /// Largest number of transactions in a block.
    pub txs_block_limit: u32,
    /// Largest length of a message, in bytes.
    pub max_message_len: u32,
    /// Propose timeout while the pool holds at least
    /// `propose_timeout_threshold` transactions.
    pub min_propose_timeout: Milliseconds,
    /// Propose timeout while the pool holds fewer.
    pub max_propose_timeout: Milliseconds,
    /// Pool size from which `min_propose_timeout` is used.
    pub propose_timeout_threshold: u32,
}

impl ConsensusConfig {
    /// Default of `round_timeout_increase_pct`.
    pub const TIMEOUT_LINEAR_INCREASE_PERCENT: u64 = 10;

    /// Default of `max_message_len`: one mebibyte.
    pub const DEFAULT_MAX_MESSAGE_LEN: u32 = 1048576;
}

impl ConsensusConfig {
    /// The default consensus parameters.
    pub open spec fn spec_default() -> ConsensusConfig {
        ConsensusConfig {
            first_round_timeout: 3000,
            round_timeout_increase_pct: 10,
            status_timeout: 5000,
            peers_timeout: 10000,
            txs_block_limit: 1000,
            max_message_len: 1048576,
            min_propose_timeout: 10,
            max_propose_timeout: 200,
            propose_timeout_threshold: 500,
        }
    }
}

impl Default for ConsensusConfig {
    fn default() -> (c: Self)
        ensures
            c == ConsensusConfig::spec_default(),
    {
        ConsensusConfig {
            first_round_timeout: 3000,
            round_timeout_increase_pct: ConsensusConfig::TIMEOUT_LINEAR_INCREASE_PERCENT,
            status_timeout: 5000,
            peers_timeout: 10000,
            txs_block_limit: 1000,
            max_message_len: ConsensusConfig::DEFAULT_MAX_MESSAGE_LEN,
            min_propose_timeout: 10,
            max_propose_timeout: 200,
            propose_timeout_threshold: 500,
        }
    }
}

/// Configuration written into the genesis block.
#[derive(Debug)]
pub struct GenesisConfig {
    /// Consensus parameters.
    pub consensus: ConsensusConfig,
    /// Keys of the validators, in validator order.
    pub validator_keys: Vec<ValidatorKeys>,
}

impl GenesisConfig {
    /// A genesis configuration with the given validators and the default
    /// consensus parameters.
    pub fn new(validator_keys: Vec<ValidatorKeys>) -> (g: Self)
        ensures
            g.validator_keys == validator_keys,
            g.consensus == ConsensusConfig::spec_default(),
    {
        GenesisConfig { consensus: ConsensusConfig::default(), validator_keys }
    }

    /// A genesis configuration with the given validators and parameters.
    pub fn new_with_consensus(consensus: ConsensusConfig, validator_keys: Vec<ValidatorKeys>) -> (g:
        Self)
        ensures
            g.validator_keys == validator_keys,
            g.consensus == consensus,
    {
        GenesisConfig { consensus, validator_keys }
    }
}

impl Clone for GenesisConfig {
    fn clone(&self) -> (g: Self)
        ensures
            g.consensus == self.consensus,
            g.validator_keys@ == self.validator_keys@,
    {
        let keys = self.validator_keys.clone();
        assert(keys@ =~= self.validator_keys@);
        GenesisConfig { consensus: self.consensus, validator_keys: keys }
    }
}

/// The configuration in force at a height, as read from committed state.
#[derive(Debug)]
pub struct StoredConfiguration {
    /// First height at which this configuration is in force.
    pub actual_from: Height,
    /// Keys of the validators, in validator order.
    pub validator_keys: Vec<ValidatorKeys>,
    /// Consensus parameters.
    pub consensus: ConsensusConfig,
}

impl Clone for StoredConfiguration {
    fn clone(&self) -> (c: Self)
        ensures
            c.actual_from == self.actual_from,
            c.consensus == self.consensus,
            c.validator_keys@ == self.validator_keys@,
    {
        let keys = self.validator_keys.clone();
        assert(keys@ =~= self.validator_keys@);
        StoredConfiguration {
            actual_from: self.actual_from,
            validator_keys: keys,
            consensus: self.consensus,
        }
    }
}

/// Looks `key` up among the consensus keys of `keys`: the least index that
/// holds it, if any does.
pub fn validator_position(keys: &Vec<ValidatorKeys>, key: PublicKey) -> (r: Option<usize>)
    ensures
        match r {
            Some(i) => i < keys.len() && keys[i as int].consensus_key == key
                && forall|j: int| 0 <= j < i ==> keys[j].consensus_key != key,
            None => forall|j: int| 0 <= j < keys.len() ==> keys[j].consensus_key != key,
        },
{
    let mut i: usize = 0;
    while i < keys.len()
        invariant
            i <= keys.len(),
            forall|j: int| 0 <= j < i ==> keys[j].consensus_key != key,
        decreases keys.len() - i,
    {
        if keys[i].consensus_key == key {
            return Some(i);
        }
        i = i + 1;
    }
    None
}

} // verus!
