//! Small value types shared by every module: heights, rounds, validator
//! indices and durations.

use vstd::prelude::*;

verus! {

/// Number of milliseconds.
pub type Milliseconds = u64;

/// Index of a block in the chain. The genesis block has height 0.
#[derive(Clone, Copy, Debug, PartialEq, Eq, Structural, Hash)]
pub struct Height(pub u64);

impl Height {
    /// Height of the genesis block.
    pub fn zero() -> (h: Height)
        ensures
            h == Height(0),
    {
        Height(0)
    }

    /// The height that follows this one.
    pub fn next(self) -> (h: Height)
        requires
            self.0 < u64::MAX,
        ensures
            h.0 == self.0 + 1,
    {
        Height(self.0 + 1)
    }

    /// The height before this one; the genesis height is its own predecessor.
    pub fn previous(self) -> (h: Height)
        ensures
            h.0 == if self.0 == 0 { 0 } else { self.0 - 1 },
    {
        if self.0 == 0 {
            Height(0)
        } else {
            Height(self.0 - 1)
        }
    }
}

/// Attempt counter within one height. The first round of a height is round 1;
/// round 0 stands for "no round" (for example, "not locked").
#[derive(Clone, Copy, Debug, PartialEq, Eq, Structural, Hash)]
pub struct Round(pub u32);

impl Round {
    /// The value that stands for "no round".
    pub fn zero() -> (r: Round)
        ensures
            r == Round(0),
    {
        Round(0)
    }

    /// The first round of a height.
    pub fn first() -> (r: Round)
        ensures
            r == Round(1),
    {
        Round(1)
    }

    /// The round that follows this one.
    pub fn next(self) -> (r: Round)
        requires
            self.0 < u32::MAX,
        ensures
            r.0 == self.0 + 1,
    {
        Round(self.0 + 1)
    }

    /// The round before this one; round 0 is its own predecessor.
    pub fn previous(self) -> (r: Round)
        ensures
            r.0 == if self.0 == 0 { 0 } else { self.0 - 1 },
    {
        if self.0 == 0 {
            Round(0)
        } else {
            Round(self.0 - 1)
        }
    }
}

/// Position of a validator in the validator list of the current height.
#[derive(Clone, Copy, Debug, PartialEq, Eq, Structural, Hash)]
pub struct ValidatorId(pub u16);

} // verus!

verus! {

/// The name and version that the node gives of itself to its peers.
pub fn user_agent() -> (s: String)
    ensures
        s@ == "exonum-node 0.1.0"@,
{
    "exonum-node 0.1.0".to_owned()
}

/// What a node makes public of itself when a network is set up.
#[derive(Debug)]
pub struct NodePublicConfig {
    /// Address at which peers reach the node.
    pub address: String,
    /// Public keys of the node.
    pub validator_keys: crate::blockchain::config::ValidatorKeys,
}

/// What a node keeps to itself when a network is set up.
#[derive(Debug)]
pub struct NodePrivateConfig {
    /// Address that the node listens on.
    pub listen_address: String,
    /// Address at which peers reach the node.
    pub external_address: String,
    /// Consensus public key.
    pub consensus_public_key: crate::crypto::PublicKey,
    /// Service public key.
    pub service_public_key: crate::crypto::PublicKey,
}

} // verus!
