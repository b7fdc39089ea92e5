//! What the node holds in memory while it works on one height: the round,
//! the lock, the proposes and votes it has seen, its own votes, its
//! outstanding requests and its peers.

use vstd::prelude::*;
use vstd::set_lib::set_int_range;
use crate::blockchain::{ConsensusConfig, ExecutedBlock, StoredConfiguration, ValidatorKeys};
use crate::crypto::{self, PublicKey, SecretKey};
use crate::helpers::{Height, Milliseconds, Round, ValidatorId};
use crate::messages::{Connect, Precommit, Prevote, Propose, ProposeView, Signed, SignedView};
use crate::node::connect_list::{keys_unique, ConnectList, SharedConnectList};
use crate::node::ConnectInfo;
use crate::node::votes::{quorum, quorum_size, voters, VoteKey, VoteOutcome, VoteRecord, Votes, VotesView};

pub use crate::node::requests::{RequestData, RequestKey, Requests};

verus! {

/// The votes that the node itself has cast at this height.
#[derive(Debug)]
pub struct ValidatorState {
    /// Index of the node among the validators.
    pub id: ValidatorId,
    /// The prevotes of the node, in the order in which it cast them.
    pub our_prevotes: Vec<Prevote>,
    /// The precommits of the node, in the order in which it cast them.
    pub our_precommits: Vec<Precommit>,
    /// The last round in which the node proposed; 0 where it has not.
    pub proposed_round: Round,
}

/// The votes of the node, as a mathematical value.
pub struct ValidatorStateView {
    /// Index of the node among the validators.
    pub id: ValidatorId,
    /// The prevotes of the node.
    pub our_prevotes: Seq<Prevote>,
    /// The precommits of the node.
    pub our_precommits: Seq<Precommit>,
    /// The last round in which the node proposed; 0 where it has not.
    pub proposed_round: Round,
}

impl View for ValidatorState {
    type V = ValidatorStateView;

    open spec fn view(&self) -> ValidatorStateView {
        ValidatorStateView {
            id: self.id,
            our_prevotes: self.our_prevotes@,
            our_precommits: self.our_precommits@,
            proposed_round: self.proposed_round,
        }
    }
}

impl ValidatorStateView {
    /// The state of the validator `id` before it has voted or proposed.
    pub open spec fn fresh(id: ValidatorId) -> ValidatorStateView {
        ValidatorStateView {
            id,
            our_prevotes: Seq::empty(),
            our_precommits: Seq::empty(),
            proposed_round: Round(0),
        }
    }
}

impl ValidatorState {
    /// The state of a validator that has not voted.
    pub fn new(id: ValidatorId) -> (v: Self)
        ensures
            v@ == ValidatorStateView::fresh(id),
    {
        ValidatorState {
            id,
            our_prevotes: Vec::new(),
            our_precommits: Vec::new(),
            proposed_round: Round::zero(),
        }
    }

    /// Index of the node among the validators.
    pub fn id(&self) -> (id: ValidatorId)
        ensures
            id == self.id,
    {
        self.id
    }
}

/// A propose that the node knows, with what it has found out about it.
#[derive(Debug)]
pub struct ProposeState {
    /// The propose.
    pub propose: Signed<Propose>,
    /// The transactions of the propose that the node lacks, in the order of
    /// the propose.
    pub unknown_txs: Vec<crypto::Hash>,
    /// What executing the propose gave, once it is known.
    pub executed: Option<ExecutedBlock>,
    /// Whether the node has asked for the propose to be executed.
    pub execution_requested: bool,
}

/// A known propose, as a mathematical value.
pub struct ProposeStateView {
    /// The propose.
    pub propose: SignedView<ProposeView>,
    /// The transactions of the propose that the node lacks.
    pub unknown_txs: Seq<crypto::Hash>,
    /// What executing the propose gave, once it is known.
    pub executed: Option<ExecutedBlock>,
    /// Whether the node has asked for the propose to be executed.
    pub execution_requested: bool,
}

impl View for ProposeState {
    type V = ProposeStateView;

    open spec fn view(&self) -> ProposeStateView {
        ProposeStateView {
            propose: self.propose@,
            unknown_txs: self.unknown_txs@,
            executed: self.executed,
            execution_requested: self.execution_requested,
        }
    }
}

/// The hashes other than `gone`.
pub open spec fn other_than(gone: crypto::Hash) -> spec_fn(crypto::Hash) -> bool {
    |h: crypto::Hash| h != gone
}

impl ProposeStateView {
    /// Whether the node has every transaction of the propose.
    pub open spec fn is_complete(self) -> bool {
        self.unknown_txs.len() == 0
    }

    /// The propose once the transaction `tx` is known.
    pub open spec fn tx_arrived(self, tx: crypto::Hash) -> ProposeStateView {
        ProposeStateView { unknown_txs: self.unknown_txs.filter(other_than(tx)), ..self }
    }

    /// Whether the transaction `tx` is the last that the propose waits for.
    pub open spec fn completed_by(self, tx: crypto::Hash) -> bool {
        !self.is_complete() && self.tx_arrived(tx).is_complete()
    }
}

impl ProposeState {
    /// Whether the node has every transaction of the propose.
    pub fn is_complete(&self) -> (b: bool)
        ensures
            b == self@.is_complete(),
    {
        self.unknown_txs.len() == 0
    }

    /// Hash of the propose.
    pub fn hash(&self) -> (h: crypto::Hash)
        ensures
            h == self@.propose.hash,
    {
        self.propose.hash
    }
}

/// The views of `proposes`, in order.
pub open spec fn proposes_view(proposes: Seq<ProposeState>) -> Seq<ProposeStateView> {
    proposes.map_values(|p: ProposeState| p@)
}

/// The record that stands for the prevote `p` in the accumulator.
pub open spec fn prevote_key(p: Prevote) -> VoteKey {
    VoteKey { round: p.round, propose_hash: p.propose_hash, block_hash: crypto::Hash(0, 0, 0, 0) }
}

/// The record that stands for the precommit `p` in the accumulator.
pub open spec fn precommit_key(p: Precommit) -> VoteKey {
    VoteKey { round: p.round, propose_hash: p.propose_hash, block_hash: p.block_hash }
}

/// The leader of the round `round` at the height `height` among `n`
/// validators: the validator at the place `(height + round) mod n`.
pub open spec fn leader_of(height: Height, round: Round, n: nat) -> ValidatorId {
    ValidatorId(((height.0 + round.0) % (n as int)) as u16)
}

/// The state of the node.
#[derive(Debug)]
pub struct State {
    /// The node's own votes, where it is a validator.
    pub validator_state: Option<ValidatorState>,
    /// The advertisement of the node's address.
    pub our_connect_message: Connect,
    /// Consensus public key of the node.
    pub consensus_public_key: PublicKey,
    /// Consensus secret key of the node.
    pub consensus_secret_key: SecretKey,
    /// Service public key of the node.
    pub service_public_key: PublicKey,
    /// Service secret key of the node.
    pub service_secret_key: SecretKey,
    /// The configuration in force at this height.
    pub config: StoredConfiguration,
    /// Peers that the node accepts.
    pub connect_list: SharedConnectList,
    /// Advertisements of the connected peers, one for each author.
    pub peers: Vec<Signed<Connect>>,
    /// Height that the node works on.
    pub height: Height,
    /// When the node began to work on this height.
    pub height_start_time: Milliseconds,
    /// Current round.
    pub round: Round,
    /// Round at which the node is locked; 0 when it is not.
    pub locked_round: Round,
    /// Propose on which the node is locked.
    pub locked_propose: Option<crypto::Hash>,
    /// Hash of the last committed block.
    pub last_hash: crypto::Hash,
    /// The proposes known for this height, in the order in which they came.
    pub proposes: Vec<ProposeState>,
    /// The prevotes seen for this height.
    pub prevotes: Votes<Prevote>,
    /// The precommits seen for this height.
    pub precommits: Votes<Precommit>,
    /// The outstanding requests.
    pub requests: Requests,
}

/// The state of the node, as a mathematical value.
pub struct StateView {
    /// The node's own votes, where it is a validator.
    pub validator_state: Option<ValidatorStateView>,
    /// The advertisement of the node's address.
    pub our_connect_message: Connect,
    /// Consensus public key of the node.
    pub consensus_public_key: PublicKey,
    /// Consensus secret key of the node.
    pub consensus_secret_key: SecretKey,
    /// Service public key of the node.
    pub service_public_key: PublicKey,
    /// Service secret key of the node.
    pub service_secret_key: SecretKey,
    /// Keys of the validators, in validator order.
    pub validators: Seq<ValidatorKeys>,
    /// Consensus parameters.
    pub consensus: ConsensusConfig,
    /// Peers that the node accepts.
    pub connect_list: Seq<ConnectInfo>,
    /// Advertisements of the connected peers.
    pub peers: Seq<Signed<Connect>>,
    /// Height that the node works on.
    pub height: Height,
    /// When the node began to work on this height.
    pub height_start_time: Milliseconds,
    /// Current round.
    pub round: Round,
    /// Round at which the node is locked; 0 when it is not.
    pub locked_round: Round,
    /// Propose on which the node is locked.
    pub locked_propose: Option<crypto::Hash>,
    /// Hash of the last committed block.
    pub last_hash: crypto::Hash,
    /// The proposes known for this height.
    pub proposes: Seq<ProposeStateView>,
    /// The prevotes seen for this height.
    pub prevotes: VotesView<Prevote>,
    /// The precommits seen for this height.
    pub precommits: VotesView<Precommit>,
    /// For everything that is asked for, the peers that can be asked.
    pub requests: Map<RequestKey, Seq<PublicKey>>,
}

impl View for State {
    type V = StateView;

    open spec fn view(&self) -> StateView {
        StateView {
            validator_state: match self.validator_state {
                Some(v) => Some(v@),
                None => None,
            },
            our_connect_message: self.our_connect_message,
            consensus_public_key: self.consensus_public_key,
            consensus_secret_key: self.consensus_secret_key,
            service_public_key: self.service_public_key,
            service_secret_key: self.service_secret_key,
            validators: self.config.validator_keys@,
            consensus: self.config.consensus,
            connect_list: self.connect_list.peers@,
            peers: self.peers@,
            height: self.height,
            height_start_time: self.height_start_time,
            round: self.round,
            locked_round: self.locked_round,
            locked_propose: self.locked_propose,
            last_hash: self.last_hash,
            proposes: proposes_view(self.proposes@),
            prevotes: self.prevotes@,
            precommits: self.precommits@,
            requests: self.requests@,
        }
    }
}

/// No two of the prevotes `votes` are of the same round.
pub open spec fn prevotes_once(votes: Seq<Prevote>) -> bool {
    forall|i: int, j: int|
        0 <= i < j < votes.len() ==> (#[trigger] votes[i]).round != (#[trigger] votes[j]).round
}

/// No two of the precommits `votes` are of the same round.
pub open spec fn precommits_once(votes: Seq<Precommit>) -> bool {
    forall|i: int, j: int|
        0 <= i < j < votes.len() ==> (#[trigger] votes[i]).round != (#[trigger] votes[j]).round
}

/// Place of a prevote of the round `round` in `votes`.
pub open spec fn prevote_index(votes: Seq<Prevote>, round: Round) -> int {
    choose|i: int| 0 <= i < votes.len() && (#[trigger] votes[i]).round == round
}

/// The prevote of the round `round` in `votes`, if there is one.
pub open spec fn prevote_of_round(votes: Seq<Prevote>, round: Round) -> Option<Prevote> {
    if exists|i: int| 0 <= i < votes.len() && (#[trigger] votes[i]).round == round {
        Some(votes[prevote_index(votes, round)])
    } else {
        None
    }
}

/// Place of a precommit of the round `round` in `votes`.
pub open spec fn precommit_index(votes: Seq<Precommit>, round: Round) -> int {
    choose|i: int| 0 <= i < votes.len() && (#[trigger] votes[i]).round == round
}

/// The precommit of the round `round` in `votes`, if there is one.
pub open spec fn precommit_of_round(votes: Seq<Precommit>, round: Round) -> Option<Precommit> {
    if exists|i: int| 0 <= i < votes.len() && (#[trigger] votes[i]).round == round {
        Some(votes[precommit_index(votes, round)])
    } else {
        None
    }
}

/// No two of the advertisements `peers` are of the same author.
pub open spec fn authors_unique(peers: Seq<Signed<Connect>>) -> bool {
    forall|i: int, j: int|
        0 <= i < j < peers.len() ==> (#[trigger] peers[i]).author != (#[trigger] peers[j]).author
}

impl StateView {
    /// Number of validators.
    pub open spec fn n(self) -> nat {
        self.validators.len()
    }

    /// Number of validators that makes a quorum.
    pub open spec fn quorum(self) -> nat {
        quorum(self.n())
    }

    /// Whether the node is a validator.
    pub open spec fn is_validator(self) -> bool {
        self.validator_state is Some
    }

    /// The leader of the round `round` at the current height.
    pub open spec fn leader(self, round: Round) -> ValidatorId {
        leader_of(self.height, round, self.n())
    }

    /// Whether the node is the validator `validator`.
    pub open spec fn is_own(self, validator: ValidatorId) -> bool {
        self.validator_state matches Some(v) && v.id == validator
    }

    /// Whether `author` is the consensus key of the validator `validator`.
    pub open spec fn valid_author(self, validator: ValidatorId, author: PublicKey) -> bool {
        validator.0 < self.n() && self.validators[validator.0 as int].consensus_key == author
    }

    /// Whether the node is the leader of the current round.
    pub open spec fn is_leader(self) -> bool {
        self.validator_state matches Some(v) && self.n() > 0 && v.id == self.leader(self.round)
    }

    /// The invariant of the state. There are at most 65536 validators. The
    /// node's own index is one of theirs; its own votes are of this height and
    /// bear its index; and it has cast at most one prevote and at most one
    /// precommit in a round. The accumulators hold each vote once, every held
    /// vote is of this height and of a validator, and stands under the
    /// subject that its message names. The connect list has each key once and
    /// the peers have each author once. A propose of which the outcome is
    /// known lacks no transaction, and no two proposes have the same hash.
    pub open spec fn wf(self) -> bool {
        &&& self.n() <= 0x1_0000
        &&& self.validator_state matches Some(v) ==> {
            &&& v.id.0 < self.n()
            &&& prevotes_once(v.our_prevotes)
            &&& precommits_once(v.our_precommits)
            &&& forall|i: int|
                0 <= i < v.our_prevotes.len() ==> (#[trigger] v.our_prevotes[i]).validator == v.id
                    && v.our_prevotes[i].height == self.height
            &&& forall|i: int|
                0 <= i < v.our_precommits.len() ==> (#[trigger] v.our_precommits[i]).validator
                    == v.id && v.our_precommits[i].height == self.height
        }
        &&& self.prevotes.wf()
        &&& self.precommits.wf()
        &&& forall|i: int|
            0 <= i < self.prevotes.records.len() ==> {
                let m = (#[trigger] self.prevotes.messages[i]).payload;
                &&& self.prevotes.records[i] == (VoteRecord {
                    validator: m.validator,
                    key: prevote_key(m),
                })
                &&& m.height == self.height
                &&& m.validator.0 < self.n()
            }
        &&& forall|i: int|
            0 <= i < self.precommits.records.len() ==> {
                let m = (#[trigger] self.precommits.messages[i]).payload;
                &&& self.precommits.records[i] == (VoteRecord {
                    validator: m.validator,
                    key: precommit_key(m),
                })
                &&& m.height == self.height
                &&& m.validator.0 < self.n()
            }
        &&& keys_unique(self.connect_list)
        &&& authors_unique(self.peers)
        &&& forall|i: int|
            0 <= i < self.proposes.len() ==> ((#[trigger] self.proposes[i]).executed is Some
                ==> self.proposes[i].is_complete())
        &&& forall|i: int, j: int|
            0 <= i < j < self.proposes.len() ==> (#[trigger] self.proposes[i]).propose.hash != (
            #[trigger] self.proposes[j]).propose.hash
    }

    /// Whether the node knows a propose with the hash `hash`.
    pub open spec fn has_propose(self, hash: crypto::Hash) -> bool {
        exists|i: int| 0 <= i < self.proposes.len() && (#[trigger] self.proposes[i]).propose.hash
            == hash
    }

    /// Place of the first known propose with the hash `hash`.
    pub open spec fn propose_index(self, hash: crypto::Hash) -> int {
        choose|i: int|
            0 <= i < self.proposes.len() && (#[trigger] self.proposes[i]).propose.hash == hash
                && forall|j: int| 0 <= j < i ==> (#[trigger] self.proposes[j]).propose.hash != hash
    }

    /// The known propose with the hash `hash`.
    pub open spec fn propose(self, hash: crypto::Hash) -> Option<ProposeStateView> {
        if self.has_propose(hash) {
            Some(self.proposes[self.propose_index(hash)])
        } else {
            None
        }
    }

    /// Whether the node knows the propose `hash` and has all its
    /// transactions.
    pub open spec fn has_complete_propose(self, hash: crypto::Hash) -> bool {
        self.propose(hash) matches Some(p) && p.is_complete()
    }

    /// What executing the propose `hash` gave, where the node knows it.
    pub open spec fn executed(self, hash: crypto::Hash) -> Option<ExecutedBlock> {
        match self.propose(hash) {
            Some(p) => p.executed,
            None => None,
        }
    }

    /// The state after the propose `p` came: it is added unless one with its
    /// hash is known.
    pub open spec fn with_propose(self, p: ProposeStateView) -> StateView {
        if self.has_propose(p.propose.hash) {
            self
        } else {
            StateView { proposes: self.proposes.push(p), ..self }
        }
    }

    /// The state after executing the propose `hash` gave `block`. The first
    /// outcome that becomes known of a propose stays, and none is noted of a
    /// propose that lacks a transaction.
    pub open spec fn with_executed(self, hash: crypto::Hash, block: ExecutedBlock) -> StateView {
        match self.propose(hash) {
            Some(p) => if p.executed is None && p.is_complete() {
                StateView {
                    proposes: self.proposes.update(
                        self.propose_index(hash),
                        ProposeStateView { executed: Some(block), ..p },
                    ),
                    ..self
                }
            } else {
                self
            },
            None => self,
        }
    }

    /// The state after the node asked for the propose `hash` to be executed.
    pub open spec fn with_execution_requested(self, hash: crypto::Hash) -> StateView {
        match self.propose(hash) {
            Some(p) => StateView {
                proposes: self.proposes.update(
                    self.propose_index(hash),
                    ProposeStateView { execution_requested: true, ..p },
                ),
                ..self
            },
            None => self,
        }
    }

    /// The state after the transaction `tx` became known.
    pub open spec fn tx_arrived(self, tx: crypto::Hash) -> StateView {
        StateView {
            proposes: self.proposes.map_values(|p: ProposeStateView| p.tx_arrived(tx)),
            ..self
        }
    }

    /// The hashes of the proposes that waited for the transaction `tx` and
    /// for no other, in the order in which the proposes came.
    pub open spec fn completed_by(self, tx: crypto::Hash) -> Seq<crypto::Hash> {
        self.proposes.filter(|p: ProposeStateView| p.completed_by(tx)).map_values(
            |p: ProposeStateView| p.propose.hash,
        )
    }

    /// The number of validators that prevoted the propose `hash` in the round
    /// `round`.
    pub open spec fn prevotes_for(self, round: Round, hash: crypto::Hash) -> nat {
        self.prevotes.votes_for(
            VoteKey { round, propose_hash: hash, block_hash: crypto::Hash(0, 0, 0, 0) },
        )
    }

    /// Whether a quorum prevoted the propose `hash` in the round `round`.
    pub open spec fn has_majority_prevotes(self, round: Round, hash: crypto::Hash) -> bool {
        self.prevotes_for(round, hash) >= self.quorum()
    }

    /// Whether a quorum precommitted `key`.
    pub open spec fn has_majority_precommits(self, key: VoteKey) -> bool {
        self.precommits.votes_for(key) >= self.quorum()
    }

    /// The state after the prevote `msg` came.
    pub open spec fn with_prevote(self, msg: Signed<Prevote>) -> StateView {
        StateView {
            prevotes: self.prevotes.add(msg.payload.validator, prevote_key(msg.payload), msg),
            ..self
        }
    }

    /// The state after the precommit `msg` came.
    pub open spec fn with_precommit(self, msg: Signed<Precommit>) -> StateView {
        StateView {
            precommits: self.precommits.add(
                msg.payload.validator,
                precommit_key(msg.payload),
                msg,
            ),
            ..self
        }
    }

    /// The prevote that the node cast in the round `round`, if it cast one.
    pub open spec fn our_prevote(self, round: Round) -> Option<Prevote> {
        match self.validator_state {
            Some(v) => prevote_of_round(v.our_prevotes, round),
            None => None,
        }
    }

    /// The precommit that the node cast in the round `round`, if it cast one.
    pub open spec fn our_precommit(self, round: Round) -> Option<Precommit> {
        match self.validator_state {
            Some(v) => precommit_of_round(v.our_precommits, round),
            None => None,
        }
    }

    /// Whether the prevote `p` is one that the node takes for the prevote of
    /// the validator that it names: one that names the node itself must be the
    /// prevote that the node remembers to have cast in that round, for the same
    /// propose.
    pub open spec fn remembers_prevote(self, p: Prevote) -> bool {
        !self.is_own(p.validator) || match self.our_prevote(p.round) {
            Some(q) => q.propose_hash == p.propose_hash,
            None => false,
        }
    }

    /// Whether the precommit `p` is one that the node takes for the
    /// precommit of the validator that it names: one that names the node itself
    /// must be the precommit that the node remembers to have cast in that
    /// round, for the same propose and block.
    pub open spec fn remembers_precommit(self, p: Precommit) -> bool {
        !self.is_own(p.validator) || match self.our_precommit(p.round) {
            Some(q) => q.propose_hash == p.propose_hash && q.block_hash == p.block_hash,
            None => false,
        }
    }

    /// The state after the node cast the prevote `p`: it is noted unless the
    /// node is no validator or has a prevote of that round already.
    pub open spec fn with_our_prevote(self, p: Prevote) -> StateView {
        match self.validator_state {
            Some(v) => if self.our_prevote(p.round) is None {
                StateView {
                    validator_state: Some(
                        ValidatorStateView { our_prevotes: v.our_prevotes.push(p), ..v },
                    ),
                    ..self
                }
            } else {
                self
            },
            None => self,
        }
    }

    /// The state after the node cast the precommit `p`: it is noted unless
    /// the node is no validator or has a precommit of that round already.
    pub open spec fn with_our_precommit(self, p: Precommit) -> StateView {
        match self.validator_state {
            Some(v) => if self.our_precommit(p.round) is None {
                StateView {
                    validator_state: Some(
                        ValidatorStateView { our_precommits: v.our_precommits.push(p), ..v },
                    ),
                    ..self
                }
            } else {
                self
            },
            None => self,
        }
    }

    /// Whether the own prevote at `i` is of a round after `round` and for
    /// another propose than `hash`.
    pub open spec fn incompatible_at(self, round: Round, hash: crypto::Hash, i: int) -> bool {
        &&& self.validator_state matches Some(v)
        &&& 0 <= i < v.our_prevotes.len()
        &&& v.our_prevotes[i].round.0 > round.0
        &&& v.our_prevotes[i].propose_hash != hash
    }

    /// Whether the node has prevoted, in a round after `round`, another
    /// propose than `hash`. A node that has must not precommit `hash` in the
    /// round `round` any more.
    pub open spec fn has_incompatible_prevote(self, round: Round, hash: crypto::Hash) -> bool {
        exists|i: int| self.incompatible_at(round, hash, i)
    }

    /// Whether the own precommit at `i` is for the propose `hash` with
    /// another block than `block_hash`.
    pub open spec fn other_block_at(self, hash: crypto::Hash, block_hash: crypto::Hash, i: int) -> bool {
        &&& self.validator_state matches Some(v)
        &&& 0 <= i < v.our_precommits.len()
        &&& v.our_precommits[i].propose_hash == hash
        &&& v.our_precommits[i].block_hash != block_hash
    }

    /// Whether the node has precommitted the propose `hash` with another
    /// block than `block_hash`. A node that has must not precommit the propose
    /// with `block_hash`.
    pub open spec fn has_other_block(self, hash: crypto::Hash, block_hash: crypto::Hash) -> bool {
        exists|i: int| self.other_block_at(hash, block_hash, i)
    }

    /// The last round in which the node proposed; 0 where it has not or is no
    /// validator.
    pub open spec fn proposed_round(self) -> Round {
        match self.validator_state {
            Some(v) => v.proposed_round,
            None => Round(0),
        }
    }

    /// The state after the node proposed in the round `round`.
    pub open spec fn with_proposed(self, round: Round) -> StateView {
        match self.validator_state {
            Some(v) => StateView {
                validator_state: Some(ValidatorStateView { proposed_round: round, ..v }),
                ..self
            },
            None => self,
        }
    }

    /// The state after the node locked on the propose `hash` at the round
    /// `round`.
    pub open spec fn with_lock(self, round: Round, hash: crypto::Hash) -> StateView {
        StateView { locked_round: round, locked_propose: Some(hash), ..self }
    }

    /// The state after the node went to the round `round`.
    pub open spec fn with_round(self, round: Round) -> StateView {
        StateView { round, ..self }
    }

    /// The state at the start of the height after the current one, which
    /// began at `time` and follows the block `block_hash`: round 1, no lock,
    /// no proposes, no votes, no requests.
    pub open spec fn new_height(self, block_hash: crypto::Hash, time: Milliseconds) -> StateView {
        StateView {
            validator_state: match self.validator_state {
                Some(v) => Some(ValidatorStateView::fresh(v.id)),
                None => None,
            },
            height: Height((self.height.0 + 1) as u64),
            height_start_time: time,
            round: Round(1),
            locked_round: Round(0),
            locked_propose: None,
            last_hash: block_hash,
            proposes: Seq::empty(),
            prevotes: VotesView { records: Seq::empty(), messages: Seq::empty() },
            precommits: VotesView { records: Seq::empty(), messages: Seq::empty() },
            requests: Map::empty(),
            ..self
        }
    }

    /// Whether a peer with the key `key` is connected.
    pub open spec fn has_peer(self, key: PublicKey) -> bool {
        exists|i: int| 0 <= i < self.peers.len() && (#[trigger] self.peers[i]).author == key
    }

    /// Place of the connected peer with the key `key`.
    pub open spec fn peer_index(self, key: PublicKey) -> int {
        choose|i: int| 0 <= i < self.peers.len() && (#[trigger] self.peers[i]).author == key
    }

    /// The state after the peer that sent the advertisement `connect`
    /// connected: the advertisement takes the place of the one that the state
    /// holds of its author, or comes last.
    pub open spec fn with_peer(self, connect: Signed<Connect>) -> StateView {
        if self.has_peer(connect.author) {
            StateView {
                peers: self.peers.update(self.peer_index(connect.author), connect),
                ..self
            }
        } else {
            StateView { peers: self.peers.push(connect), ..self }
        }
    }

    /// The state after the peer with the key `key` went away.
    pub open spec fn without_peer(self, key: PublicKey) -> StateView {
        if self.has_peer(key) {
            StateView { peers: self.peers.remove(self.peer_index(key)), ..self }
        } else {
            self
        }
    }

    /// Whether the node can lock on the propose `hash` at the round `round`:
    /// the round is after the one at which the node is locked, and a quorum
    /// prevoted the propose in it.
    pub open spec fn can_lock_at(self, hash: crypto::Hash, round: Round) -> bool {
        round.0 > self.locked_round.0 && self.has_majority_prevotes(round, hash)
    }

    /// The last round at which the node can lock on the propose `hash`.
    pub open spec fn lock_round(self, hash: crypto::Hash) -> Option<Round> {
        if exists|r: Round| self.can_lock_at(hash, r) {
            Some(
                choose|r: Round| #[trigger]
                    self.can_lock_at(hash, r) && forall|q: Round| #[trigger]
                        self.can_lock_at(hash, q) ==> q.0 <= r.0,
            )
        } else {
            None
        }
    }

    /// Whether the precommit at `i` is for the propose `hash` with the block
    /// `block_hash`, and a quorum precommitted the same.
    pub open spec fn commits_at(self, hash: crypto::Hash, block_hash: crypto::Hash, i: int) -> bool {
        &&& 0 <= i < self.precommits.records.len()
        &&& self.precommits.records[i].key.propose_hash == hash
        &&& self.precommits.records[i].key.block_hash == block_hash
        &&& self.has_majority_precommits(self.precommits.records[i].key)
    }

    /// What a quorum precommitted for the propose `hash` with the block
    /// `block_hash`: the subject of the first such precommit that came.
    pub open spec fn commit_key(self, hash: crypto::Hash, block_hash: crypto::Hash) -> Option<
        VoteKey,
    > {
        if exists|i: int| self.commits_at(hash, block_hash, i) {
            let first = choose|i: int| #[trigger]
                self.commits_at(hash, block_hash, i) && forall|j: int|
                    0 <= j < i ==> !self.commits_at(hash, block_hash, j);
            Some(self.precommits.records[first].key)
        } else {
            None
        }
    }

    /// Whether the precommit at `i` is for the propose `hash`, with whatever
    /// block, and a quorum precommitted the same.
    pub open spec fn precommitted_at(self, hash: crypto::Hash, i: int) -> bool {
        &&& 0 <= i < self.precommits.records.len()
        &&& self.precommits.records[i].key.propose_hash == hash
        &&& self.has_majority_precommits(self.precommits.records[i].key)
    }

    /// Whether a quorum precommitted the propose `hash`, with whatever block.
    pub open spec fn has_precommit_quorum(self, hash: crypto::Hash) -> bool {
        exists|i: int| self.precommitted_at(hash, i)
    }

    /// Whether the propose at `i` is of the round `round` and lacks no
    /// transaction.
    pub open spec fn complete_at(self, round: Round, i: int) -> bool {
        &&& 0 <= i < self.proposes.len()
        &&& self.proposes[i].propose.payload.round == round
        &&& self.proposes[i].is_complete()
    }

    /// The hash of the first propose of the round `round` that lacks no
    /// transaction.
    pub open spec fn first_complete_propose(self, round: Round) -> Option<crypto::Hash> {
        if exists|i: int| self.complete_at(round, i) {
            let first = choose|i: int| #[trigger]
                self.complete_at(round, i) && forall|j: int|
                    0 <= j < i ==> !self.complete_at(round, j);
            Some(self.proposes[first].propose.hash)
        } else {
            None
        }
    }

    /// The validators, by index, that prevoted the propose `hash` in the
    /// round `round`.
    pub open spec fn prevoters(self, round: Round, hash: crypto::Hash) -> Set<int> {
        voters(
            self.prevotes.records,
            VoteKey { round, propose_hash: hash, block_hash: crypto::Hash(0, 0, 0, 0) },
        )
    }

    /// The validators, by index, that precommitted `key`.
    pub open spec fn precommitters(self, key: VoteKey) -> Set<int> {
        voters(self.precommits.records, key)
    }
}

/// In a state that meets its invariant, the voters for any subject are
/// validators.
pub proof fn lemma_voters_are_validators(s: StateView, key: VoteKey)
    requires
        s.wf(),
    ensures
        voters(s.prevotes.records, key).subset_of(set_int_range(0, s.n() as int)),
        voters(s.precommits.records, key).subset_of(set_int_range(0, s.n() as int)),
{
    assert forall|v: int| voters(s.prevotes.records, key).contains(v) implies set_int_range(
        0,
        s.n() as int,
    ).contains(v) by {
        let r = VoteRecord { validator: ValidatorId(v as u16), key };
        let i = choose|i: int| 0 <= i < s.prevotes.records.len() && s.prevotes.records[i] == r;
        assert(s.prevotes.messages[i].payload.validator.0 < s.n());
    }
    assert forall|v: int| voters(s.precommits.records, key).contains(v) implies set_int_range(
        0,
        s.n() as int,
    ).contains(v) by {
        let r = VoteRecord { validator: ValidatorId(v as u16), key };
        let i = choose|i: int| 0 <= i < s.precommits.records.len() && s.precommits.records[i] == r;
        assert(s.precommits.messages[i].payload.validator.0 < s.n());
    }
}

impl State {
    /// The invariant of the state.
    pub open spec fn wf(&self) -> bool {
        &&& self@.wf()
        &&& self.requests.wf()
    }

    /// The state of a node that starts to work on the height `last_height`
    /// at the time `height_start_time`: round 0, no lock, nothing seen.
    pub fn new(
        validator_id: Option<ValidatorId>,
        consensus_public_key: PublicKey,
        consensus_secret_key: SecretKey,
        service_public_key: PublicKey,
        service_secret_key: SecretKey,
        connect_list: ConnectList,
        stored: StoredConfiguration,
        connect: Connect,
        peers: Vec<Signed<Connect>>,
        last_hash: crypto::Hash,
        last_height: Height,
        height_start_time: Milliseconds,
    ) -> (state: Self)
        requires
            stored.validator_keys@.len() <= 0x1_0000,
            validator_id matches Some(id) ==> id.0 < stored.validator_keys@.len(),
            connect_list.wf(),
            authors_unique(peers@),
        ensures
            state.wf(),
            state@ == (StateView {
                validator_state: match validator_id {
                    Some(id) => Some(ValidatorStateView::fresh(id)),
                    None => None,
                },
                our_connect_message: connect,
                consensus_public_key,
                consensus_secret_key,
                service_public_key,
                service_secret_key,
                validators: stored.validator_keys@,
                consensus: stored.consensus,
                connect_list: connect_list.peers@,
                peers: peers@,
                height: last_height,
                height_start_time,
                round: Round(0),
                locked_round: Round(0),
                locked_propose: None,
                last_hash,
                proposes: Seq::empty(),
                prevotes: VotesView { records: Seq::empty(), messages: Seq::empty() },
                precommits: VotesView { records: Seq::empty(), messages: Seq::empty() },
                requests: Map::empty(),
            }),
    {
        let validator_state = match validator_id {
            Some(id) => Some(ValidatorState::new(id)),
            None => None,
        };
        let state = State {
            validator_state,
            our_connect_message: connect,
            consensus_public_key,
            consensus_secret_key,
            service_public_key,
            service_secret_key,
            config: stored,
            connect_list,
            peers,
            height: last_height,
            height_start_time,
            round: Round::zero(),
            locked_round: Round::zero(),
            locked_propose: None,
            last_hash,
            proposes: Vec::new(),
            prevotes: Votes::new(),
            precommits: Votes::new(),
            requests: Requests::new(),
        };
        proof {
            assert(state@.proposes =~= Seq::empty());
            assert(state@.prevotes.records =~= Seq::empty());
            assert(state@.prevotes.messages =~= Seq::empty());
            assert(state@.precommits.records =~= Seq::empty());
            assert(state@.precommits.messages =~= Seq::empty());
        }
        state
    }

    /// Whether the node is a validator.
    pub fn is_validator(&self) -> (b: bool)
        ensures
            b == self@.is_validator(),
    {
        self.validator_state.is_some()
    }

    /// Index of the node among the validators, where it is one.
    pub fn validator_id(&self) -> (id: Option<ValidatorId>)
        ensures
            id == match self@.validator_state {
                Some(v) => Some(v.id),
                None => None,
            },
    {
        match &self.validator_state {
            Some(v) => Some(v.id),
            None => None,
        }
    }

    /// Keys of the validators, in validator order.
    pub fn validators(&self) -> (v: &Vec<ValidatorKeys>)
        ensures
            v@ == self@.validators,
    {
        &self.config.validator_keys
    }

    /// Consensus parameters.
    pub fn consensus_config(&self) -> (c: &ConsensusConfig)
        ensures
            *c == self@.consensus,
    {
        &self.config.consensus
    }

    /// Number of validators that makes a quorum.
    pub fn majority_count(&self) -> (q: u64)
        requires
            self.wf(),
        ensures
            q == self@.quorum(),
    {
        quorum_size(self.config.validator_keys.len())
    }

    /// Height that the node works on.
    pub fn height(&self) -> (h: Height)
        ensures
            h == self@.height,
    {
        self.height
    }

    /// When the node began to work on this height.
    pub fn height_start_time(&self) -> (t: Milliseconds)
        ensures
            t == self@.height_start_time,
    {
        self.height_start_time
    }

    /// Current round.
    pub fn round(&self) -> (r: Round)
        ensures
            r == self@.round,
    {
        self.round
    }

    /// Round at which the node is locked; 0 when it is not.
    pub fn locked_round(&self) -> (r: Round)
        ensures
            r == self@.locked_round,
    {
        self.locked_round
    }

    /// Propose on which the node is locked.
    pub fn locked_propose(&self) -> (h: Option<crypto::Hash>)
        ensures
            h == self@.locked_propose,
    {
        self.locked_propose
    }

    /// Hash of the last committed block.
    pub fn last_hash(&self) -> (h: crypto::Hash)
        ensures
            h == self@.last_hash,
    {
        self.last_hash
    }

    /// The advertisement of the node's address.
    pub fn our_connect_message(&self) -> (c: &Connect)
        ensures
            *c == self@.our_connect_message,
    {
        &self.our_connect_message
    }

    /// Consensus public key of the node.
    pub fn consensus_public_key(&self) -> (k: &PublicKey)
        ensures
            *k == self@.consensus_public_key,
    {
        &self.consensus_public_key
    }

    /// Consensus secret key of the node.
    pub fn consensus_secret_key(&self) -> (k: &SecretKey)
        ensures
            *k == self@.consensus_secret_key,
    {
        &self.consensus_secret_key
    }

    /// Service public key of the node.
    pub fn service_public_key(&self) -> (k: &PublicKey)
        ensures
            *k == self@.service_public_key,
    {
        &self.service_public_key
    }

    /// Service secret key of the node.
    pub fn service_secret_key(&self) -> (k: &SecretKey)
        ensures
            *k == self@.service_secret_key,
    {
        &self.service_secret_key
    }

    /// Advertisements of the connected peers.
    pub fn peers(&self) -> (p: &Vec<Signed<Connect>>)
        ensures
            p@ == self@.peers,
    {
        &self.peers
    }

    /// Peers that the node accepts.
    pub fn connect_list(&self) -> (l: &SharedConnectList)
        ensures
            l.peers@ == self@.connect_list,
    {
        &self.connect_list
    }

    /// Whether `author` is the consensus key of the validator `validator`.
    pub fn valid_author(&self, validator: ValidatorId, author: PublicKey) -> (b: bool)
        ensures
            b == self@.valid_author(validator, author),
    {
        (validator.0 as usize) < self.config.validator_keys.len()
            && self.config.validator_keys[validator.0 as usize].consensus_key == author
    }

    /// The leader of the round `round` at the current height.
    pub fn leader(&self, round: Round) -> (id: ValidatorId)
        requires
            self.wf(),
            self@.n() > 0,
        ensures
            id == self@.leader(round),
    {
        let n = self.config.validator_keys.len() as u128;
        let at = (self.height.0 as u128 + round.0 as u128) % n;
        ValidatorId(at as u16)
    }

    /// Whether the node is the leader of the current round.
    pub fn is_leader(&self) -> (b: bool)
        requires
            self.wf(),
        ensures
            b == self@.is_leader(),
    {
        match &self.validator_state {
            Some(v) => self.config.validator_keys.len() > 0 && v.id == self.leader(self.round),
            None => false,
        }
    }

    /// Goes to the round `round`.
    pub fn jump_round(&mut self, round: Round)
        requires
            old(self).wf(),
        ensures
            final(self).wf(),
            final(self)@ == old(self)@.with_round(round),
    {
        self.round = round;
    }

    /// Locks on the propose `hash` at the round `round`.
    pub fn lock(&mut self, round: Round, hash: crypto::Hash)
        requires
            old(self).wf(),
        ensures
            final(self).wf(),
            final(self)@ == old(self)@.with_lock(round, hash),
    {
        self.locked_round = round;
        self.locked_propose = Some(hash);
    }

    /// Starts the height after the current one.
    pub fn new_height(&mut self, block_hash: crypto::Hash, height_start_time: Milliseconds)
        requires
            old(self).wf(),
            old(self)@.height.0 < u64::MAX,
        ensures
            final(self).wf(),
            final(self)@ == old(self)@.new_height(block_hash, height_start_time),
    {
        self.height = Height(self.height.0 + 1);
        self.height_start_time = height_start_time;
        self.round = Round::first();
        self.locked_round = Round::zero();
        self.locked_propose = None;
        self.last_hash = block_hash;
        self.proposes = Vec::new();
        self.prevotes = Votes::new();
        self.precommits = Votes::new();
        self.requests = Requests::new();
        let id = self.validator_id();
        self.validator_state = match id {
            Some(id) => Some(ValidatorState::new(id)),
            None => None,
        };
        proof {
            let goal = old(self)@.new_height(block_hash, height_start_time);
            assert(self@.proposes =~= goal.proposes);
            assert(self@.prevotes.records =~= goal.prevotes.records);
            assert(self@.prevotes.messages =~= goal.prevotes.messages);
            assert(self@.precommits.records =~= goal.precommits.records);
            assert(self@.precommits.messages =~= goal.precommits.messages);
        }
    }

    /// Place of the first known propose with the hash `hash`.
    pub fn propose_position(&self, hash: &crypto::Hash) -> (r: Option<usize>)
        ensures
            match r {
                Some(i) => self@.has_propose(*hash) && i == self@.propose_index(*hash) && i
                    < self.proposes@.len(),
                None => !self@.has_propose(*hash),
            },
    {
        let mut i: usize = 0;
        while i < self.proposes.len()
            invariant
                i <= self.proposes.len(),
                forall|j: int| 0 <= j < i ==> (#[trigger] self@.proposes[j]).propose.hash != *hash,
            decreases self.proposes.len() - i,
        {
            if self.proposes[i].propose.hash == *hash {
                proof {
                    assert(self@.proposes[i as int].propose.hash == *hash);
                    let k = self@.propose_index(*hash);
                    if k < i {
                        assert(self@.proposes[k].propose.hash != *hash);
                    } else if k > i {
                        assert(self@.proposes[i as int].propose.hash == *hash);
                    }
                }
                return Some(i);
            }
            i = i + 1;
        }
        None
    }

    /// The known propose with the hash `hash`.
    pub fn propose(&self, hash: &crypto::Hash) -> (r: Option<&ProposeState>)
        ensures
            match r {
                Some(p) => self@.propose(*hash) == Some(p@),
                None => self@.propose(*hash) is None,
            },
    {
        match self.propose_position(hash) {
            Some(i) => Some(&self.proposes[i]),
            None => None,
        }
    }

    /// What executing the propose `hash` gave, where the node knows it.
    pub fn executed_block(&self, hash: &crypto::Hash) -> (r: Option<ExecutedBlock>)
        ensures
            r == self@.executed(*hash),
    {
        match self.propose(hash) {
            Some(p) => p.executed,
            None => None,
        }
    }

    /// Notes the propose `propose`, of which the node lacks the transactions
    /// `unknown_txs`, unless a propose with its hash is known. Returns
    /// whether it was noted.
    pub fn add_propose(&mut self, propose: Signed<Propose>, unknown_txs: Vec<crypto::Hash>) -> (added:
        bool)
        requires
            old(self).wf(),
        ensures
            final(self).wf(),
            added == !old(self)@.has_propose(propose.hash),
            final(self)@ == old(self)@.with_propose(
                ProposeStateView {
                    propose: propose@,
                    unknown_txs: unknown_txs@,
                    executed: None,
                    execution_requested: false,
                },
            ),
    {
        if self.propose_position(&propose.hash).is_some() {
            return false;
        }
        let ghost before = self@.proposes;
        let ghost added_view = ProposeStateView {
            propose: propose@,
            unknown_txs: unknown_txs@,
            executed: None,
            execution_requested: false,
        };
        self.proposes.push(
            ProposeState { propose, unknown_txs, executed: None, execution_requested: false },
        );
        proof {
            assert(self@.proposes =~= before.push(added_view));
        }
        true
    }

    /// Notes that executing the propose `hash` gave `block`, unless an
    /// outcome is noted already, or the propose is not known or lacks a
    /// transaction.
    pub fn set_executed(&mut self, hash: &crypto::Hash, block: ExecutedBlock)
        requires
            old(self).wf(),
        ensures
            final(self).wf(),
            final(self)@ == old(self)@.with_executed(*hash, block),
    {
        match self.propose_position(hash) {
            Some(i) => {
                if self.proposes[i].executed.is_none() && self.proposes[i].unknown_txs.len() == 0 {
                    let ghost before = self@.proposes;
                    self.proposes[i].executed = Some(block);
                    proof {
                        assert(self@.proposes =~= before.update(
                            i as int,
                            ProposeStateView { executed: Some(block), ..before[i as int] },
                        ));
                    }
                }
            },
            None => {},
        }
    }

    /// Notes that the node asked for the propose `hash` to be executed.
    pub fn set_execution_requested(&mut self, hash: &crypto::Hash)
        requires
            old(self).wf(),
        ensures
            final(self).wf(),
            final(self)@ == old(self)@.with_execution_requested(*hash),
    {
        match self.propose_position(hash) {
            Some(i) => {
                let ghost before = self@.proposes;
                self.proposes[i].execution_requested = true;
                proof {
                    assert(self@.proposes =~= before.update(
                        i as int,
                        ProposeStateView { execution_requested: true, ..before[i as int] },
                    ));
                }
            },
            None => {},
        }
    }

    /// Notes that the transaction `tx` is known now. Returns the hashes of
    /// the proposes that waited for it and for no other, in the order in
    /// which the proposes came.
    pub fn check_incomplete_proposes(&mut self, tx: crypto::Hash) -> (completed: Vec<crypto::Hash>)
        requires
            old(self).wf(),
        ensures
            final(self).wf(),
            final(self)@ == old(self)@.tx_arrived(tx),
            completed@ == old(self)@.completed_by(tx),
    {
        let ghost before = self@.proposes;
        let ghost waits = |p: ProposeStateView| p.completed_by(tx);
        let ghost name = |p: ProposeStateView| p.propose.hash;
        let mut completed: Vec<crypto::Hash> = Vec::new();
        let mut i: usize = 0;
        proof {
            reveal(Seq::filter);
            assert(before.subrange(0, 0) =~= Seq::<ProposeStateView>::empty());
            assert(before.subrange(0, 0).filter(waits).map_values(name) =~= completed@);
        }
        while i < self.proposes.len()
            invariant
                i <= self.proposes.len(),
                self.proposes@.len() == before.len(),
                waits == (|p: ProposeStateView| p.completed_by(tx)),
                name == (|p: ProposeStateView| p.propose.hash),
                forall|j: int| 0 <= j < i ==> (#[trigger] self.proposes@[j])@ == before[j].tx_arrived(
                    tx,
                ),
                forall|j: int| i <= j < before.len() ==> (#[trigger] self.proposes@[j])@ == before[j],
                completed@ == before.subrange(0, i as int).filter(waits).map_values(name),
                self.validator_state == old(self).validator_state,
                self.our_connect_message == old(self).our_connect_message,
                self.consensus_public_key == old(self).consensus_public_key,
                self.consensus_secret_key == old(self).consensus_secret_key,
                self.service_public_key == old(self).service_public_key,
                self.service_secret_key == old(self).service_secret_key,
                self.config == old(self).config,
                self.connect_list == old(self).connect_list,
                self.peers == old(self).peers,
                self.height == old(self).height,
                self.height_start_time == old(self).height_start_time,
                self.round == old(self).round,
                self.locked_round == old(self).locked_round,
                self.locked_propose == old(self).locked_propose,
                self.last_hash == old(self).last_hash,
                self.prevotes == old(self).prevotes,
                self.precommits == old(self).precommits,
                self.requests == old(self).requests,
            decreases self.proposes.len() - i,
        {
            let was_complete = self.proposes[i].unknown_txs.len() == 0;
            let ghost entry = self.proposes@[i as int]@;
            let left = without_hash(&self.proposes[i].unknown_txs, tx);
            let now_complete = left.len() == 0;
            self.proposes[i].unknown_txs = left;
            proof {
                assert(self.proposes@[i as int]@ == entry.tx_arrived(tx));
                let done = before.subrange(0, i as int);
                let next = before.subrange(0, i + 1);
                assert(next.drop_last() =~= done);
                assert(next.last() == entry);
                reveal(Seq::filter);
                if waits(entry) {
                    assert(next.filter(waits) =~= done.filter(waits).push(entry));
                    assert(next.filter(waits).map_values(name) =~= done.filter(waits).map_values(
                        name,
                    ).push(entry.propose.hash));
                } else {
                    assert(next.filter(waits) =~= done.filter(waits));
                }
            }
            if !was_complete && now_complete {
                completed.push(self.proposes[i].propose.hash);
            }
            i = i + 1;
        }
        proof {
            assert(before.subrange(0, i as int) =~= before);
            assert(self@.proposes =~= old(self)@.tx_arrived(tx).proposes);
        }
        completed
    }

    /// Notes the prevote `msg`, unless it is noted already.
    pub fn add_prevote(&mut self, msg: Signed<Prevote>) -> (outcome: VoteOutcome)
        requires
            old(self).wf(),
            msg.payload.height == old(self)@.height,
            msg.payload.validator.0 < old(self)@.n(),
        ensures
            final(self).wf(),
            final(self)@ == old(self)@.with_prevote(msg),
            outcome == if old(self)@.prevotes.has(msg.payload.validator, prevote_key(msg.payload)) {
                VoteOutcome::Duplicate
            } else {
                VoteOutcome::Added(
                    final(self)@.prevotes_for(msg.payload.round, msg.payload.propose_hash) as u64,
                )
            },
    {
        let key = VoteKey {
            round: msg.payload.round,
            propose_hash: msg.payload.propose_hash,
            block_hash: crypto::Hash::zero(),
        };
        self.prevotes.add(msg.payload.validator, key, msg)
    }

    /// Notes the precommit `msg`, unless it is noted already.
    pub fn add_precommit(&mut self, msg: Signed<Precommit>) -> (outcome: VoteOutcome)
        requires
            old(self).wf(),
            msg.payload.height == old(self)@.height,
            msg.payload.validator.0 < old(self)@.n(),
        ensures
            final(self).wf(),
            final(self)@ == old(self)@.with_precommit(msg),
            outcome == if old(self)@.precommits.has(
                msg.payload.validator,
                precommit_key(msg.payload),
            ) {
                VoteOutcome::Duplicate
            } else {
                VoteOutcome::Added(
                    final(self)@.precommits.votes_for(precommit_key(msg.payload)) as u64,
                )
            },
    {
        let key = VoteKey {
            round: msg.payload.round,
            propose_hash: msg.payload.propose_hash,
            block_hash: msg.payload.block_hash,
        };
        self.precommits.add(msg.payload.validator, key, msg)
    }

    /// Whether a quorum prevoted the propose `hash` in the round `round`.
    pub fn has_majority_prevotes(&self, round: Round, hash: crypto::Hash) -> (b: bool)
        requires
            self.wf(),
        ensures
            b == self@.has_majority_prevotes(round, hash),
    {
        let key = VoteKey { round, propose_hash: hash, block_hash: crypto::Hash::zero() };
        self.prevotes.has_quorum(&key, self.majority_count())
    }

    /// Whether a quorum precommitted `key`.
    pub fn has_majority_precommits(&self, key: &VoteKey) -> (b: bool)
        requires
            self.wf(),
        ensures
            b == self@.has_majority_precommits(*key),
    {
        self.precommits.has_quorum(key, self.majority_count())
    }

    /// The prevote that the node cast in the round `round`, if it cast one.
    pub fn our_prevote(&self, round: Round) -> (r: Option<Prevote>)
        requires
            self.wf(),
        ensures
            r == self@.our_prevote(round),
    {
        match &self.validator_state {
            None => None,
            Some(v) => find_prevote(&v.our_prevotes, round),
        }
    }

    /// The precommit that the node cast in the round `round`, if it cast
    /// one.
    pub fn our_precommit(&self, round: Round) -> (r: Option<Precommit>)
        requires
            self.wf(),
        ensures
            r == self@.our_precommit(round),
    {
        match &self.validator_state {
            None => None,
            Some(v) => find_precommit(&v.our_precommits, round),
        }
    }

    /// Whether the node has precommitted the propose `hash` with another
    /// block than `block_hash`.
    pub fn has_other_block(&self, hash: crypto::Hash, block_hash: crypto::Hash) -> (b: bool)
        ensures
            b == self@.has_other_block(hash, block_hash),
    {
        match &self.validator_state {
            None => false,
            Some(v) => {
                let mut i: usize = 0;
                while i < v.our_precommits.len()
                    invariant
                        i <= v.our_precommits.len(),
                        self.validator_state == Some(*v),
                        forall|j: int| 0 <= j < i ==> !self@.other_block_at(hash, block_hash, j),
                    decreases v.our_precommits.len() - i,
                {
                    if v.our_precommits[i].propose_hash == hash && v.our_precommits[i].block_hash
                        != block_hash {
                        proof {
                            assert(self@.other_block_at(hash, block_hash, i as int));
                        }
                        return true;
                    }
                    i = i + 1;
                }
                false
            },
        }
    }

    /// Whether the prevote `p` is one that the node takes for the prevote of
    /// the validator that it names.
    pub fn remembers_prevote(&self, p: &Prevote) -> (b: bool)
        requires
            self.wf(),
        ensures
            b == self@.remembers_prevote(*p),
    {
        if self.validator_id() == Some(p.validator) {
            match self.our_prevote(p.round) {
                Some(q) => q.propose_hash == p.propose_hash,
                None => false,
            }
        } else {
            true
        }
    }

    /// Whether the precommit `p` is one that the node takes for the
    /// precommit of the validator that it names.
    pub fn remembers_precommit(&self, p: &Precommit) -> (b: bool)
        requires
            self.wf(),
        ensures
            b == self@.remembers_precommit(*p),
    {
        if self.validator_id() == Some(p.validator) {
            match self.our_precommit(p.round) {
                Some(q) => q.propose_hash == p.propose_hash && q.block_hash == p.block_hash,
                None => false,
            }
        } else {
            true
        }
    }

    /// Whether the node has prevoted, in a round after `round`, another
    /// propose than `hash`.
    pub fn has_incompatible_prevote(&self, round: Round, hash: crypto::Hash) -> (b: bool)
        ensures
            b == self@.has_incompatible_prevote(round, hash),
    {
        match &self.validator_state {
            None => false,
            Some(v) => {
                let mut i: usize = 0;
                while i < v.our_prevotes.len()
                    invariant
                        i <= v.our_prevotes.len(),
                        self.validator_state == Some(*v),
                        forall|j: int| 0 <= j < i ==> !self@.incompatible_at(round, hash, j),
                    decreases v.our_prevotes.len() - i,
                {
                    if v.our_prevotes[i].round.0 > round.0 && v.our_prevotes[i].propose_hash
                        != hash {
                        proof {
                            assert(self@.incompatible_at(round, hash, i as int));
                        }
                        return true;
                    }
                    i = i + 1;
                }
                false
            },
        }
    }

    /// Whether the node cast a prevote in the round `round`.
    pub fn have_prevote(&self, round: Round) -> (b: bool)
        requires
            self.wf(),
        ensures
            b == (self@.our_prevote(round) is Some),
    {
        self.our_prevote(round).is_some()
    }

    /// Notes that the node cast the prevote `p`, unless it is no validator
    /// or has a prevote of that round already. Returns whether it was noted.
    pub fn add_our_prevote(&mut self, p: Prevote) -> (added: bool)
        requires
            old(self).wf(),
            p.height == old(self)@.height,
            old(self)@.validator_state matches Some(v) ==> p.validator == v.id,
        ensures
            final(self).wf(),
            final(self)@ == old(self)@.with_our_prevote(p),
            added == (old(self)@.is_validator() && old(self)@.our_prevote(p.round) is None),
    {
        if self.validator_state.is_none() || self.our_prevote(p.round).is_some() {
            return false;
        }
        let ghost before = self@.validator_state->0.our_prevotes;
        match &mut self.validator_state {
            Some(v) => {
                v.our_prevotes.push(p);
            },
            None => {},
        }
        proof {
            let after = self@.validator_state->0.our_prevotes;
            assert(after == before.push(p));
            assert forall|i: int, j: int| 0 <= i < j < after.len() implies (
            #[trigger] after[i]).round != (#[trigger] after[j]).round by {
                assert(after[i] == before[i]);
                if j < before.len() {
                    assert(after[j] == before[j]);
                }
            }
            assert forall|i: int| 0 <= i < after.len() implies (#[trigger] after[i]).validator
                == p.validator && after[i].height == self@.height by {
                if i < before.len() {
                    assert(after[i] == before[i]);
                }
            }
        }
        true
    }

    /// Notes that the node cast the precommit `p`, unless it is no validator
    /// or has a precommit of that round already. Returns whether it was
    /// noted.
    pub fn add_our_precommit(&mut self, p: Precommit) -> (added: bool)
        requires
            old(self).wf(),
            p.height == old(self)@.height,
            old(self)@.validator_state matches Some(v) ==> p.validator == v.id,
        ensures
            final(self).wf(),
            final(self)@ == old(self)@.with_our_precommit(p),
            added == (old(self)@.is_validator() && old(self)@.our_precommit(p.round) is None),
    {
        if self.validator_state.is_none() || self.our_precommit(p.round).is_some() {
            return false;
        }
        let ghost before = self@.validator_state->0.our_precommits;
        match &mut self.validator_state {
            Some(v) => {
                v.our_precommits.push(p);
            },
            None => {},
        }
        proof {
            let after = self@.validator_state->0.our_precommits;
            assert(after == before.push(p));
            assert forall|i: int, j: int| 0 <= i < j < after.len() implies (
            #[trigger] after[i]).round != (#[trigger] after[j]).round by {
                assert(after[i] == before[i]);
                if j < before.len() {
                    assert(after[j] == before[j]);
                }
            }
            assert forall|i: int| 0 <= i < after.len() implies (#[trigger] after[i]).validator
                == p.validator && after[i].height == self@.height by {
                if i < before.len() {
                    assert(after[i] == before[i]);
                }
            }
        }
        true
    }

    /// The last round in which the node proposed; 0 where it has not or is no
    /// validator.
    pub fn proposed_round(&self) -> (r: Round)
        ensures
            r == self@.proposed_round(),
    {
        match &self.validator_state {
            Some(v) => v.proposed_round,
            None => Round::zero(),
        }
    }

    /// Notes that the node proposed in the round `round`.
    pub fn set_proposed(&mut self, round: Round)
        requires
            old(self).wf(),
        ensures
            final(self).wf(),
            final(self)@ == old(self)@.with_proposed(round),
    {
        match &mut self.validator_state {
            Some(v) => {
                v.proposed_round = round;
            },
            None => {},
        }
    }

    /// The last round at which the node can lock on the propose `hash`.
    pub fn lock_round(&self, hash: crypto::Hash) -> (r: Option<Round>)
        requires
            self.wf(),
        ensures
            r == self@.lock_round(hash),
    {
        let quorum = self.majority_count();
        let mut best: Option<Round> = None;
        let mut i: usize = 0;
        while i < self.prevotes.records.len()
            invariant
                i <= self.prevotes.records.len(),
                self.wf(),
                quorum == self@.quorum(),
                best matches Some(b) ==> self@.can_lock_at(hash, b),
                forall|j: int|
                    0 <= j < i && (#[trigger] self.prevotes.records@[j]).key.propose_hash == hash
                        && self.prevotes.records@[j].key.block_hash == crypto::Hash(0, 0, 0, 0)
                        && self@.can_lock_at(hash, self.prevotes.records@[j].key.round) ==> (
                    best matches Some(b) && self.prevotes.records@[j].key.round.0 <= b.0),
            decreases self.prevotes.records.len() - i,
        {
            let key = self.prevotes.records[i].key;
            if key.propose_hash == hash && key.block_hash == crypto::Hash::zero() && key.round.0
                > self.locked_round.0 && self.prevotes.count(&key) >= quorum {
                let better = match best {
                    Some(b) => key.round.0 > b.0,
                    None => true,
                };
                if better {
                    best = Some(key.round);
                }
            }
            i = i + 1;
        }
        proof {
            let s = self@;
            assert forall|q: Round| #[trigger] s.can_lock_at(hash, q) implies (best matches Some(b)
                && q.0 <= b.0) by {
                let key = VoteKey {
                    round: q,
                    propose_hash: hash,
                    block_hash: crypto::Hash(0, 0, 0, 0),
                };
                crate::node::votes::lemma_count_is_voters(s.prevotes.records, key);
                crate::node::votes::lemma_count_positive(s.prevotes.records, key);
                let j = choose|j: int|
                    0 <= j < s.prevotes.records.len() && (#[trigger] s.prevotes.records[j]).key
                        == key;
                assert(self.prevotes.records@[j].key.round == q);
            }
            if exists|r: Round| s.can_lock_at(hash, r) {
                let r = choose|r: Round| s.can_lock_at(hash, r);
                assert(best is Some);
                let b = best->0;
                let c = choose|r: Round| #[trigger]
                    s.can_lock_at(hash, r) && forall|q: Round| #[trigger]
                        s.can_lock_at(hash, q) ==> q.0 <= r.0;
                assert(s.can_lock_at(hash, b) && forall|q: Round| #[trigger]
                    s.can_lock_at(hash, q) ==> q.0 <= b.0);
                assert(c.0 <= b.0);
                assert(b.0 <= c.0);
            }
        }
        best
    }

    /// What a quorum precommitted for the propose `hash` with the block
    /// `block_hash`.
    pub fn commit_key(&self, hash: crypto::Hash, block_hash: crypto::Hash) -> (r: Option<VoteKey>)
        requires
            self.wf(),
        ensures
            r == self@.commit_key(hash, block_hash),
    {
        let quorum = self.majority_count();
        let mut i: usize = 0;
        while i < self.precommits.records.len()
            invariant
                i <= self.precommits.records.len(),
                self.wf(),
                quorum == self@.quorum(),
                forall|j: int| 0 <= j < i ==> !self@.commits_at(hash, block_hash, j),
            decreases self.precommits.records.len() - i,
        {
            let key = self.precommits.records[i].key;
            if key.propose_hash == hash && key.block_hash == block_hash && self.precommits.count(
                &key,
            ) >= quorum {
                proof {
                    let s = self@;
                    assert(s.commits_at(hash, block_hash, i as int));
                    let first = choose|k: int| #[trigger]
                        s.commits_at(hash, block_hash, k) && forall|j: int|
                            0 <= j < k ==> !s.commits_at(hash, block_hash, j);
                    if first < i {
                        assert(!s.commits_at(hash, block_hash, first));
                    } else if first > i {
                        assert(!s.commits_at(hash, block_hash, i as int));
                    }
                }
                return Some(key);
            }
            i = i + 1;
        }
        None
    }

    /// Whether a quorum precommitted the propose `hash`, with whatever block.
    pub fn has_precommit_quorum(&self, hash: crypto::Hash) -> (b: bool)
        requires
            self.wf(),
        ensures
            b == self@.has_precommit_quorum(hash),
    {
        let quorum = self.majority_count();
        let mut i: usize = 0;
        while i < self.precommits.records.len()
            invariant
                i <= self.precommits.records.len(),
                self.wf(),
                quorum == self@.quorum(),
                forall|j: int| 0 <= j < i ==> !self@.precommitted_at(hash, j),
            decreases self.precommits.records.len() - i,
        {
            let key = self.precommits.records[i].key;
            if key.propose_hash == hash && self.precommits.count(&key) >= quorum {
                proof {
                    assert(self@.precommitted_at(hash, i as int));
                }
                return true;
            }
            i = i + 1;
        }
        false
    }

    /// The hash of the first propose of the round `round` that lacks no
    /// transaction.
    pub fn first_complete_propose(&self, round: Round) -> (r: Option<crypto::Hash>)
        ensures
            r == self@.first_complete_propose(round),
    {
        let mut i: usize = 0;
        while i < self.proposes.len()
            invariant
                i <= self.proposes.len(),
                forall|j: int| 0 <= j < i ==> !self@.complete_at(round, j),
            decreases self.proposes.len() - i,
        {
            if self.proposes[i].propose.payload.round == round && self.proposes[i].unknown_txs.len()
                == 0 {
                proof {
                    let s = self@;
                    assert(s.complete_at(round, i as int));
                    let first = choose|k: int| #[trigger]
                        s.complete_at(round, k) && forall|j: int|
                            0 <= j < k ==> !s.complete_at(round, j);
                    if first < i {
                        assert(!s.complete_at(round, first));
                    } else if first > i {
                        assert(!s.complete_at(round, i as int));
                    }
                }
                return Some(self.proposes[i].propose.hash);
            }
            i = i + 1;
        }
        None
    }

    /// Place of the connected peer with the key `key`.
    pub fn peer_position(&self, key: &PublicKey) -> (r: Option<usize>)
        requires
            self.wf(),
        ensures
            match r {
                Some(i) => self@.has_peer(*key) && i == self@.peer_index(*key) && i
                    < self.peers@.len(),
                None => !self@.has_peer(*key),
            },
    {
        let mut i: usize = 0;
        while i < self.peers.len()
            invariant
                i <= self.peers.len(),
                authors_unique(self.peers@),
                forall|j: int| 0 <= j < i ==> (#[trigger] self.peers@[j]).author != *key,
            decreases self.peers.len() - i,
        {
            if self.peers[i].author == *key {
                proof {
                    let k = self@.peer_index(*key);
                    if k < i {
                        assert(self.peers@[k].author != *key);
                    } else if k > i {
                        assert(self.peers@[i as int].author != self.peers@[k].author);
                    }
                }
                return Some(i);
            }
            i = i + 1;
        }
        None
    }

    /// Notes that the peer that sent the advertisement `connect` is
    /// connected.
    pub fn add_peer(&mut self, connect: Signed<Connect>)
        requires
            old(self).wf(),
        ensures
            final(self).wf(),
            final(self)@ == old(self)@.with_peer(connect),
    {
        let ghost before = self.peers@;
        match self.peer_position(&connect.author) {
            Some(i) => {
                self.peers.set(i, connect);
                proof {
                    let after = self.peers@;
                    assert forall|a: int, b: int| 0 <= a < b < after.len() implies (
                    #[trigger] after[a]).author != (#[trigger] after[b]).author by {
                        assert(after[a].author == before[a].author);
                        assert(after[b].author == before[b].author);
                    }
                }
            },
            None => {
                self.peers.push(connect);
                proof {
                    let after = self.peers@;
                    assert forall|a: int, b: int| 0 <= a < b < after.len() implies (
                    #[trigger] after[a]).author != (#[trigger] after[b]).author by {
                        assert(after[a] == before[a]);
                        if b < before.len() {
                            assert(after[b] == before[b]);
                        }
                    }
                }
            },
        }
    }

    /// Notes that the peer with the key `key` went away. Returns whether it
    /// was connected.
    pub fn remove_peer_with_pubkey(&mut self, key: &PublicKey) -> (was_connected: bool)
        requires
            old(self).wf(),
        ensures
            final(self).wf(),
            final(self)@ == old(self)@.without_peer(*key),
            was_connected == old(self)@.has_peer(*key),
    {
        let ghost before = self.peers@;
        match self.peer_position(key) {
            Some(i) => {
                self.peers.remove(i);
                proof {
                    let after = self.peers@;
                    assert forall|a: int, b: int| 0 <= a < b < after.len() implies (
                    #[trigger] after[a]).author != (#[trigger] after[b]).author by {
                        let ba = if a < i { a } else { a + 1 };
                        let bb = if b < i { b } else { b + 1 };
                        assert(after[a] == before[ba]);
                        assert(after[b] == before[bb]);
                    }
                }
                true
            },
            None => false,
        }
    }

    /// Notes that `peer` can be asked for `data`. Returns whether nothing
    /// was asked for `data` before.
    pub fn request(&mut self, data: RequestData, peer: PublicKey) -> (is_new: bool)
        requires
            old(self).wf(),
        ensures
            final(self).wf(),
            is_new == !old(self)@.requests.contains_key(data@),
            final(self)@ == (StateView {
                requests: crate::node::requests::with_request(old(self)@.requests, data@, peer),
                ..old(self)@
            }),
    {
        self.requests.request(data, peer)
    }

    /// What to do when the wait for an answer of `peer` to `data` is over:
    /// returns the peer to ask next, if one is left.
    pub fn retry(&mut self, data: &RequestData, peer: Option<PublicKey>) -> (next: Option<PublicKey>)
        requires
            old(self).wf(),
        ensures
            final(self).wf(),
            next == crate::node::requests::next_peer(old(self)@.requests, data@, peer),
            final(self)@ == (StateView {
                requests: crate::node::requests::after_retry(old(self)@.requests, data@, peer),
                ..old(self)@
            }),
    {
        self.requests.retry(data, peer)
    }

    /// Drops the request for `data`. Returns the peers that could be asked.
    pub fn remove_request(&mut self, data: &RequestData) -> (nodes: Vec<PublicKey>)
        requires
            old(self).wf(),
        ensures
            final(self).wf(),
            final(self)@ == (StateView {
                requests: old(self)@.requests.remove(data@),
                ..old(self)@
            }),
    {
        self.requests.remove_request(data)
    }
}

/// The prevote of the round `round` in `votes`, if there is one.
fn find_prevote(votes: &Vec<Prevote>, round: Round) -> (r: Option<Prevote>)
    requires
        prevotes_once(votes@),
    ensures
        r == prevote_of_round(votes@, round),
{
    let mut i: usize = 0;
    while i < votes.len()
        invariant
            i <= votes.len(),
            prevotes_once(votes@),
            forall|j: int| 0 <= j < i ==> (#[trigger] votes@[j]).round != round,
        decreases votes.len() - i,
    {
        if votes[i].round == round {
            proof {
                assert(votes@[i as int].round == round);
                let k = prevote_index(votes@, round);
                if k < i {
                    assert(votes@[k].round != round);
                } else if k > i {
                    assert(votes@[i as int].round != votes@[k].round);
                }
            }
            return Some(votes[i]);
        }
        i = i + 1;
    }
    None
}

/// The precommit of the round `round` in `votes`, if there is one.
fn find_precommit(votes: &Vec<Precommit>, round: Round) -> (r: Option<Precommit>)
    requires
        precommits_once(votes@),
    ensures
        r == precommit_of_round(votes@, round),
{
    let mut i: usize = 0;
    while i < votes.len()
        invariant
            i <= votes.len(),
            precommits_once(votes@),
            forall|j: int| 0 <= j < i ==> (#[trigger] votes@[j]).round != round,
        decreases votes.len() - i,
    {
        if votes[i].round == round {
            proof {
                assert(votes@[i as int].round == round);
                let k = precommit_index(votes@, round);
                if k < i {
                    assert(votes@[k].round != round);
                } else if k > i {
                    assert(votes@[i as int].round != votes@[k].round);
                }
            }
            return Some(votes[i]);
        }
        i = i + 1;
    }
    None
}

/// The hashes of `hashes` other than `gone`, in their order.
pub fn without_hash(hashes: &Vec<crypto::Hash>, gone: crypto::Hash) -> (left: Vec<crypto::Hash>)
    ensures
        left@ == hashes@.filter(other_than(gone)),
{
    let ghost keep = other_than(gone);
    let mut left: Vec<crypto::Hash> = Vec::new();
    let mut i: usize = 0;
    proof {
        reveal(Seq::filter);
        assert(hashes@.subrange(0, 0) =~= Seq::<crypto::Hash>::empty());
    }
    while i < hashes.len()
        invariant
            i <= hashes.len(),
            keep == other_than(gone),
            left@ == hashes@.subrange(0, i as int).filter(keep),
        decreases hashes.len() - i,
    {
        proof {
            let done = hashes@.subrange(0, i as int);
            let next = hashes@.subrange(0, i + 1);
            assert(next.drop_last() =~= done);
            reveal(Seq::filter);
        }
        if hashes[i] != gone {
            left.push(hashes[i]);
        }
        i = i + 1;
    }
    proof {
        assert(hashes@.subrange(0, i as int) =~= hashes@);
    }
    left
}

} // verus!
