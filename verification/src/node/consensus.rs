//! The rules of consensus: what the node does with a propose, a prevote, a
//! precommit, the outcome of an execution, and the end of a round.

use vstd::prelude::*;
use crate::blockchain::pool::{pool_first, pool_has};
use crate::blockchain::{CachedMessage, CachedMessageView, ChainView, ExecutedBlock};
use crate::crypto::{self, PublicKey};
use crate::helpers::{Height, Milliseconds, Round};
use crate::messages::{clone_hashes, clone_propose, Payload, PayloadView, Precommit, Prevote, Propose, ProposeView, Signed, SignedView, Status, Timestamp};
use crate::node::events::{
    ExecuteRequest, ExecuteRequestView, InternalRequest, InternalRequestView, Outgoing,
    OutgoingView,
};
use crate::node::handler::{HandlerView, NodeHandler};
use crate::node::requests::{RequestData, RequestKey};
use crate::node::state::{precommit_key, prevote_key, ProposeStateView};
use crate::node::votes::{VoteKey};

verus! {

/// The point in time `ms` milliseconds after the Unix epoch.
pub open spec fn timestamp_of(ms: Milliseconds) -> Timestamp {
    Timestamp { secs: (ms / 1000) as i64, nanos: ((ms % 1000) * 1_000_000) as u32 }
}

/// The prevote `msg` as a message of any kind.
pub open spec fn prevote_message(msg: Signed<Prevote>) -> SignedView<PayloadView> {
    SignedView {
        payload: PayloadView::Prevote(msg.payload),
        author: msg.author,
        hash: msg.hash,
        signature: msg.signature,
    }
}

/// The precommit `msg` as a message of any kind.
pub open spec fn precommit_message(msg: Signed<Precommit>) -> SignedView<PayloadView> {
    SignedView {
        payload: PayloadView::Precommit(msg.payload),
        author: msg.author,
        hash: msg.hash,
        signature: msg.signature,
    }
}

/// The propose `msg` as a message of any kind.
pub open spec fn propose_message(msg: SignedView<ProposeView>) -> SignedView<PayloadView> {
    SignedView {
        payload: PayloadView::Propose(msg.payload),
        author: msg.author,
        hash: msg.hash,
        signature: msg.signature,
    }
}

/// The hashes of `hashes` that the pool `pool` lacks, in their order.
pub open spec fn lacking(pool: Seq<SignedView<crate::messages::TxView>>) -> spec_fn(
    crypto::Hash,
) -> bool {
    |h: crypto::Hash| !pool_has(pool, h)
}

impl HandlerView {
    /// The handler after it saved `message` to handle it again after a
    /// restart.
    pub open spec fn save(self, message: CachedMessageView) -> HandlerView {
        HandlerView {
            chain: ChainView { cache: self.chain.cache.push(message), ..self.chain },
            ..self
        }
    }

    /// The handler after it made the consensus message `payload` of its own:
    /// the message is saved, sent to the peers, and asked to be signed and
    /// handed back to the node itself.
    #[verifier::opaque]
    pub open spec fn issue(self, payload: PayloadView) -> HandlerView {
        let sent = self.save(CachedMessageView::Own(payload)).broadcast(OutgoingView::Own(payload));
        HandlerView { internal: sent.internal.push(InternalRequestView::Deliver(payload)), ..sent }
    }

    /// The handler after it prevoted the propose `hash` in the round
    /// `round`. A node that is no validator, or that has prevoted in the
    /// round, does not prevote.
    #[verifier::opaque]
    pub open spec fn cast_prevote(self, round: Round, hash: crypto::Hash) -> HandlerView {
        match self.state.validator_state {
            Some(v) => if self.state.our_prevote(round) is None {
                let p = Prevote {
                    validator: v.id,
                    height: self.state.height,
                    round,
                    propose_hash: hash,
                    locked_round: self.state.locked_round,
                };
                (HandlerView { state: self.state.with_our_prevote(p), ..self }).issue(
                    PayloadView::Prevote(p),
                )
            } else {
                self
            },
            None => self,
        }
    }

    /// The handler after it precommitted, at the time `now`, the propose
    /// `hash` with the block `block_hash` in the round `round`. A node that is
    /// no validator, or that has precommitted in the round, does not
    /// precommit.
    #[verifier::opaque]
    pub open spec fn cast_precommit(
        self,
        round: Round,
        hash: crypto::Hash,
        block_hash: crypto::Hash,
        now: Milliseconds,
    ) -> HandlerView {
        match self.state.validator_state {
            Some(v) => if self.state.our_precommit(round) is None {
                let p = Precommit {
                    validator: v.id,
                    height: self.state.height,
                    round,
                    propose_hash: hash,
                    block_hash,
                    time: timestamp_of(now),
                };
                (HandlerView { state: self.state.with_our_precommit(p), ..self }).issue(
                    PayloadView::Precommit(p),
                )
            } else {
                self
            },
            None => self,
        }
    }

    /// The handler after it proposed in the current round: the propose names
    /// the least hashes of the pool, as many as a block may hold.
    #[verifier::opaque]
    pub open spec fn propose(self) -> HandlerView {
        match self.state.validator_state {
            Some(v) => {
                let p = ProposeView {
                    validator: v.id,
                    height: self.state.height,
                    round: self.state.round,
                    prev_hash: self.state.last_hash,
                    transactions: pool_first(
                        self.chain.pool,
                        self.state.consensus.txs_block_limit as nat,
                    ),
                };
                (HandlerView { state: self.state.with_proposed(self.state.round), ..self }).issue(
                    PayloadView::Propose(p),
                )
            },
            None => self,
        }
    }

    /// The handler after it prevoted as the start of a round asks: for the
    /// propose on which it is locked, else for the first propose of the round
    /// that lacks no transaction, else not yet.
    #[verifier::opaque]
    pub open spec fn prevote_rule(self) -> HandlerView {
        match self.state.locked_propose {
            Some(locked) => self.cast_prevote(self.state.round, locked),
            None => match self.state.first_complete_propose(self.state.round) {
                Some(hash) => self.cast_prevote(self.state.round, hash),
                None => self,
            },
        }
    }

    /// The handler after it went to the round `round`: the round is saved,
    /// the propose may be brought forward once again, the deadlines of the
    /// round and of its propose are set, and the node prevotes if it can.
    #[verifier::opaque]
    pub open spec fn enter_round(self, round: Round) -> HandlerView {
        (HandlerView {
            state: self.state.with_round(round),
            chain: ChainView { consensus_round: round, ..self.chain },
            allow_expedited_propose: true,
            ..self
        }).add_round_timeout().add_propose_timeout().prevote_rule()
    }

    /// The handler after the deadline of the round `round` at the height
    /// `height` came: where that is the current round, the node goes to
    /// the next one.
    #[verifier::opaque]
    pub open spec fn handle_round_timeout(self, height: Height, round: Round) -> HandlerView {
        if self.is_enabled && height == self.state.height && round == self.state.round && round.0
            < u32::MAX {
            self.enter_round(Round((round.0 + 1) as u32))
        } else {
            self
        }
    }

    /// The handler after it was told to go to the round `round` at the
    /// height `height`: it goes there where that is a later round of the
    /// current height.
    #[verifier::opaque]
    pub open spec fn handle_new_round(self, height: Height, round: Round) -> HandlerView {
        if self.is_enabled && height == self.state.height && round.0 > self.state.round.0 {
            self.enter_round(round)
        } else {
            self
        }
    }

    /// The handler after the propose deadline of the round `round` at the
    /// height `height` came. Where that is the current round and the node is
    /// a validator and not locked: the leader proposes, unless it has
    /// proposed in this round; any other validator that has not prevoted in
    /// this round prevotes for no propose.
    #[verifier::opaque]
    pub open spec fn handle_propose_timeout(self, height: Height, round: Round) -> HandlerView {
        if self.is_enabled && height == self.state.height && round == self.state.round
            && self.state.is_validator() {
            if self.state.locked_propose is Some {
                self
            } else if self.state.is_leader() {
                if self.state.proposed_round().0 < round.0 {
                    self.propose()
                } else {
                    self
                }
            } else {
                self.cast_prevote(round, crypto::Hash(0, 0, 0, 0))
            }
        } else {
            self
        }
    }

    /// The handler after it locked on the propose `hash` at the last round
    /// at which it can.
    #[verifier::opaque]
    pub open spec fn apply_lock(self, hash: crypto::Hash) -> HandlerView {
        match self.state.lock_round(hash) {
            Some(round) => HandlerView { state: self.state.with_lock(round, hash), ..self },
            None => self,
        }
    }

    /// The handler after it asked for the propose `hash` to be executed,
    /// where that is due: the propose lacks no transaction, its outcome is
    /// not known and was not asked for, and the node is locked on it or a
    /// quorum precommitted it.
    #[verifier::opaque]
    pub open spec fn maybe_execute(self, hash: crypto::Hash) -> HandlerView {
        match self.state.propose(hash) {
            Some(p) => if p.is_complete() && p.executed is None && !p.execution_requested && (
            self.state.locked_propose == Some(hash) || self.state.has_precommit_quorum(hash)) {
                HandlerView {
                    state: self.state.with_execution_requested(hash),
                    internal: self.internal.push(
                        InternalRequestView::ExecuteBlock(
                            ExecuteRequestView {
                                propose_hash: hash,
                                height: self.state.height,
                                proposer: p.propose.payload.validator,
                                transactions: p.propose.payload.transactions,
                            },
                        ),
                    ),
                    ..self
                }
            } else {
                self
            },
            None => self,
        }
    }

    /// The handler after it precommitted the propose `hash`, where that is
    /// due: the node is locked on the propose, a quorum prevoted it in the
    /// round of the lock, the node has prevoted no other propose in a later
    /// round, the outcome of the propose is known, and the node has not
    /// precommitted the propose with another block.
    #[verifier::opaque]
    pub open spec fn maybe_precommit(self, hash: crypto::Hash, now: Milliseconds) -> HandlerView {
        match self.state.executed(hash) {
            Some(block) => if self.state.locked_propose == Some(hash)
                && self.state.has_majority_prevotes(self.state.locked_round, hash)
                && !self.state.has_incompatible_prevote(self.state.locked_round, hash)
                && !self.state.has_other_block(hash, block.block_hash) {
                self.cast_precommit(self.state.locked_round, hash, block.block_hash, now)
            } else {
                self
            },
            None => self,
        }
    }

    /// The handler after it committed, at the time `now`, the block `block`
    /// with the transactions `txs`, justified by the precommits
    /// `precommits`: the chain grows, the node starts the next height, tells
    /// its peers, and sets the deadlines of the round, the propose and the
    /// status.
    #[verifier::opaque]
    pub open spec fn commit_with(
        self,
        block: ExecutedBlock,
        txs: Seq<crypto::Hash>,
        precommits: Seq<Signed<Precommit>>,
        now: Milliseconds,
    ) -> HandlerView {
        let next = HandlerView {
            state: self.state.new_height(block.block_hash, now),
            chain: self.chain.commit(block, txs, precommits),
            allow_expedited_propose: true,
            ..self
        };
        next.broadcast(
            OutgoingView::Own(
                PayloadView::Status(
                    Status { height: next.state.height, last_hash: block.block_hash },
                ),
            ),
        ).add_round_timeout().add_propose_timeout().add_status_timeout(now)
    }

    /// The handler after it committed, at the time `now`, the block `block`
    /// with the transactions `txs`, justified by the precommits that it holds
    /// for `key`.
    #[verifier::opaque]
    pub open spec fn commit(
        self,
        block: ExecutedBlock,
        txs: Seq<crypto::Hash>,
        key: VoteKey,
        now: Milliseconds,
    ) -> HandlerView {
        self.commit_with(block, txs, self.state.precommits.messages_for(key), now)
    }

    /// The handler after it committed the propose `hash`, where that is
    /// due: the outcome of the propose is known, a quorum precommitted the
    /// propose with the block that the node itself got, and that block can
    /// follow the last one. Precommits for another block are passed over.
    #[verifier::opaque]
    pub open spec fn maybe_commit(self, hash: crypto::Hash, now: Milliseconds) -> HandlerView {
        match (self.state.propose(hash), self.state.executed(hash)) {
            (Some(p), Some(block)) => match self.state.commit_key(hash, block.block_hash) {
                Some(key) => if self.chain.can_commit(block, p.propose.payload.transactions) {
                    self.commit(block, p.propose.payload.transactions, key, now)
                } else {
                    self
                },
                None => self,
            },
            _ => self,
        }
    }

    /// The handler after it took every step that the propose `hash` allows
    /// at the time `now`: lock, ask for execution, precommit, commit. A
    /// propose that is not known or lacks a transaction allows none.
    #[verifier::opaque]
    pub open spec fn advance(self, hash: crypto::Hash, now: Milliseconds) -> HandlerView {
        if self.state.has_complete_propose(hash) {
            self.apply_lock(hash).maybe_execute(hash).maybe_precommit(hash, now).maybe_commit(
                hash,
                now,
            )
        } else {
            self
        }
    }

    /// The handler after the propose `hash` of the round `propose_round`
    /// was found to lack no transaction: a node that is not locked prevotes
    /// it where it is of the current round; then every step that the propose
    /// allows is taken.
    #[verifier::opaque]
    pub open spec fn handle_full_propose(
        self,
        hash: crypto::Hash,
        propose_round: Round,
        now: Milliseconds,
    ) -> HandlerView {
        (if propose_round == self.state.round && self.state.locked_propose is None {
            self.cast_prevote(self.state.round, hash)
        } else {
            self
        }).advance(hash, now)
    }

    /// Whether the node takes the propose `msg`: it comes from the leader of
    /// its round, names the last block, is not known yet, and names no
    /// transaction twice and none that is in a block.
    pub open spec fn takes_propose(self, msg: SignedView<ProposeView>) -> bool {
        &&& self.state.n() > 0
        &&& msg.payload.validator == self.state.leader(msg.payload.round)
        &&& msg.payload.prev_hash == self.state.last_hash
        &&& !self.state.has_propose(msg.hash)
        &&& msg.payload.transactions.no_duplicates()
        &&& forall|i: int|
            0 <= i < msg.payload.transactions.len() ==> !self.chain.is_committed(
                #[trigger] msg.payload.transactions[i],
            )
    }

    /// The handler after the propose `msg` of the current height came from
    /// a validator at the time `now`. A propose that the node takes is noted,
    /// and saved if `save` is set; the transactions that the node lacks are
    /// asked of the sender, and where it lacks none the propose is handled as
    /// full.
    #[verifier::opaque]
    pub open spec fn handle_propose(
        self,
        msg: SignedView<ProposeView>,
        now: Milliseconds,
        save: bool,
    ) -> HandlerView {
        if self.takes_propose(msg) {
            let unknown = msg.payload.transactions.filter(lacking(self.chain.pool));
            let noted = HandlerView {
                state: self.state.with_propose(
                    ProposeStateView {
                        propose: msg,
                        unknown_txs: unknown,
                        executed: None,
                        execution_requested: false,
                    },
                ),
                ..self
            };
            let saved = if save {
                noted.save(CachedMessageView::Received(propose_message(msg)))
            } else {
                noted
            };
            if unknown.len() > 0 {
                saved.request(RequestKey::Transactions(unknown), msg.author, now)
            } else {
                saved.handle_full_propose(msg.hash, msg.payload.round, now)
            }
        } else {
            self
        }
    }

    /// The handler after it asked the sender `author` for the propose
    /// `hash`, where the node does not know it. No propose has the hash of
    /// all zeros.
    #[verifier::opaque]
    pub open spec fn request_propose(
        self,
        hash: crypto::Hash,
        author: PublicKey,
        now: Milliseconds,
    ) -> HandlerView {
        if hash != crypto::Hash(0, 0, 0, 0) && !self.state.has_propose(hash) {
            self.request(RequestKey::Propose(hash), author, now)
        } else {
            self
        }
    }

    /// The handler after a quorum was found to have prevoted the propose
    /// `hash` in the round `round`: the node locks on the propose where it
    /// can; where the round is after the current one the node goes to it;
    /// then every step that the propose allows is taken.
    #[verifier::opaque]
    pub open spec fn handle_majority_prevotes(
        self,
        round: Round,
        hash: crypto::Hash,
        now: Milliseconds,
    ) -> HandlerView {
        let locked = if self.state.has_complete_propose(hash) {
            self.apply_lock(hash)
        } else {
            self
        };
        (if round.0 > locked.state.round.0 {
            locked.enter_round(round)
        } else {
            locked
        }).advance(hash, now)
    }

    /// The handler after the prevote `msg` of the current height came from a
    /// validator at the time `now`. A prevote that is held already changes
    /// nothing, and neither does one in the node's own name that the node does
    /// not remember to have cast. Else it is noted, and saved if `save` is set;
    /// a propose that the node does not know is asked of the sender; and where
    /// a quorum has prevoted the same, that is handled.
    #[verifier::opaque]
    pub open spec fn handle_prevote(self, msg: Signed<Prevote>, now: Milliseconds, save: bool) -> HandlerView {
        let p = msg.payload;
        if self.state.prevotes.has(p.validator, prevote_key(p)) || !self.state.remembers_prevote(
            p,
        ) {
            self
        } else {
            let noted = HandlerView { state: self.state.with_prevote(msg), ..self };
            let saved = if save {
                noted.save(CachedMessageView::Received(prevote_message(msg)))
            } else {
                noted
            };
            let asked = saved.request_propose(p.propose_hash, msg.author, now);
            if asked.state.has_majority_prevotes(p.round, p.propose_hash) {
                asked.handle_majority_prevotes(p.round, p.propose_hash, now)
            } else {
                asked
            }
        }
    }

    /// The handler after the precommit `msg` of the current height came from
    /// a validator at the time `now`. A precommit that is held already changes
    /// nothing, and neither does one in the node's own name that the node does
    /// not remember to have cast. Else it is noted, and saved if `save` is set;
    /// a propose that the node does not know is asked of the sender; and where
    /// a quorum has precommitted the same, every step that the propose allows
    /// is taken.
    #[verifier::opaque]
    pub open spec fn handle_precommit(self, msg: Signed<Precommit>, now: Milliseconds, save: bool) -> HandlerView {
        let p = msg.payload;
        if self.state.precommits.has(p.validator, precommit_key(p))
            || !self.state.remembers_precommit(p) {
            self
        } else {
            let noted = HandlerView { state: self.state.with_precommit(msg), ..self };
            let saved = if save {
                noted.save(CachedMessageView::Received(precommit_message(msg)))
            } else {
                noted
            };
            let asked = saved.request_propose(p.propose_hash, msg.author, now);
            if asked.state.has_majority_precommits(precommit_key(p)) {
                asked.advance(p.propose_hash, now)
            } else {
                asked
            }
        }
    }

    /// The handler after it learned, at the time `now`, that executing the
    /// propose `hash` gave `block`: the outcome is noted, unless one is noted
    /// already, and every step that the propose allows is taken.
    #[verifier::opaque]
    pub open spec fn handle_executed(
        self,
        hash: crypto::Hash,
        block: ExecutedBlock,
        now: Milliseconds,
    ) -> HandlerView {
        if self.is_enabled {
            (HandlerView { state: self.state.with_executed(hash, block), ..self }).advance(hash, now)
        } else {
            self
        }
    }
}

/// The point in time `ms` milliseconds after the Unix epoch.
pub fn timestamp_from_millis(ms: Milliseconds) -> (t: Timestamp)
    ensures
        t == timestamp_of(ms),
{
    Timestamp::from_millis(ms)
}

/// The hashes of `hashes` that the pool of `chain` lacks, in their order.
pub fn unknown_transactions(chain: &crate::blockchain::Blockchain, hashes: &Vec<crypto::Hash>) -> (v:
    Vec<crypto::Hash>)
    requires
        chain.wf(),
    ensures
        v@ == hashes@.filter(lacking(chain@.pool)),
{
    let ghost keep = lacking(chain@.pool);
    let mut v: Vec<crypto::Hash> = Vec::new();
    let mut i: usize = 0;
    proof {
        reveal(Seq::filter);
        assert(hashes@.subrange(0, 0) =~= Seq::<crypto::Hash>::empty());
        crate::blockchain::lemma_chain_view(chain);
    }
    while i < hashes.len()
        invariant
            i <= hashes.len(),
            chain.wf(),
            keep == lacking(chain@.pool),
            forall|h: crypto::Hash| chain.pool.has(h) == pool_has(chain@.pool, h),
            v@ == hashes@.subrange(0, i as int).filter(keep),
        decreases hashes.len() - i,
    {
        proof {
            let done = hashes@.subrange(0, i as int);
            let next = hashes@.subrange(0, i + 1);
            assert(next.drop_last() =~= done);
            reveal(Seq::filter);
        }
        if !chain.pool.contains(&hashes[i]) {
            v.push(hashes[i]);
        }
        i = i + 1;
    }
    proof {
        assert(hashes@.subrange(0, i as int) =~= hashes@);
    }
    v
}

/// Whether no hash is twice in `hashes`.
pub fn all_distinct(hashes: &Vec<crypto::Hash>) -> (b: bool)
    ensures
        b == hashes@.no_duplicates(),
{
    let mut i: usize = 0;
    while i < hashes.len()
        invariant
            i <= hashes.len(),
            forall|a: int, b: int| 0 <= a < b < i ==> hashes@[a] != hashes@[b],
        decreases hashes.len() - i,
    {
        let mut k: usize = 0;
        while k < i
            invariant
                k <= i,
                i < hashes.len(),
                forall|a: int| 0 <= a < k ==> hashes@[a] != hashes@[i as int],
            decreases i - k,
        {
            if hashes[k] == hashes[i] {
                return false;
            }
            k = k + 1;
        }
        i = i + 1;
    }
    true
}

impl NodeHandler {
    /// Saves `message` to handle it again after a restart.
    pub fn save(&mut self, message: CachedMessage)
        requires
            old(self).wf(),
        ensures
            final(self).wf(),
            final(self)@ == old(self)@.save(message@),
            final(self).kept(old(self)),
    {
        self.blockchain.save_message(message);
    }

    /// Makes the consensus message `payload` of the node's own: saves it,
    /// sends it to the peers, and asks for it to be signed and handed back.
    pub fn issue(&mut self, payload: Payload)
        requires
            old(self).wf(),
        ensures
            final(self).wf(),
            final(self)@ == old(self)@.issue(payload@),
            final(self).kept(old(self)),
    {
        proof {
            reveal(HandlerView::issue);
        }
        self.save(CachedMessage::Own(payload.clone()));
        self.broadcast(Outgoing::Own(payload.clone()));
        let ghost before = self@.internal;
        let ghost view = payload@;
        self.channel.internal_requests.push(InternalRequest::Deliver(payload));
        proof {
            assert(self@.internal =~= before.push(InternalRequestView::Deliver(view)));
        }
    }

    /// Prevotes the propose `hash` in the round `round`, unless the node is
    /// no validator or has prevoted in the round.
    pub fn cast_prevote(&mut self, round: Round, hash: crypto::Hash)
        requires
            old(self).wf(),
        ensures
            final(self).wf(),
            final(self)@ == old(self)@.cast_prevote(round, hash),
            final(self).kept(old(self)),
    {
        proof {
            reveal(HandlerView::cast_prevote);
        }
        match self.state.validator_id() {
            Some(id) => {
                if self.state.our_prevote(round).is_none() {
                    let p = Prevote {
                        validator: id,
                        height: self.state.height(),
                        round,
                        propose_hash: hash,
                        locked_round: self.state.locked_round(),
                    };
                    self.state.add_our_prevote(p);
                    self.issue(Payload::Prevote(p));
                }
            },
            None => {},
        }
    }

    /// Precommits, at the time `now`, the propose `hash` with the block
    /// `block_hash` in the round `round`, unless the node is no validator or
    /// has precommitted in the round.
    pub fn cast_precommit(
        &mut self,
        round: Round,
        hash: crypto::Hash,
        block_hash: crypto::Hash,
        now: Milliseconds,
    )
        requires
            old(self).wf(),
        ensures
            final(self).wf(),
            final(self)@ == old(self)@.cast_precommit(round, hash, block_hash, now),
            final(self).kept(old(self)),
    {
        proof {
            reveal(HandlerView::cast_precommit);
        }
        match self.state.validator_id() {
            Some(id) => {
                if self.state.our_precommit(round).is_none() {
                    let p = Precommit {
                        validator: id,
                        height: self.state.height(),
                        round,
                        propose_hash: hash,
                        block_hash,
                        time: timestamp_from_millis(now),
                    };
                    self.state.add_our_precommit(p);
                    self.issue(Payload::Precommit(p));
                }
            },
            None => {},
        }
    }

    /// Proposes in the current round, unless the node is no validator.
    pub fn propose(&mut self)
        requires
            old(self).wf(),
        ensures
            final(self).wf(),
            final(self)@ == old(self)@.propose(),
            final(self).kept(old(self)),
    {
        proof {
            reveal(HandlerView::propose);
        }
        match self.state.validator_id() {
            Some(id) => {
                let limit = self.txs_block_limit() as usize;
                let transactions = self.blockchain.pool.first_hashes(limit);
                let p = Propose {
                    validator: id,
                    height: self.state.height(),
                    round: self.state.round(),
                    prev_hash: self.state.last_hash(),
                    transactions,
                };
                let round = self.state.round();
                self.state.set_proposed(round);
                self.issue(Payload::Propose(p));
            },
            None => {},
        }
    }

    /// Prevotes as the start of a round asks.
    pub fn prevote_rule(&mut self)
        requires
            old(self).wf(),
        ensures
            final(self).wf(),
            final(self)@ == old(self)@.prevote_rule(),
            final(self).kept(old(self)),
    {
        proof {
            reveal(HandlerView::prevote_rule);
        }
        let round = self.state.round();
        match self.state.locked_propose() {
            Some(locked) => self.cast_prevote(round, locked),
            None => match self.state.first_complete_propose(round) {
                Some(hash) => self.cast_prevote(round, hash),
                None => {},
            },
        }
    }

    /// Goes to the round `round`.
    pub fn enter_round(&mut self, round: Round)
        requires
            old(self).wf(),
        ensures
            final(self).wf(),
            final(self)@ == old(self)@.enter_round(round),
            final(self).kept(old(self)),
    {
        proof {
            reveal(HandlerView::enter_round);
        }
        self.state.jump_round(round);
        self.blockchain.save_round(round);
        self.allow_expedited_propose = true;
        self.add_round_timeout();
        self.add_propose_timeout();
        self.prevote_rule();
    }

    /// Handles the deadline of the round `round` at the height `height`.
    pub fn handle_round_timeout(&mut self, height: Height, round: Round)
        requires
            old(self).wf(),
        ensures
            final(self).wf(),
            final(self)@ == old(self)@.handle_round_timeout(height, round),
            final(self).kept(old(self)),
    {
        proof {
            reveal(HandlerView::handle_round_timeout);
        }
        if self.is_enabled && height == self.state.height() && round == self.state.round()
            && round.0 < u32::MAX {
            self.enter_round(round.next());
        }
    }

    /// Handles the order to go to the round `round` at the height `height`.
    pub fn handle_new_round(&mut self, height: Height, round: Round)
        requires
            old(self).wf(),
        ensures
            final(self).wf(),
            final(self)@ == old(self)@.handle_new_round(height, round),
            final(self).kept(old(self)),
    {
        proof {
            reveal(HandlerView::handle_new_round);
        }
        if self.is_enabled && height == self.state.height() && round.0 > self.state.round().0 {
            self.enter_round(round);
        }
    }

    /// Handles the propose deadline of the round `round` at the height
    /// `height`.
    pub fn handle_propose_timeout(&mut self, height: Height, round: Round)
        requires
            old(self).wf(),
        ensures
            final(self).wf(),
            final(self)@ == old(self)@.handle_propose_timeout(height, round),
            final(self).kept(old(self)),
    {
        proof {
            reveal(HandlerView::handle_propose_timeout);
        }
        if self.is_enabled && height == self.state.height() && round == self.state.round()
            && self.state.is_validator() {
            if self.state.locked_propose().is_some() {
            } else if self.state.is_leader() {
                if self.state.proposed_round().0 < round.0 {
                    self.propose();
                }
            } else {
                self.cast_prevote(round, crypto::Hash::zero());
            }
        }
    }

    /// Locks on the propose `hash` at the last round at which the node can.
    pub fn apply_lock(&mut self, hash: crypto::Hash)
        requires
            old(self).wf(),
        ensures
            final(self).wf(),
            final(self)@ == old(self)@.apply_lock(hash),
            final(self).kept(old(self)),
    {
        proof {
            reveal(HandlerView::apply_lock);
        }
        match self.state.lock_round(hash) {
            Some(round) => self.state.lock(round, hash),
            None => {},
        }
    }

    /// Asks for the propose `hash` to be executed, where that is due.
    pub fn maybe_execute(&mut self, hash: crypto::Hash)
        requires
            old(self).wf(),
        ensures
            final(self).wf(),
            final(self)@ == old(self)@.maybe_execute(hash),
            final(self).kept(old(self)),
    {
        proof {
            reveal(HandlerView::maybe_execute);
        }
        let request = match self.state.propose(&hash) {
            Some(p) => {
                if p.is_complete() && p.executed.is_none() && !p.execution_requested && (
                self.state.locked_propose() == Some(hash) || self.state.has_precommit_quorum(
                    hash,
                )) {
                    Some(
                        ExecuteRequest {
                            propose_hash: hash,
                            height: self.state.height(),
                            proposer: p.propose.payload.validator,
                            transactions: clone_hashes(&p.propose.payload.transactions),
                        },
                    )
                } else {
                    None
                }
            },
            None => None,
        };
        match request {
            Some(request) => {
                self.state.set_execution_requested(&hash);
                let ghost before = self@.internal;
                let ghost view = request@;
                self.channel.internal_requests.push(InternalRequest::ExecuteBlock(request));
                proof {
                    assert(self@.internal =~= before.push(InternalRequestView::ExecuteBlock(view)));
                }
            },
            None => {},
        }
    }

    /// Precommits the propose `hash`, where that is due.
    pub fn maybe_precommit(&mut self, hash: crypto::Hash, now: Milliseconds)
        requires
            old(self).wf(),
        ensures
            final(self).wf(),
            final(self)@ == old(self)@.maybe_precommit(hash, now),
            final(self).kept(old(self)),
    {
        proof {
            reveal(HandlerView::maybe_precommit);
        }
        let executed = match self.state.propose(&hash) {
            Some(p) => p.executed,
            None => None,
        };
        match executed {
            Some(block) => {
                let round = self.state.locked_round();
                if self.state.locked_propose() == Some(hash) && self.state.has_majority_prevotes(
                    round,
                    hash,
                ) && !self.state.has_incompatible_prevote(round, hash)
                    && !self.state.has_other_block(hash, block.block_hash) {
                    self.cast_precommit(round, hash, block.block_hash, now);
                }
            },
            None => {},
        }
    }

    /// Commits, at the time `now`, the block `block` with the transactions
    /// `txs`, justified by the precommits `precommits`.
    pub fn commit_with(
        &mut self,
        block: ExecutedBlock,
        txs: &Vec<crypto::Hash>,
        precommits: Vec<Signed<Precommit>>,
        now: Milliseconds,
    )
        requires
            old(self).wf(),
            old(self)@.chain.can_commit(block, txs@),
        ensures
            final(self).wf(),
            final(self)@ == old(self)@.commit_with(block, txs@, precommits@, now),
            final(self).kept(old(self)),
    {
        proof {
            reveal(HandlerView::commit_with);
        }
        self.blockchain.commit(block, txs, precommits);
        self.state.new_height(block.block_hash, now);
        self.allow_expedited_propose = true;
        let status = Status { height: self.state.height(), last_hash: block.block_hash };
        self.broadcast(Outgoing::Own(Payload::Status(status)));
        self.add_round_timeout();
        self.add_propose_timeout();
        self.add_status_timeout_at(now);
    }

    /// Commits, at the time `now`, the block `block` with the transactions
    /// `txs`, justified by the precommits that the node holds for `key`.
    pub fn commit(&mut self, block: ExecutedBlock, txs: &Vec<crypto::Hash>, key: VoteKey, now: Milliseconds)
        requires
            old(self).wf(),
            old(self)@.chain.can_commit(block, txs@),
        ensures
            final(self).wf(),
            final(self)@ == old(self)@.commit(block, txs@, key, now),
            final(self).kept(old(self)),
    {
        proof {
            reveal(HandlerView::commit);
        }
        let precommits = self.state.precommits.messages_for(&key);
        self.commit_with(block, txs, precommits, now);
    }

    /// Commits the propose `hash`, where that is due.
    pub fn maybe_commit(&mut self, hash: crypto::Hash, now: Milliseconds)
        requires
            old(self).wf(),
        ensures
            final(self).wf(),
            final(self)@ == old(self)@.maybe_commit(hash, now),
            final(self).kept(old(self)),
    {
        proof {
            reveal(HandlerView::maybe_commit);
        }
        let found = match self.state.propose(&hash) {
            Some(p) => match p.executed {
                Some(block) => Some((block, clone_hashes(&p.propose.payload.transactions))),
                None => None,
            },
            None => None,
        };
        match found {
            Some((block, txs)) => {
                match self.state.commit_key(hash, block.block_hash) {
                    Some(key) => {
                        if self.blockchain.can_commit(&block, &txs) {
                            self.commit(block, &txs, key, now);
                        }
                    },
                    None => {},
                }
            },
            None => {},
        }
    }

    /// Takes every step that the propose `hash` allows at the time `now`.
    pub fn advance(&mut self, hash: crypto::Hash, now: Milliseconds)
        requires
            old(self).wf(),
        ensures
            final(self).wf(),
            final(self)@ == old(self)@.advance(hash, now),
            final(self).kept(old(self)),
    {
        proof {
            reveal(HandlerView::advance);
        }
        let complete = match self.state.propose(&hash) {
            Some(p) => p.is_complete(),
            None => false,
        };
        if complete {
            self.apply_lock(hash);
            self.maybe_execute(hash);
            self.maybe_precommit(hash, now);
            self.maybe_commit(hash, now);
        }
    }

    /// Handles the propose `hash` of the round `propose_round`, which was
    /// found to lack no transaction.
    pub fn handle_full_propose(&mut self, hash: crypto::Hash, propose_round: Round, now: Milliseconds)
        requires
            old(self).wf(),
        ensures
            final(self).wf(),
            final(self)@ == old(self)@.handle_full_propose(hash, propose_round, now),
            final(self).kept(old(self)),
    {
        proof {
            reveal(HandlerView::handle_full_propose);
        }
        if propose_round == self.state.round() && self.state.locked_propose().is_none() {
            let round = self.state.round();
            self.cast_prevote(round, hash);
        }
        self.advance(hash, now);
    }

    /// Whether the node takes the propose `msg`.
    pub fn takes_propose(&self, msg: &Signed<Propose>) -> (b: bool)
        requires
            self.wf(),
        ensures
            b == self@.takes_propose(msg@),
    {
        if self.state.validators().len() == 0 {
            return false;
        }
        if !(msg.payload.validator == self.state.leader(msg.payload.round) && msg.payload.prev_hash
            == self.state.last_hash() && self.state.propose_position(&msg.hash).is_none()
            && all_distinct(&msg.payload.transactions)) {
            return false;
        }
        let mut i: usize = 0;
        while i < msg.payload.transactions.len()
            invariant
                i <= msg.payload.transactions.len(),
                self.wf(),
                forall|j: int|
                    0 <= j < i ==> !self@.chain.is_committed(
                        #[trigger] msg.payload.transactions@[j],
                    ),
            decreases msg.payload.transactions.len() - i,
        {
            if self.blockchain.is_in_block(&msg.payload.transactions[i]) {
                return false;
            }
            i = i + 1;
        }
        true
    }

    /// Handles the propose `msg` of the current height, which came from a
    /// validator at the time `now`.
    pub fn handle_propose(&mut self, msg: Signed<Propose>, now: Milliseconds, save: bool)
        requires
            old(self).wf(),
        ensures
            final(self).wf(),
            final(self)@ == old(self)@.handle_propose(msg@, now, save),
            final(self).kept(old(self)),
    {
        proof {
            reveal(HandlerView::handle_propose);
        }
        if !self.takes_propose(&msg) {
            return ;
        }
        let unknown = unknown_transactions(&self.blockchain, &msg.payload.transactions);
        let author = msg.author;
        let hash = msg.hash;
        let round = msg.payload.round;
        let message = if save {
            let copy = clone_propose(&msg);
            Some(
                Signed {
                    payload: Payload::Propose(copy.payload),
                    author: copy.author,
                    hash: copy.hash,
                    signature: copy.signature,
                },
            )
        } else {
            None
        };
        let lacks = unknown.len() > 0;
        let asked = clone_hashes(&unknown);
        self.state.add_propose(msg, unknown);
        match message {
            Some(message) => self.save(CachedMessage::Received(message)),
            None => {},
        }
        if lacks {
            self.request_at(RequestData::Transactions(asked), author, now);
        } else {
            self.handle_full_propose(hash, round, now);
        }
    }

    /// Asks the sender `author` for the propose `hash`, where the node does
    /// not know it.
    pub fn request_propose(&mut self, hash: crypto::Hash, author: PublicKey, now: Milliseconds)
        requires
            old(self).wf(),
        ensures
            final(self).wf(),
            final(self)@ == old(self)@.request_propose(hash, author, now),
            final(self).kept(old(self)),
    {
        proof {
            reveal(HandlerView::request_propose);
        }
        if hash != crypto::Hash::zero() && self.state.propose_position(&hash).is_none() {
            self.request_at(RequestData::Propose(hash), author, now);
        }
    }

    /// Handles the finding that a quorum prevoted the propose `hash` in the
    /// round `round`.
    pub fn handle_majority_prevotes(&mut self, round: Round, hash: crypto::Hash, now: Milliseconds)
        requires
            old(self).wf(),
        ensures
            final(self).wf(),
            final(self)@ == old(self)@.handle_majority_prevotes(round, hash, now),
            final(self).kept(old(self)),
    {
        proof {
            reveal(HandlerView::handle_majority_prevotes);
        }
        let complete = match self.state.propose(&hash) {
            Some(p) => p.is_complete(),
            None => false,
        };
        if complete {
            self.apply_lock(hash);
        }
        if round.0 > self.state.round().0 {
            self.enter_round(round);
        }
        self.advance(hash, now);
    }

    /// Handles the prevote `msg` of the current height, which came from a
    /// validator at the time `now`.
    pub fn handle_prevote(&mut self, msg: Signed<Prevote>, now: Milliseconds, save: bool)
        requires
            old(self).wf(),
            msg.payload.height == old(self)@.state.height,
            msg.payload.validator.0 < old(self)@.state.n(),
        ensures
            final(self).wf(),
            final(self)@ == old(self)@.handle_prevote(msg, now, save),
            final(self).kept(old(self)),
    {
        proof {
            reveal(HandlerView::handle_prevote);
        }
        let p = msg.payload;
        let key = VoteKey {
            round: p.round,
            propose_hash: p.propose_hash,
            block_hash: crypto::Hash::zero(),
        };
        if self.state.prevotes.contains(
            &crate::node::votes::VoteRecord { validator: p.validator, key },
        ) {
            return ;
        }
        if !self.state.remembers_prevote(&p) {
            return ;
        }
        self.state.add_prevote(msg);
        if save {
            self.save(
                CachedMessage::Received(
                    Signed {
                        payload: Payload::Prevote(p),
                        author: msg.author,
                        hash: msg.hash,
                        signature: msg.signature,
                    },
                ),
            );
        }
        self.request_propose(p.propose_hash, msg.author, now);
        if self.state.has_majority_prevotes(p.round, p.propose_hash) {
            self.handle_majority_prevotes(p.round, p.propose_hash, now);
        }
    }

    /// Handles the precommit `msg` of the current height, which came from a
    /// validator at the time `now`.
    pub fn handle_precommit(&mut self, msg: Signed<Precommit>, now: Milliseconds, save: bool)
        requires
            old(self).wf(),
            msg.payload.height == old(self)@.state.height,
            msg.payload.validator.0 < old(self)@.state.n(),
        ensures
            final(self).wf(),
            final(self)@ == old(self)@.handle_precommit(msg, now, save),
            final(self).kept(old(self)),
    {
        proof {
            reveal(HandlerView::handle_precommit);
        }
        let p = msg.payload;
        let key = VoteKey { round: p.round, propose_hash: p.propose_hash, block_hash: p.block_hash };
        if self.state.precommits.contains(
            &crate::node::votes::VoteRecord { validator: p.validator, key },
        ) {
            return ;
        }
        if !self.state.remembers_precommit(&p) {
            return ;
        }
        self.state.add_precommit(msg);
        if save {
            self.save(
                CachedMessage::Received(
                    Signed {
                        payload: Payload::Precommit(p),
                        author: msg.author,
                        hash: msg.hash,
                        signature: msg.signature,
                    },
                ),
            );
        }
        self.request_propose(p.propose_hash, msg.author, now);
        if self.state.has_majority_precommits(&key) {
            self.advance(p.propose_hash, now);
        }
    }

    /// Handles the news, at the time `now`, that executing the propose
    /// `hash` gave `block`.
    pub fn handle_executed(&mut self, hash: crypto::Hash, block: ExecutedBlock, now: Milliseconds)
        requires
            old(self).wf(),
        ensures
            final(self).wf(),
            final(self)@ == old(self)@.handle_executed(hash, block, now),
            final(self).kept(old(self)),
    {
        proof {
            reveal(HandlerView::handle_executed);
        }
        if self.is_enabled {
            self.state.set_executed(&hash, block);
            self.advance(hash, now);
        }
    }
}

} // verus!
