//! Laws of the node: what holds of every state that meets the invariant,
//! whatever events come.

use vstd::prelude::*;
use crate::blockchain::pool::{is_rank, pool_ascending, pool_has, pool_index, pool_rank, pool_with};
use crate::blockchain::{CachedMessageView, ChainView, ExecutedBlock};
use crate::crypto;
use crate::helpers::{Height, Milliseconds, Round};
use crate::messages::{PayloadView, Precommit, Prevote, ProposeView, SignedView, TxView};
use crate::node::basic::lemma_full_proposes_step;
use crate::node::dispatch::{lemma_recall_step, lemma_replay_step};
use crate::node::handler::HandlerView;
use crate::node::rules::own_prevotes;
use crate::node::state::{precommit_index, prevote_index, ProposeStateView, StateView};

verus! {

/// A validator votes once. In a state that meets the invariant, two
/// prevotes of the node itself that are of one round are one and the same
/// vote, and so are two precommits.
pub proof fn lemma_own_votes_once(s: StateView, i: int, j: int)
    requires
        s.wf(),
        s.validator_state is Some,
    ensures
        0 <= i < s.validator_state->0.our_prevotes.len() && 0 <= j
            < s.validator_state->0.our_prevotes.len() && s.validator_state->0.our_prevotes[i].round
            == s.validator_state->0.our_prevotes[j].round ==> i == j,
        0 <= i < s.validator_state->0.our_precommits.len() && 0 <= j
            < s.validator_state->0.our_precommits.len()
            && s.validator_state->0.our_precommits[i].round
            == s.validator_state->0.our_precommits[j].round ==> i == j,
{
    let v = s.validator_state->0;
    if 0 <= i < v.our_prevotes.len() && 0 <= j < v.our_prevotes.len() && v.our_prevotes[i].round
        == v.our_prevotes[j].round {
        if i < j {
            assert(v.our_prevotes[i].round != v.our_prevotes[j].round);
        } else if j < i {
            assert(v.our_prevotes[j].round != v.our_prevotes[i].round);
        }
    }
    if 0 <= i < v.our_precommits.len() && 0 <= j < v.our_precommits.len()
        && v.our_precommits[i].round == v.our_precommits[j].round {
        if i < j {
            assert(v.our_precommits[i].round != v.our_precommits[j].round);
        } else if j < i {
            assert(v.our_precommits[j].round != v.our_precommits[i].round);
        }
    }
}

/// Two quorums meet. In a state that meets the invariant, any two subjects
/// that a quorum each has prevoted have more than a third of the validators
/// among the voters of both, and so have any two subjects that a quorum each
/// has precommitted. Where fewer than a third of the validators are faulty,
/// one of the common voters is honest: it has voted for both.
pub proof fn lemma_quorums_meet(s: StateView, a: crate::node::votes::VoteKey, b: crate::node::votes::VoteKey)
    requires
        s.wf(),
    ensures
        s.prevotes.votes_for(a) >= s.quorum() && s.prevotes.votes_for(b) >= s.quorum() ==> 3
            * crate::node::votes::voters(s.prevotes.records, a).intersect(
            crate::node::votes::voters(s.prevotes.records, b),
        ).len() > s.n(),
        s.precommits.votes_for(a) >= s.quorum() && s.precommits.votes_for(b) >= s.quorum() ==> 3
            * crate::node::votes::voters(s.precommits.records, a).intersect(
            crate::node::votes::voters(s.precommits.records, b),
        ).len() > s.n(),
{
    crate::node::state::lemma_voters_are_validators(s, a);
    crate::node::state::lemma_voters_are_validators(s, b);
    if s.prevotes.votes_for(a) >= s.quorum() && s.prevotes.votes_for(b) >= s.quorum() {
        crate::node::votes::lemma_quorums_intersect(
            s.n(),
            crate::node::votes::voters(s.prevotes.records, a),
            crate::node::votes::voters(s.prevotes.records, b),
        );
    }
    if s.precommits.votes_for(a) >= s.quorum() && s.precommits.votes_for(b) >= s.quorum() {
        crate::node::votes::lemma_quorums_intersect(
            s.n(),
            crate::node::votes::voters(s.precommits.records, a),
            crate::node::votes::voters(s.precommits.records, b),
        );
    }
}

/// A prevote that is noted is found again under its round.
pub proof fn lemma_prevote_noted(s: StateView, p: Prevote)
    requires
        s.validator_state is Some,
        s.our_prevote(p.round) is None,
    ensures
        s.with_our_prevote(p).our_prevote(p.round) == Some(p),
{
    let before = s.validator_state->0.our_prevotes;
    let after = before.push(p);
    assert(after[before.len() as int].round == p.round);
    let k = prevote_index(after, p.round);
    if k < before.len() {
        assert(before[k].round == p.round);
    }
}

/// A precommit that is noted is found again under its round.
pub proof fn lemma_precommit_noted(s: StateView, p: Precommit)
    requires
        s.validator_state is Some,
        s.our_precommit(p.round) is None,
    ensures
        s.with_our_precommit(p).our_precommit(p.round) == Some(p),
{
    let before = s.validator_state->0.our_precommits;
    let after = before.push(p);
    assert(after[before.len() as int].round == p.round);
    let k = precommit_index(after, p.round);
    if k < before.len() {
        assert(before[k].round == p.round);
    }
}

/// The node prevotes at most once in a round: once it has prevoted in a
/// round, to prevote in that round again, for whatever propose, changes
/// nothing. And a prevote that the node casts is for the propose named.
pub proof fn lemma_prevote_cast_once(
    h: HandlerView,
    round: Round,
    first: crypto::Hash,
    second: crypto::Hash,
)
    ensures
        h.cast_prevote(round, first).cast_prevote(round, second) == h.cast_prevote(round, first),
        h.state.is_validator() ==> h.cast_prevote(round, first).state.our_prevote(round) is Some,
        h.state.is_validator() && h.state.our_prevote(round) is None ==> h.cast_prevote(
            round,
            first,
        ).state.our_prevote(round)->0.propose_hash == first,
{
    reveal(HandlerView::cast_prevote);
    reveal(HandlerView::issue);
    if h.state.validator_state is Some && h.state.our_prevote(round) is None {
        let p = Prevote {
            validator: h.state.validator_state->0.id,
            height: h.state.height,
            round,
            propose_hash: first,
            locked_round: h.state.locked_round,
        };
        lemma_prevote_noted(h.state, p);
    }
}

/// The node precommits at most once in a round: once it has precommitted
/// in a round, to precommit in that round again, for whatever propose and
/// block, changes nothing.
pub proof fn lemma_precommit_cast_once(
    h: HandlerView,
    round: Round,
    first: crypto::Hash,
    first_block: crypto::Hash,
    second: crypto::Hash,
    second_block: crypto::Hash,
    now: Milliseconds,
    later: Milliseconds,
)
    ensures
        h.cast_precommit(round, first, first_block, now).cast_precommit(
            round,
            second,
            second_block,
            later,
        ) == h.cast_precommit(round, first, first_block, now),
        h.state.is_validator() ==> h.cast_precommit(
            round,
            first,
            first_block,
            now,
        ).state.our_precommit(round) is Some,
{
    reveal(HandlerView::cast_precommit);
    reveal(HandlerView::issue);
    if h.state.validator_state is Some && h.state.our_precommit(round) is None {
        let p = Precommit {
            validator: h.state.validator_state->0.id,
            height: h.state.height,
            round,
            propose_hash: first,
            block_hash: first_block,
            time: crate::node::consensus::timestamp_of(now),
        };
        lemma_precommit_noted(h.state, p);
    }
}

/// The node precommits a propose only when it is locked on it, a quorum has
/// prevoted the propose in the round of the lock, the node has prevoted no
/// other propose in a later round, it knows the outcome of the propose, and
/// it has not precommitted the propose with another block.
pub proof fn lemma_precommit_is_justified(h: HandlerView, hash: crypto::Hash, now: Milliseconds)
    ensures
        h.maybe_precommit(hash, now) != h ==> {
            &&& h.state.locked_propose == Some(hash)
            &&& h.state.has_majority_prevotes(h.state.locked_round, hash)
            &&& !h.state.has_incompatible_prevote(h.state.locked_round, hash)
            &&& !h.state.has_other_block(hash, h.state.executed(hash)->0.block_hash)
            &&& h.state.executed(hash) is Some
            &&& h.maybe_precommit(hash, now) == h.cast_precommit(
                h.state.locked_round,
                hash,
                h.state.executed(hash)->0.block_hash,
                now,
            )
        },
{
    reveal(HandlerView::maybe_precommit);
}

/// A node that is locked prevotes the propose on which it is locked, in
/// whatever round it is.
pub proof fn lemma_prevote_follows_lock(h: HandlerView)
    ensures
        h.state.locked_propose matches Some(locked) ==> h.prevote_rule() == h.cast_prevote(
            h.state.round,
            locked,
        ),
{
    reveal(HandlerView::prevote_rule);
}

/// To lock, to ask for an execution and to precommit leave the height and
/// the node's own prevotes as they are.
pub proof fn lemma_steps_keep_prevotes(h: HandlerView, hash: crypto::Hash, now: Milliseconds)
    ensures
        own_prevotes(h.apply_lock(hash).state) == own_prevotes(h.state),
        h.apply_lock(hash).state.height == h.state.height,
        own_prevotes(h.maybe_execute(hash).state) == own_prevotes(h.state),
        h.maybe_execute(hash).state.height == h.state.height,
        own_prevotes(h.maybe_precommit(hash, now).state) == own_prevotes(h.state),
        h.maybe_precommit(hash, now).state.height == h.state.height,
{
    reveal(HandlerView::apply_lock);
    reveal(HandlerView::maybe_execute);
    reveal(HandlerView::maybe_precommit);
    reveal(HandlerView::cast_precommit);
    reveal(HandlerView::issue);
}

/// To commit where that is due either starts the next height or changes
/// nothing.
pub proof fn lemma_commit_or_nothing(h: HandlerView, hash: crypto::Hash, now: Milliseconds)
    ensures
        h.maybe_commit(hash, now) == h || h.maybe_commit(hash, now).state.height.0 == (
        h.state.height.0 + 1) as u64,
{
    reveal(HandlerView::maybe_commit);
    reveal(HandlerView::commit);
    reveal(HandlerView::commit_with);
}

/// Every step that a propose allows leaves the node's own prevotes as they
/// are, unless the height is over.
pub proof fn lemma_advance_keeps_prevotes(h: HandlerView, hash: crypto::Hash, now: Milliseconds)
    requires
        h.state.height.0 < u64::MAX,
    ensures
        h.advance(hash, now).state.height == h.state.height ==> own_prevotes(
            h.advance(hash, now).state,
        ) == own_prevotes(h.state),
{
    reveal(HandlerView::advance);
    let locked = h.apply_lock(hash);
    lemma_steps_keep_prevotes(h, hash, now);
    let asked = locked.maybe_execute(hash);
    lemma_steps_keep_prevotes(locked, hash, now);
    let voted = asked.maybe_precommit(hash, now);
    lemma_steps_keep_prevotes(asked, hash, now);
    lemma_commit_or_nothing(voted, hash, now);
}

/// A node that is locked prevotes nothing but the propose on which it is
/// locked: the deadline of a propose makes it prevote nothing, and so does a
/// propose that is found to be full, unless the height is over.
pub proof fn lemma_locked_node_prevotes_its_lock(
    h: HandlerView,
    hash: crypto::Hash,
    height: Height,
    round: Round,
    now: Milliseconds,
)
    requires
        h.state.locked_propose is Some,
        h.state.height.0 < u64::MAX,
    ensures
        h.handle_propose_timeout(height, round) == h,
        h.handle_full_propose(hash, round, now).state.height == h.state.height ==> own_prevotes(
            h.handle_full_propose(hash, round, now).state,
        ) == own_prevotes(h.state),
{
    reveal(HandlerView::handle_propose_timeout);
    reveal(HandlerView::handle_full_propose);
    lemma_advance_keeps_prevotes(h, hash, now);
}

/// The lock moves only to a later round. The round at which the node locks
/// on a propose is after the round at which it is locked, and a quorum has
/// prevoted the propose in it. So a quorum of prevotes in the round of the
/// lock itself, or in an earlier one, moves nothing: a node that is locked at
/// the current round stays locked as it is in that round.
pub proof fn lemma_lock_needs_later_round(h: HandlerView, hash: crypto::Hash)
    ensures
        h.state.lock_round(hash) matches Some(r) ==> r.0 > h.state.locked_round.0
            && h.state.has_majority_prevotes(r, hash),
        (forall|r: Round| #[trigger]
            h.state.has_majority_prevotes(r, hash) ==> r.0 <= h.state.locked_round.0)
            ==> h.apply_lock(hash) == h,
        h.apply_lock(hash).state.locked_round.0 >= h.state.locked_round.0,
{
    reveal(HandlerView::apply_lock);
    let s = h.state;
    if exists|r: Round| s.can_lock_at(hash, r) {
        let witness = choose|r: Round| s.can_lock_at(hash, r);
        let c = choose|r: Round| #[trigger]
            s.can_lock_at(hash, r) && forall|q: Round| #[trigger]
                s.can_lock_at(hash, q) ==> q.0 <= r.0;
        lemma_greatest_round(s, hash, witness);
        assert(s.can_lock_at(hash, c));
        assert(s.has_majority_prevotes(c, hash));
    }
}

/// Among the rounds at which the node can lock on a propose there is a
/// last one.
proof fn lemma_greatest_round(s: StateView, hash: crypto::Hash, witness: Round)
    requires
        s.can_lock_at(hash, witness),
    ensures
        exists|r: Round| #[trigger]
            s.can_lock_at(hash, r) && forall|q: Round| #[trigger]
                s.can_lock_at(hash, q) ==> q.0 <= r.0,
    decreases u32::MAX - witness.0,
{
    if forall|q: Round| #[trigger] s.can_lock_at(hash, q) ==> q.0 <= witness.0 {
    } else {
        let q = choose|q: Round| #[trigger] s.can_lock_at(hash, q) && q.0 > witness.0;
        lemma_greatest_round(s, hash, q);
    }
}

/// A propose that names a transaction of a committed block is not taken:
/// it changes nothing.
pub proof fn lemma_committed_transaction_rejects(
    h: HandlerView,
    msg: SignedView<ProposeView>,
    now: Milliseconds,
    save: bool,
    i: int,
)
    requires
        0 <= i < msg.payload.transactions.len(),
        h.chain.is_committed(msg.payload.transactions[i]),
    ensures
        !h.takes_propose(msg),
        h.handle_propose(msg, now, save) == h,
{
    reveal(HandlerView::handle_propose);
}

/// The height that a saved message names, where it is a consensus
/// message.
pub open spec fn height_of(entry: CachedMessageView) -> Option<Height> {
    let payload = match entry {
        CachedMessageView::Own(p) => p,
        CachedMessageView::Received(m) => m.payload,
    };
    match payload {
        PayloadView::Propose(p) => Some(p.height),
        PayloadView::Prevote(p) => Some(p.height),
        PayloadView::Precommit(p) => Some(p.height),
        _ => None,
    }
}

/// To recall saved consensus messages of earlier heights changes nothing.
pub proof fn lemma_recall_of_earlier_heights(h: HandlerView, entries: Seq<CachedMessageView>)
    requires
        forall|i: int|
            0 <= i < entries.len() ==> (match height_of(#[trigger] entries[i]) {
                Some(height) => height.0 < h.state.height.0,
                None => true,
            }),
    ensures
        h.recall(entries) == h,
    decreases entries.len(),
{
    lemma_recall_step(h, entries);
    if entries.len() > 0 {
        let rest = entries.drop_last();
        assert forall|i: int| 0 <= i < rest.len() implies (match height_of(#[trigger] rest[i]) {
            Some(height) => height.0 < h.state.height.0,
            None => true,
        }) by {
            assert(rest[i] == entries[i]);
        }
        lemma_recall_of_earlier_heights(h, rest);
        let last = entries[entries.len() - 1];
        assert(last == entries.last());
        reveal(HandlerView::recall_entry);
    }
}

/// A node that holds saved consensus messages of earlier heights only
/// changes nothing when it recalls them and takes them up again.
pub proof fn lemma_replay_of_earlier_heights(h: HandlerView, count: nat, now: Milliseconds)
    requires
        forall|i: int|
            0 <= i < h.chain.cache.len() ==> (match height_of(#[trigger] h.chain.cache[i]) {
                Some(height) => height.0 < h.state.height.0,
                None => true,
            }),
    ensures
        h.recall(h.chain.cache) == h,
        h.replay_first(count, now) == h,
    decreases count,
{
    lemma_recall_of_earlier_heights(h, h.chain.cache);
    lemma_replay_step(h, count, now);
    if count > 0 {
        lemma_replay_of_earlier_heights(h, (count - 1) as nat, now);
        reveal(HandlerView::replay_at);
        reveal(HandlerView::replay_entry);
        reveal(HandlerView::handle_consensus);
        reveal(HandlerView::out_of_window);
        if count - 1 < h.chain.cache.len() {
            let last = h.chain.cache[count - 1];
            assert(match height_of(last) {
                Some(height) => height.0 < h.state.height.0,
                None => true,
            });
        }
    }
}

/// A consensus message of an earlier height that comes from the network
/// changes nothing either.
pub proof fn lemma_message_of_earlier_height(
    h: HandlerView,
    msg: SignedView<PayloadView>,
    now: Milliseconds,
    save: bool,
)
    requires
        height_of(CachedMessageView::Received(msg)) matches Some(height) && height.0
            < h.state.height.0,
    ensures
        h.handle_consensus(msg, now, save) == h,
{
    reveal(HandlerView::handle_consensus);
    reveal(HandlerView::out_of_window);
}

/// The handler as it stands when it has started and has not yet taken up
/// the saved messages.
pub open spec fn resumed(h: HandlerView, now: Milliseconds) -> HandlerView {
    h.connect_all(h.startup_peers()).restore_round().add_timeouts(now)
}

/// A node that starts resumes at the height after its last block and at
/// the round that it had saved, with its chain as it was: from there it
/// recalls and takes up the saved messages, and where none is saved it stays
/// there.
pub proof fn lemma_resume(h: HandlerView, now: Milliseconds)
    ensures
        resumed(h, now).state.height == h.state.height,
        resumed(h, now).state.round == h.chain.consensus_round,
        resumed(h, now).chain == h.chain,
        h.initialize(now) == resumed(h, now).recall(h.chain.cache).replay_first(
            h.chain.cache.len(),
            now,
        ),
        h.chain.cache.len() == 0 ==> h.initialize(now) == resumed(h, now),
{
    reveal(HandlerView::initialize);
    lemma_recall_step(resumed(h, now), h.chain.cache);
    lemma_replay_step(resumed(h, now), 0, now);
}

/// Among the proposes with a hash there is a first.
pub proof fn lemma_first_propose(s: StateView, hash: crypto::Hash, i: int)
    requires
        0 <= i < s.proposes.len(),
        s.proposes[i].propose.hash == hash,
    ensures
        s.has_propose(hash),
        0 <= s.propose_index(hash) <= i,
        s.proposes[s.propose_index(hash)].propose.hash == hash,
        forall|j: int|
            0 <= j < s.propose_index(hash) ==> (#[trigger] s.proposes[j]).propose.hash != hash,
    decreases i,
{
    if forall|j: int| 0 <= j < i ==> (#[trigger] s.proposes[j]).propose.hash != hash {
        let k = s.propose_index(hash);
        if k > i {
            assert(s.proposes[i].propose.hash != hash);
        }
    } else {
        let j = choose|j: int| 0 <= j < i && (#[trigger] s.proposes[j]).propose.hash == hash;
        lemma_first_propose(s, hash, j);
    }
}

/// Where a propose with a hash is known, its place is the first with that
/// hash.
pub proof fn lemma_propose_index(s: StateView, hash: crypto::Hash)
    requires
        s.has_propose(hash),
    ensures
        0 <= s.propose_index(hash) < s.proposes.len(),
        s.proposes[s.propose_index(hash)].propose.hash == hash,
        forall|j: int|
            0 <= j < s.propose_index(hash) ==> (#[trigger] s.proposes[j]).propose.hash != hash,
{
    let i = choose|i: int|
        0 <= i < s.proposes.len() && (#[trigger] s.proposes[i]).propose.hash == hash;
    lemma_first_propose(s, hash, i);
}

/// The outcome of an execution is kept: once an outcome of a propose is
/// noted, another one that comes for the same propose changes nothing.
pub proof fn lemma_outcome_is_kept(s: StateView, hash: crypto::Hash, first: ExecutedBlock, second: ExecutedBlock)
    ensures
        s.executed(hash) is Some ==> s.with_executed(hash, second) == s,
        s.with_executed(hash, first).executed(hash) is Some ==> s.with_executed(
            hash,
            first,
        ).with_executed(hash, second) == s.with_executed(hash, first),
        s.has_complete_propose(hash) && s.executed(hash) is None ==> s.with_executed(
            hash,
            first,
        ).executed(hash) == Some(first),
{
    if s.has_propose(hash) {
        lemma_propose_index(s, hash);
        let at = s.propose_index(hash);
        let p = s.proposes[at];
        if p.executed is None && p.is_complete() {
            let after = s.with_executed(hash, first);
            assert(after.proposes[at].propose.hash == hash);
            lemma_first_propose(after, hash, at);
            let k = after.propose_index(hash);
            if k < at {
                assert(after.proposes[k] == s.proposes[k]);
                assert(s.proposes[k].propose.hash != hash);
            }
            assert(k == at);
        }
    }
}

/// The execution of a propose is asked for once: once it was asked for,
/// no step asks for it again.
pub proof fn lemma_execution_asked_once(h: HandlerView, hash: crypto::Hash)
    ensures
        h.maybe_execute(hash).maybe_execute(hash) == h.maybe_execute(hash),
{
    reveal(HandlerView::maybe_execute);
    let s = h.state;
    if s.has_propose(hash) {
        lemma_propose_index(s, hash);
        let at = s.propose_index(hash);
        let p = s.proposes[at];
        if h.maybe_execute(hash) != h {
            let after = s.with_execution_requested(hash);
            assert(after.proposes[at].propose.hash == hash);
            lemma_first_propose(after, hash, at);
            let k = after.propose_index(hash);
            if k < at {
                assert(after.proposes[k] == s.proposes[k]);
                assert(s.proposes[k].propose.hash != hash);
            }
            assert(k == at);
            assert(after.propose(hash)->0.execution_requested);
        }
    }
}

/// In an ascending pool every hash has its place.
pub proof fn lemma_rank_exists(pool: Seq<SignedView<TxView>>, hash: crypto::Hash)
    requires
        pool_ascending(pool),
    ensures
        is_rank(pool, hash, pool_rank(pool, hash)),
    decreases pool.len(),
{
    if pool.len() == 0 {
        assert(is_rank(pool, hash, 0));
    } else {
        let rest = pool.drop_last();
        assert(pool_ascending(rest)) by {
            assert forall|i: int, j: int| 0 <= i < j < rest.len() implies (
            #[trigger] rest[i]).hash.spec_lt((#[trigger] rest[j]).hash) by {
                assert(pool[i].hash.spec_lt(pool[j].hash));
            }
        }
        lemma_rank_exists(rest, hash);
        let at = pool_rank(rest, hash);
        if pool.last().hash.spec_lt(hash) {
            assert(is_rank(pool, hash, pool.len() as int)) by {
                assert forall|j: int| 0 <= j < pool.len() implies (#[trigger] pool[j]).hash.spec_lt(
                    hash,
                ) by {
                    if j < pool.len() - 1 {
                        assert(pool[j].hash.spec_lt(pool[pool.len() - 1].hash));
                    }
                }
            }
        } else {
            assert(is_rank(pool, hash, at)) by {
                assert forall|j: int| 0 <= j < at implies (#[trigger] pool[j]).hash.spec_lt(hash) by {
                    assert(rest[j].hash.spec_lt(hash));
                }
                assert forall|j: int| at <= j < pool.len() implies !(
                #[trigger] pool[j]).hash.spec_lt(hash) by {
                    if j < rest.len() {
                        assert(!rest[j].hash.spec_lt(hash));
                    }
                }
            }
        }
    }
}

/// A transaction that joins an ascending pool makes it one longer, leaves
/// it ascending, and is the only new one in it.
pub proof fn lemma_pool_with(pool: Seq<SignedView<TxView>>, tx: SignedView<TxView>)
    requires
        pool_ascending(pool),
    ensures
        pool_ascending(pool_with(pool, tx)),
        pool_has(pool_with(pool, tx), tx.hash),
        forall|h: crypto::Hash|
            pool_has(pool_with(pool, tx), h) <==> (h == tx.hash || pool_has(pool, h)),
        pool_with(pool, tx).len() == if pool_has(pool, tx.hash) {
            pool.len()
        } else {
            pool.len() + 1
        },
{
    if !pool_has(pool, tx.hash) {
        lemma_rank_exists(pool, tx.hash);
        let at = pool_rank(pool, tx.hash);
        let after = pool.insert(at, tx);
        assert forall|i: int, j: int| 0 <= i < j < after.len() implies (
        #[trigger] after[i]).hash.spec_lt((#[trigger] after[j]).hash) by {
            if j == at {
                assert(after[i] == pool[i]);
            } else if i == at {
                assert(after[j] == pool[j - 1]);
                assert(!pool[j - 1].hash.spec_lt(tx.hash));
                crate::blockchain::pool::lemma_lt_total(pool[j - 1].hash, tx.hash);
            } else {
                let bi = if i < at { i } else { i - 1 };
                let bj = if j < at { j } else { j - 1 };
                assert(after[i] == pool[bi]);
                assert(after[j] == pool[bj]);
            }
        }
        assert(after[at].hash == tx.hash);
        assert forall|h: crypto::Hash| pool_has(after, h) <==> (h == tx.hash || pool_has(
            pool,
            h,
        )) by {
            if pool_has(after, h) {
                let i = pool_index(after, h);
                if i < at {
                    assert(pool[i].hash == h);
                } else if i > at {
                    assert(pool[i - 1].hash == h);
                }
            }
            if pool_has(pool, h) {
                let i = pool_index(pool, h);
                if i < at {
                    assert(after[i].hash == h);
                } else {
                    assert(after[i + 1].hash == h);
                }
            }
        }
    }
}

/// The pool and the blocks share no transaction, and a transaction that
/// comes leaves it so: it joins the pool only where neither holds it.
pub proof fn lemma_with_tx_keeps_wf(chain: ChainView, tx: SignedView<TxView>)
    requires
        chain.wf(),
    ensures
        chain.with_tx(tx).wf(),
        forall|h: crypto::Hash| !(pool_has(chain.pool, h) && chain.is_committed(h)),
        chain.with_tx(tx).pool.len() == if chain.knows(tx.hash) {
            chain.pool.len()
        } else {
            chain.pool.len() + 1
        },
        chain.with_tx(tx).knows(tx.hash),
{
    lemma_pool_with(chain.pool, tx);
    let after = chain.with_tx(tx);
    assert(after.blocks == chain.blocks);
    assert forall|h: crypto::Hash| !(pool_has(after.pool, h) && after.is_committed(h)) by {
        assert(after.is_committed(h) == chain.is_committed(h));
        if pool_has(after.pool, h) && after.is_committed(h) {
            assert(h == tx.hash || pool_has(chain.pool, h));
            assert(!(pool_has(chain.pool, h) && chain.is_committed(h)));
        }
    }
}

/// A transaction that the pool or a block holds changes nothing when it
/// comes again, whatever its service says.
pub proof fn lemma_same_transaction_again(
    h: HandlerView,
    tx: SignedView<TxView>,
    accepted: bool,
    now: Milliseconds,
)
    requires
        h.chain.knows(tx.hash),
    ensures
        h.handle_tx_with(tx, accepted, now) == h,
{
    reveal(HandlerView::handle_tx_with);
}

/// What a step leaves as it is when it commits nothing: the pool, the
/// blocks, the services, and what is known of the proposes' outcomes.
pub open spec fn same_chain(a: HandlerView, b: HandlerView) -> bool {
    &&& a.chain.pool == b.chain.pool
    &&& a.chain.blocks == b.chain.blocks
    &&& a.chain.service_ids == b.chain.service_ids
    &&& a.state.proposes.len() == b.state.proposes.len()
    &&& forall|i: int|
        0 <= i < a.state.proposes.len() ==> (#[trigger] a.state.proposes[i]).propose
            == b.state.proposes[i].propose && a.state.proposes[i].executed
            == b.state.proposes[i].executed && a.state.proposes[i].unknown_txs
            == b.state.proposes[i].unknown_txs
}

/// States that hold the same proposes find the same propose under a hash.
proof fn lemma_same_proposes(a: StateView, b: StateView, hash: crypto::Hash)
    requires
        a.proposes.len() == b.proposes.len(),
        forall|i: int|
            0 <= i < a.proposes.len() ==> (#[trigger] a.proposes[i]).propose == b.proposes[i].propose
                && a.proposes[i].executed == b.proposes[i].executed && a.proposes[i].unknown_txs
                == b.proposes[i].unknown_txs,
    ensures
        a.has_propose(hash) == b.has_propose(hash),
        a.has_propose(hash) ==> a.propose_index(hash) == b.propose_index(hash),
        a.executed(hash) == b.executed(hash),
        a.has_complete_propose(hash) == b.has_complete_propose(hash),
{
    if a.has_propose(hash) {
        lemma_propose_index(a, hash);
        let i = a.propose_index(hash);
        assert(b.proposes[i].propose == a.proposes[i].propose);
        lemma_first_propose(b, hash, i);
        let k = b.propose_index(hash);
        if k < i {
            assert(a.proposes[k].propose == b.proposes[k].propose);
            assert(a.proposes[k].propose.hash != hash);
        }
        assert(k == i);
    }
    if b.has_propose(hash) {
        lemma_propose_index(b, hash);
        let i = b.propose_index(hash);
        assert(a.proposes[i].propose == b.proposes[i].propose);
        lemma_first_propose(a, hash, i);
    }
}

/// To note that the execution of a propose was asked for changes nothing
/// else about the proposes.
proof fn lemma_request_keeps(s: StateView, hash: crypto::Hash)
    ensures
        s.with_execution_requested(hash).proposes.len() == s.proposes.len(),
        forall|i: int|
            0 <= i < s.proposes.len() ==> (#[trigger] s.with_execution_requested(
                hash,
            ).proposes[i]).propose == s.proposes[i].propose && s.with_execution_requested(
                hash,
            ).proposes[i].executed == s.proposes[i].executed && s.with_execution_requested(
                hash,
            ).proposes[i].unknown_txs == s.proposes[i].unknown_txs,
{
    if s.has_propose(hash) {
        lemma_propose_index(s, hash);
    }
}

/// To handle as full a propose of which no outcome is known commits
/// nothing.
pub proof fn lemma_full_propose_commits_nothing(
    h: HandlerView,
    hash: crypto::Hash,
    round: Round,
    now: Milliseconds,
)
    requires
        h.state.executed(hash) is None,
    ensures
        same_chain(h.handle_full_propose(hash, round, now), h),
{
    reveal(HandlerView::handle_full_propose);
    reveal(HandlerView::cast_prevote);
    reveal(HandlerView::issue);
    reveal(HandlerView::advance);
    reveal(HandlerView::apply_lock);
    reveal(HandlerView::maybe_execute);
    reveal(HandlerView::maybe_precommit);
    reveal(HandlerView::maybe_commit);
    let voted = if round == h.state.round && h.state.locked_propose is None {
        h.cast_prevote(h.state.round, hash)
    } else {
        h
    };
    assert(same_chain(voted, h));
    lemma_same_proposes(voted.state, h.state, hash);
    if voted.state.has_complete_propose(hash) {
        let locked = voted.apply_lock(hash);
        assert(same_chain(locked, h));
        lemma_same_proposes(locked.state, h.state, hash);
        let asked = locked.maybe_execute(hash);
        assert(same_chain(asked, h)) by {
            lemma_request_keeps(locked.state, hash);
            assert forall|i: int| 0 <= i < asked.state.proposes.len() implies (
            #[trigger] asked.state.proposes[i]).propose == h.state.proposes[i].propose
                && asked.state.proposes[i].executed == h.state.proposes[i].executed
                && asked.state.proposes[i].unknown_txs == h.state.proposes[i].unknown_txs by {
                assert(locked.state.proposes[i].propose == h.state.proposes[i].propose);
                if asked != locked {
                    assert(asked.state == locked.state.with_execution_requested(hash));
                    assert(locked.state.with_execution_requested(hash).proposes[i].propose
                        == locked.state.proposes[i].propose);
                }
            }
        }
        lemma_same_proposes(asked.state, h.state, hash);
        assert(asked.state.executed(hash) is None);
    }
}

/// To handle as full, one after another, proposes of which no outcome is
/// known commits nothing.
pub proof fn lemma_full_proposes_commit_nothing(
    h: HandlerView,
    hashes: Seq<crypto::Hash>,
    now: Milliseconds,
)
    requires
        forall|i: int| 0 <= i < hashes.len() ==> h.state.executed(#[trigger] hashes[i]) is None,
    ensures
        same_chain(h.full_proposes(hashes, now), h),
    decreases hashes.len(),
{
    lemma_full_proposes_step(h, hashes, now);
    if hashes.len() > 0 {
        let rest = hashes.drop_last();
        assert forall|i: int| 0 <= i < rest.len() implies h.state.executed(
            #[trigger] rest[i],
        ) is None by {
            assert(rest[i] == hashes[i]);
        }
        lemma_full_proposes_commit_nothing(h, rest, now);
        let before = h.full_proposes(rest, now);
        let last = hashes[hashes.len() - 1];
        assert(last == hashes.last());
        lemma_same_proposes(before.state, h.state, last);
        match before.state.propose(last) {
            Some(p) => {
                lemma_full_propose_commits_nothing(before, last, p.propose.payload.round, now);
            },
            None => {},
        }
    }
}

/// A transaction is taken once. Where the node has a service for the
/// transaction, neither the pool nor a block holds it, and the service
/// accepts it, the pool is one transaction longer afterwards and holds the
/// transaction; in every other case nothing changes. Either way, the same
/// transaction changes nothing when it comes again: however often a
/// transaction is submitted, the pool grows by one.
pub proof fn lemma_transaction_is_taken_once(
    h: HandlerView,
    tx: SignedView<TxView>,
    accepted: bool,
    again: bool,
    now: Milliseconds,
    later: Milliseconds,
)
    requires
        h.wf(),
    ensures
        h.chain.service_ids.contains(tx.payload.service_id) && !h.chain.knows(tx.hash) && accepted
            ==> h.handle_tx_with(tx, accepted, now).chain.pool == pool_with(h.chain.pool, tx)
            && h.handle_tx_with(tx, accepted, now).chain.pool.len() == h.chain.pool.len() + 1
            && h.handle_tx_with(tx, accepted, now).chain.blocks == h.chain.blocks,
        !(h.chain.service_ids.contains(tx.payload.service_id) && !h.chain.knows(tx.hash)
            && accepted) ==> h.handle_tx_with(tx, accepted, now) == h,
        h.chain.knows(tx.hash) || (h.chain.service_ids.contains(tx.payload.service_id) && accepted)
            ==> h.handle_tx_with(tx, accepted, now).handle_tx_with(tx, again, later)
            == h.handle_tx_with(tx, accepted, now),
{
    reveal(HandlerView::handle_tx_with);
    if h.chain.service_ids.contains(tx.payload.service_id) && !h.chain.knows(tx.hash)
        && accepted {
        lemma_with_tx_keeps_wf(h.chain, tx);
        let pooled = (HandlerView { chain: h.chain.with_tx(tx), ..h }).broadcast(
            crate::node::events::OutgoingView::Relayed(
                crate::node::basic::transaction_message(tx),
            ),
        );
        let timed = if pooled.state.is_leader() && pooled.state.round.0 != 0 {
            pooled.maybe_add_propose_timeout()
        } else {
            pooled
        };
        let arrived = HandlerView { state: timed.state.tx_arrived(tx.hash), ..timed };
        let completed = timed.state.completed_by(tx.hash);
        assert(timed.state == h.state);
        lemma_completed_have_no_outcome(h.state, tx.hash);
        let out = h.handle_tx_with(tx, accepted, now);
        if h.is_enabled {
            lemma_full_proposes_commit_nothing(arrived, completed, now);
        }
        assert(out.chain.pool == arrived.chain.pool);
        assert(out.chain.blocks == arrived.chain.blocks);
        assert(out.chain.knows(tx.hash)) by {
            assert(pool_has(out.chain.pool, tx.hash));
        }
    }
}

/// Once a transaction has come, no outcome is known of the proposes that
/// waited for it and for no other.
proof fn lemma_completed_have_no_outcome(s: StateView, tx: crypto::Hash)
    requires
        s.wf(),
    ensures
        forall|i: int|
            0 <= i < s.completed_by(tx).len() ==> s.tx_arrived(tx).executed(
                #[trigger] s.completed_by(tx)[i],
            ) is None,
{
    let after = s.tx_arrived(tx);
    let waits = |p: ProposeStateView| p.completed_by(tx);
    let waiting = s.proposes.filter(waits);
    assert forall|i: int| 0 <= i < s.completed_by(tx).len() implies after.executed(
        #[trigger] s.completed_by(tx)[i],
    ) is None by {
        let hash = s.completed_by(tx)[i];
        let p = waiting[i];
        assert(waiting.contains(p));
        s.proposes.lemma_filter_contains_rev(waits, p);
        let at = choose|at: int| 0 <= at < s.proposes.len() && s.proposes[at] == p;
        assert(p.propose.hash == hash);
        s.proposes.lemma_filter_pred(waits, i);
        assert(waits(p));
        assert(!p.is_complete());
        assert(s.proposes[at].executed is None);
        assert(after.proposes[at].propose.hash == hash);
        lemma_first_propose(after, hash, at);
        let k = after.propose_index(hash);
        assert(after.proposes[k].propose.hash == hash);
        assert(s.proposes[k].propose.hash == hash);
        if k < at {
            assert(s.proposes[k].propose.hash != s.proposes[at].propose.hash);
        }
        assert(k == at);
        assert(after.proposes[at].executed == p.executed);
    }
}

} // verus!
