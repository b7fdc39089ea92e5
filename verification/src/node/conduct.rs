//! The conduct of the node: whatever event it handles, its lock keeps
//! guarding its precommits, and the messages that it has saved at the height,
//! read as a record of votes, stay within the rules of voting.

use vstd::prelude::*;
use crate::blockchain::CachedMessageView;
use crate::crypto;
use crate::helpers::{Height, Milliseconds, Round};
use crate::messages::{PayloadView, Precommit, Prevote};
use crate::node::handler::HandlerView;
use crate::node::ledger::{
    lemma_record_empty, lemma_record_other, lemma_record_precommit, lemma_record_prevote,
    lemma_record_seen, no_cast, precommit_cast, prevote_cast, recorded,
};
use crate::node::rules::{ballots, own_precommits, own_prevotes, Ballots};
use crate::node::safety::{keeps_rules, Cast};
use crate::node::state::StateView;

verus! {

/// What the saved message `entry` records for the node with the index
/// `me` at the height `height`: a vote of the node's own where the node made
/// the message itself, a vote of another validator where the node received
/// it, and nobody's vote where the message is no vote of that height.
pub open spec fn entry_cast(entry: CachedMessageView, me: int, height: Height) -> Cast {
    match entry {
        CachedMessageView::Own(PayloadView::Prevote(p)) => if p.validator.0 == me && p.height
            == height {
            prevote_cast(p)
        } else {
            no_cast()
        },
        CachedMessageView::Own(PayloadView::Precommit(p)) => if p.validator.0 == me && p.height
            == height {
            precommit_cast(p)
        } else {
            no_cast()
        },
        CachedMessageView::Own(_) => no_cast(),
        CachedMessageView::Received(m) => match m.payload {
            PayloadView::Prevote(p) => if p.validator.0 != me && p.height == height {
                prevote_cast(p)
            } else {
                no_cast()
            },
            PayloadView::Precommit(p) => if p.validator.0 != me && p.height == height {
                precommit_cast(p)
            } else {
                no_cast()
            },
            _ => no_cast(),
        },
    }
}

/// The saved messages `cache`, read as the record of votes of the node
/// with the index `me` at the height `height`.
pub open spec fn record_of(cache: Seq<CachedMessageView>, me: int, height: Height) -> Seq<Cast> {
    Seq::new(cache.len(), |i: int| entry_cast(cache[i], me, height))
}

/// The record of one saved message more is one entry longer.
pub proof fn lemma_record_step(
    cache: Seq<CachedMessageView>,
    entry: CachedMessageView,
    me: int,
    height: Height,
)
    ensures
        record_of(cache.push(entry), me, height) == record_of(cache, me, height).push(
            entry_cast(entry, me, height),
        ),
{
    assert(record_of(cache.push(entry), me, height) =~= record_of(cache, me, height).push(
        entry_cast(entry, me, height),
    ));
}

/// The index of the node among the validators; -1 where it is none.
pub open spec fn index_of(s: StateView) -> int {
    match s.validator_state {
        Some(v) => v.id.0 as int,
        None => -1,
    }
}

/// The saved messages of the handler `h`, read as the record of its votes
/// at its height.
pub open spec fn log_of(h: HandlerView) -> Seq<Cast> {
    record_of(h.chain.cache, index_of(h.state), h.state.height)
}

/// Whether the handler `h` is in order, with no quorum seen after the
/// round `top`. Of a node that is no validator nothing is asked. Of a
/// validator: its saved messages are the record of its votes, within the
/// rules of voting; and no quorum was seen to prevote in a round after `top`,
/// and the lock is of no later round.
pub open spec fn sound(h: HandlerView, top: Round) -> bool {
    h.state.validator_state is Some ==> {
        &&& recorded(ballots(h.state), log_of(h), index_of(h.state))
        &&& ballots(h.state).none_after(top)
        &&& h.state.locked_round.0 <= top.0
    }
}

/// Whether the handler `h` is in order: it is in order with no quorum seen
/// after its round, and the round that it has saved is its round.
pub open spec fn in_order(h: HandlerView) -> bool {
    &&& sound(h, h.state.round)
    &&& h.chain.consensus_round == h.state.round
}

/// Whether the step from `a` to `b` left the node where it was: at its
/// height and round, with its index among the validators and the round that
/// it has saved.
pub open spec fn same_place(a: HandlerView, b: HandlerView) -> bool {
    &&& b.state.round == a.state.round
    &&& b.state.height == a.state.height
    &&& b.state.validator_state is Some == a.state.validator_state is Some
    &&& index_of(b.state) == index_of(a.state)
    &&& b.chain.consensus_round == a.chain.consensus_round
}

/// Whether the step from `a` to `b` touched nothing that the order of the
/// handler rests on: the votes, the lock, the place of the node, and the
/// saved messages.
pub open spec fn untouched(a: HandlerView, b: HandlerView) -> bool {
    &&& ballots(b.state) == ballots(a.state)
    &&& same_place(a, b)
    &&& b.chain.cache == a.chain.cache
}

/// A step that touched nothing leaves the handler in order.
pub proof fn lemma_untouched(a: HandlerView, b: HandlerView, top: Round)
    requires
        sound(a, top),
        untouched(a, b),
    ensures
        sound(b, top),
        in_order(a) ==> in_order(b),
{
}

/// A step that leaves the votes, the lock, the place of the node and the
/// saved messages as they were touches nothing.
pub proof fn lemma_left_alone(a: HandlerView, b: HandlerView)
    requires
        b.state.validator_state == a.state.validator_state,
        b.state.validators == a.state.validators,
        b.state.prevotes == a.state.prevotes,
        b.state.precommits == a.state.precommits,
        b.state.locked_round == a.state.locked_round,
        b.state.locked_propose == a.state.locked_propose,
        b.state.round == a.state.round,
        b.state.height == a.state.height,
        b.chain.cache == a.chain.cache,
        b.chain.consensus_round == a.chain.consensus_round,
    ensures
        untouched(a, b),
{
}

/// A message of its own that the node makes changes nothing of its state,
/// and is saved.
pub proof fn lemma_issue(h: HandlerView, payload: PayloadView)
    ensures
        h.issue(payload).state == h.state,
        h.issue(payload).chain.cache == h.chain.cache.push(CachedMessageView::Own(payload)),
        h.issue(payload).chain.consensus_round == h.chain.consensus_round,
{
    reveal(HandlerView::issue);
}

/// A prevote that the lock lets the node cast leaves the handler in order.
pub proof fn lemma_cast_prevote(h: HandlerView, round: Round, hash: crypto::Hash, top: Round)
    requires
        sound(h, top),
        h.state.validator_state is Some ==> ballots(h.state).lets_prevote(round, hash),
    ensures
        sound(h.cast_prevote(round, hash), top),
        same_place(h, h.cast_prevote(round, hash)),
        h.cast_prevote(round, hash).state.locked_propose == h.state.locked_propose,
        h.cast_prevote(round, hash).state.locked_round == h.state.locked_round,
{
    reveal(HandlerView::cast_prevote);
    if h.state.validator_state is Some && h.state.our_prevote(round) is None {
        let v = h.state.validator_state->0;
        let p = Prevote {
            validator: v.id,
            height: h.state.height,
            round,
            propose_hash: hash,
            locked_round: h.state.locked_round,
        };
        let noted = HandlerView { state: h.state.with_our_prevote(p), ..h };
        lemma_issue(noted, PayloadView::Prevote(p));
        let after = h.cast_prevote(round, hash);
        let b = ballots(h.state);
        let me = index_of(h.state);
        assert(ballots(after.state) == Ballots { prevotes: b.prevotes.push(p), ..b });
        crate::node::rules::lemma_same_seen(b, ballots(after.state), top);
        assert forall|k: int| 0 <= k < b.prevotes.len() implies (#[trigger] b.prevotes[k]).round
            != round by {
            if b.prevotes[k].round == round {
                assert(h.state.our_prevote(round) is Some);
            }
        }
        lemma_record_prevote(b, log_of(h), me, p);
        lemma_record_step(
            h.chain.cache,
            CachedMessageView::Own(PayloadView::Prevote(p)),
            me,
            h.state.height,
        );
    }
}

/// A precommit that the lock lets the node cast, with the block that its
/// precommits for the same propose name, leaves the handler in order.
pub proof fn lemma_cast_precommit(
    h: HandlerView,
    round: Round,
    hash: crypto::Hash,
    block_hash: crypto::Hash,
    now: Milliseconds,
    top: Round,
)
    requires
        sound(h, top),
        ballots(h.state).lets_precommit(round, hash),
        !h.state.has_other_block(hash, block_hash),
    ensures
        sound(h.cast_precommit(round, hash, block_hash, now), top),
        same_place(h, h.cast_precommit(round, hash, block_hash, now)),
{
    reveal(HandlerView::cast_precommit);
    if h.state.validator_state is Some && h.state.our_precommit(round) is None {
        let v = h.state.validator_state->0;
        let p = Precommit {
            validator: v.id,
            height: h.state.height,
            round,
            propose_hash: hash,
            block_hash,
            time: crate::node::consensus::timestamp_of(now),
        };
        let noted = HandlerView { state: h.state.with_our_precommit(p), ..h };
        lemma_issue(noted, PayloadView::Precommit(p));
        let after = h.cast_precommit(round, hash, block_hash, now);
        let b = ballots(h.state);
        let me = index_of(h.state);
        assert(ballots(after.state) == Ballots { precommits: b.precommits.push(p), ..b });
        crate::node::rules::lemma_same_seen(b, ballots(after.state), top);
        assert forall|k: int| 0 <= k < b.precommits.len() implies (#[trigger] b.precommits[k]).round
            != round by {
            if b.precommits[k].round == round {
                assert(h.state.our_precommit(round) is Some);
            }
        }
        assert forall|k: int|
            0 <= k < b.precommits.len() && (#[trigger] b.precommits[k]).propose_hash
                == hash implies b.precommits[k].block_hash == block_hash by {
            if b.precommits[k].block_hash != block_hash {
                assert(h.state.other_block_at(hash, block_hash, k));
            }
        }
        lemma_record_precommit(b, log_of(h), me, p);
        lemma_record_step(
            h.chain.cache,
            CachedMessageView::Own(PayloadView::Precommit(p)),
            me,
            h.state.height,
        );
    }
}

/// A step that saves one message more, which records no vote of the node,
/// and touches nothing else leaves the handler in order.
pub proof fn lemma_saved_other(a: HandlerView, b: HandlerView, entry: CachedMessageView, top: Round)
    requires
        sound(a, top),
        ballots(b.state) == ballots(a.state),
        same_place(a, b),
        b.chain.cache == a.chain.cache.push(entry),
        a.state.validator_state is Some ==> entry_cast(
            entry,
            index_of(a.state),
            a.state.height,
        ).validator != index_of(a.state),
    ensures
        sound(b, top),
{
    if a.state.validator_state is Some {
        let me = index_of(a.state);
        lemma_record_other(ballots(a.state), log_of(a), me, entry_cast(entry, me, a.state.height));
        lemma_record_step(a.chain.cache, entry, me, a.state.height);
    }
}

/// To propose leaves the handler in order.
pub proof fn lemma_propose(h: HandlerView, top: Round)
    requires
        sound(h, top),
    ensures
        sound(h.propose(), top),
        same_place(h, h.propose()),
        h.propose().state.locked_propose == h.state.locked_propose,
{
    reveal(HandlerView::propose);
    if h.state.validator_state is Some {
        let v = h.state.validator_state->0;
        let p = crate::messages::ProposeView {
            validator: v.id,
            height: h.state.height,
            round: h.state.round,
            prev_hash: h.state.last_hash,
            transactions: crate::blockchain::pool::pool_first(
                h.chain.pool,
                h.state.consensus.txs_block_limit as nat,
            ),
        };
        let noted = HandlerView { state: h.state.with_proposed(h.state.round), ..h };
        lemma_issue(noted, PayloadView::Propose(p));
        lemma_saved_other(h, h.propose(), CachedMessageView::Own(PayloadView::Propose(p)), top);
    }
}

/// To prevote as the start of a round asks leaves the handler in order.
pub proof fn lemma_prevote_rule(h: HandlerView)
    requires
        sound(h, h.state.round),
    ensures
        sound(h.prevote_rule(), h.state.round),
        same_place(h, h.prevote_rule()),
{
    reveal(HandlerView::prevote_rule);
    match h.state.locked_propose {
        Some(locked) => {
            lemma_cast_prevote(h, h.state.round, locked, h.state.round);
        },
        None => match h.state.first_complete_propose(h.state.round) {
            Some(hash) => {
                lemma_cast_prevote(h, h.state.round, hash, h.state.round);
            },
            None => {},
        },
    }
}

/// To go to a round after which no quorum was seen leaves the handler in
/// order.
pub proof fn lemma_enter_round(h: HandlerView, round: Round)
    requires
        sound(h, round),
    ensures
        in_order(h.enter_round(round)),
        h.enter_round(round).state.round == round,
        h.enter_round(round).state.height == h.state.height,
{
    reveal(HandlerView::enter_round);
    let moved = HandlerView {
        state: h.state.with_round(round),
        chain: crate::blockchain::ChainView { consensus_round: round, ..h.chain },
        allow_expedited_propose: true,
        ..h
    };
    let timed = moved.add_round_timeout().add_propose_timeout();
    assert(ballots(timed.state) == ballots(h.state));
    assert(log_of(timed) == log_of(h));
    assert(sound(timed, round));
    lemma_prevote_rule(timed);
}

/// The end of a round, the call to go to a round, and the deadline of a
/// propose leave the handler in order.
pub proof fn lemma_round_events(h: HandlerView, height: Height, round: Round)
    requires
        in_order(h),
    ensures
        in_order(h.handle_round_timeout(height, round)),
        in_order(h.handle_new_round(height, round)),
        in_order(h.handle_propose_timeout(height, round)),
{
    reveal(HandlerView::handle_round_timeout);
    reveal(HandlerView::handle_new_round);
    reveal(HandlerView::handle_propose_timeout);
    let b = ballots(h.state);
    if round.0 < u32::MAX {
        let next = Round((round.0 + 1) as u32);
        if round == h.state.round {
            if h.state.validator_state is Some {
                crate::node::rules::lemma_none_after_later(b, h.state.round, next);
            }
            lemma_enter_round(h, next);
        }
    }
    if round.0 > h.state.round.0 {
        if h.state.validator_state is Some {
            crate::node::rules::lemma_none_after_later(b, h.state.round, round);
        }
        lemma_enter_round(h, round);
    }
    if h.state.locked_propose is None {
        lemma_propose(h, h.state.round);
        lemma_cast_prevote(h, round, crypto::Hash(0, 0, 0, 0), h.state.round);
    }
}

/// To lock where the node can leaves the handler in order.
pub proof fn lemma_apply_lock(h: HandlerView, hash: crypto::Hash, top: Round)
    requires
        sound(h, top),
    ensures
        sound(h.apply_lock(hash), top),
        same_place(h, h.apply_lock(hash)),
{
    reveal(HandlerView::apply_lock);
    crate::node::laws::lemma_lock_needs_later_round(h, hash);
    match h.state.lock_round(hash) {
        Some(round) => {
            let b = ballots(h.state);
            let me = index_of(h.state);
            let after = h.apply_lock(hash);
            assert(b.quorum_for(round, hash));
            assert(ballots(after.state) == Ballots {
                locked_round: round,
                locked_propose: Some(hash),
                ..b
            });
            if h.state.validator_state is Some {
                crate::node::ledger::lemma_quorum_recorded(b, log_of(h), me, round, hash);
                crate::node::ledger::lemma_record_lock(b, log_of(h), me, round, hash);
                crate::node::rules::lemma_same_seen(b, ballots(after.state), top);
            }
        },
        None => {},
    }
}

/// To ask for an execution where that is due touches nothing.
pub proof fn lemma_maybe_execute(h: HandlerView, hash: crypto::Hash)
    ensures
        untouched(h, h.maybe_execute(hash)),
{
    reveal(HandlerView::maybe_execute);
}

/// To precommit where that is due leaves the handler in order.
pub proof fn lemma_maybe_precommit(h: HandlerView, hash: crypto::Hash, now: Milliseconds, top: Round)
    requires
        sound(h, top),
    ensures
        sound(h.maybe_precommit(hash, now), top),
        same_place(h, h.maybe_precommit(hash, now)),
{
    reveal(HandlerView::maybe_precommit);
    match h.state.executed(hash) {
        Some(block) => {
            if h.state.locked_propose == Some(hash) && h.state.has_majority_prevotes(
                h.state.locked_round,
                hash,
            ) && !h.state.has_incompatible_prevote(h.state.locked_round, hash)
                && !h.state.has_other_block(hash, block.block_hash) {
                let b = ballots(h.state);
                assert forall|i: int| 0 <= i < b.prevotes.len() implies !((
                #[trigger] b.prevotes[i]).round.0 > h.state.locked_round.0
                    && b.prevotes[i].propose_hash != hash) by {
                    if b.prevotes[i].round.0 > h.state.locked_round.0 && b.prevotes[i].propose_hash
                        != hash {
                        assert(h.state.incompatible_at(h.state.locked_round, hash, i));
                    }
                }
                lemma_cast_precommit(h, h.state.locked_round, hash, block.block_hash, now, top);
            }
        },
        None => {},
    }
}

/// A commit starts a height at which the handler is in order.
pub proof fn lemma_commit_with(
    h: HandlerView,
    block: crate::blockchain::ExecutedBlock,
    txs: Seq<crypto::Hash>,
    precommits: Seq<crate::messages::Signed<Precommit>>,
    now: Milliseconds,
)
    ensures
        in_order(h.commit_with(block, txs, precommits, now)),
{
    reveal(HandlerView::commit_with);
    let after = h.commit_with(block, txs, precommits, now);
    let b = ballots(after.state);
    crate::node::rules::lemma_none_seen(b, after.state.round);
    assert(after.chain.cache =~= Seq::<CachedMessageView>::empty());
    if after.state.validator_state is Some {
        let me = index_of(after.state);
        assert(log_of(after) =~= Seq::<Cast>::empty());
        lemma_record_empty(b, me);
    }
}

/// To commit where that is due leaves the handler in order.
pub proof fn lemma_maybe_commit(h: HandlerView, hash: crypto::Hash, now: Milliseconds)
    requires
        in_order(h),
    ensures
        in_order(h.maybe_commit(hash, now)),
{
    reveal(HandlerView::maybe_commit);
    reveal(HandlerView::commit);
    match (h.state.propose(hash), h.state.executed(hash)) {
        (Some(p), Some(block)) => match h.state.commit_key(hash, block.block_hash) {
            Some(key) => {
                lemma_commit_with(
                    h,
                    block,
                    p.propose.payload.transactions,
                    h.state.precommits.messages_for(key),
                    now,
                );
            },
            None => {},
        },
        _ => {},
    }
}

/// Every step that a propose allows leaves the handler in order.
pub proof fn lemma_advance(h: HandlerView, hash: crypto::Hash, now: Milliseconds)
    requires
        in_order(h),
    ensures
        in_order(h.advance(hash, now)),
{
    reveal(HandlerView::advance);
    let top = h.state.round;
    let locked = h.apply_lock(hash);
    lemma_apply_lock(h, hash, top);
    let asked = locked.maybe_execute(hash);
    lemma_maybe_execute(locked, hash);
    lemma_untouched(locked, asked, top);
    let voted = asked.maybe_precommit(hash, now);
    lemma_maybe_precommit(asked, hash, now, top);
    lemma_maybe_commit(voted, hash, now);
}

/// To handle a propose as full leaves the handler in order.
pub proof fn lemma_full_propose(h: HandlerView, hash: crypto::Hash, round: Round, now: Milliseconds)
    requires
        in_order(h),
    ensures
        in_order(h.handle_full_propose(hash, round, now)),
{
    reveal(HandlerView::handle_full_propose);
    if round == h.state.round && h.state.locked_propose is None {
        lemma_cast_prevote(h, h.state.round, hash, h.state.round);
        lemma_advance(h.cast_prevote(h.state.round, hash), hash, now);
    } else {
        lemma_advance(h, hash, now);
    }
}

/// To ask for something touches nothing.
pub proof fn lemma_request(
    h: HandlerView,
    data: crate::node::requests::RequestKey,
    peer: crate::crypto::PublicKey,
    now: Milliseconds,
)
    ensures
        untouched(h, h.request(data, peer, now)),
{
}

/// To ask for a propose touches nothing.
pub proof fn lemma_request_propose(
    h: HandlerView,
    hash: crypto::Hash,
    peer: crate::crypto::PublicKey,
    now: Milliseconds,
)
    ensures
        untouched(h, h.request_propose(hash, peer, now)),
{
    reveal(HandlerView::request_propose);
    lemma_request(h, crate::node::requests::RequestKey::Propose(hash), peer, now);
}

/// A propose that comes leaves the handler in order.
pub proof fn lemma_handle_propose(
    h: HandlerView,
    msg: crate::messages::SignedView<crate::messages::ProposeView>,
    now: Milliseconds,
    save: bool,
)
    requires
        in_order(h),
    ensures
        in_order(h.handle_propose(msg, now, save)),
{
    reveal(HandlerView::handle_propose);
    if h.takes_propose(msg) {
        let top = h.state.round;
        let unknown = msg.payload.transactions.filter(
            crate::node::consensus::lacking(h.chain.pool),
        );
        let p = crate::node::state::ProposeStateView {
            propose: msg,
            unknown_txs: unknown,
            executed: None,
            execution_requested: false,
        };
        let noted = HandlerView { state: h.state.with_propose(p), ..h };
        let saved = if save {
            noted.save(
                CachedMessageView::Received(crate::node::consensus::propose_message(msg)),
            )
        } else {
            noted
        };
        if save {
            lemma_saved_other(
                h,
                saved,
                CachedMessageView::Received(crate::node::consensus::propose_message(msg)),
                top,
            );
        } else {
            lemma_untouched(h, saved, top);
        }
        if unknown.len() > 0 {
            let data = crate::node::requests::RequestKey::Transactions(unknown);
            lemma_request(saved, data, msg.author, now);
            lemma_untouched(saved, saved.request(data, msg.author, now), top);
        } else {
            lemma_full_propose(saved, msg.hash, msg.payload.round, now);
        }
    }
}

/// The later of two rounds.
pub open spec fn later_of(a: Round, b: Round) -> Round {
    if a.0 > b.0 {
        a
    } else {
        b
    }
}

/// To handle a quorum of prevotes in a round leaves the handler in order,
/// where no quorum was seen after that round and the current one.
pub proof fn lemma_majority_prevotes(h: HandlerView, round: Round, hash: crypto::Hash, now: Milliseconds)
    requires
        sound(h, later_of(round, h.state.round)),
        h.chain.consensus_round == h.state.round,
    ensures
        in_order(h.handle_majority_prevotes(round, hash, now)),
{
    reveal(HandlerView::handle_majority_prevotes);
    let top = later_of(round, h.state.round);
    let locked = if h.state.has_complete_propose(hash) {
        h.apply_lock(hash)
    } else {
        h
    };
    lemma_apply_lock(h, hash, top);
    if round.0 > locked.state.round.0 {
        lemma_enter_round(locked, round);
        lemma_advance(locked.enter_round(round), hash, now);
    } else {
        lemma_advance(locked, hash, now);
    }
}

/// The handler after it noted the prevote `msg`, and saved it if `save` is
/// set.
pub open spec fn prevote_taken(h: HandlerView, msg: crate::messages::Signed<Prevote>, save: bool) -> HandlerView {
    let noted = HandlerView { state: h.state.with_prevote(msg), ..h };
    if save {
        noted.save(CachedMessageView::Received(crate::node::consensus::prevote_message(msg)))
    } else {
        noted
    }
}

/// The votes of the node once the prevote `p` is seen.
pub open spec fn seeing(b: Ballots, p: Prevote) -> Ballots {
    Ballots {
        seen: b.seen.push(
            crate::node::votes::VoteRecord {
                validator: p.validator,
                key: crate::node::state::prevote_key(p),
            },
        ),
        ..b
    }
}

/// To note a prevote of a validator that came, of the height of the node,
/// and that the node did not hold, leaves the handler in order, where the
/// node remembers the prevote if it is in its own name, and where the prevote
/// is saved or the node holds it saved already; and it brings a quorum in no
/// round but its own.
pub proof fn lemma_prevote_taken(
    h: HandlerView,
    msg: crate::messages::Signed<Prevote>,
    save: bool,
    top: Round,
)
    requires
        sound(h, top),
        msg.payload.validator.0 < h.state.n(),
        msg.payload.height == h.state.height,
        h.state.remembers_prevote(msg.payload),
        !h.state.prevotes.has(msg.payload.validator, crate::node::state::prevote_key(msg.payload)),
        !save ==> h.chain.cache.contains(
            CachedMessageView::Received(crate::node::consensus::prevote_message(msg)),
        ),
    ensures
        sound(prevote_taken(h, msg, save), later_of(msg.payload.round, top)),
        same_place(h, prevote_taken(h, msg, save)),
        ballots(prevote_taken(h, msg, save).state) == seeing(ballots(h.state), msg.payload),
{
    let p = msg.payload;
    let key = crate::node::state::prevote_key(p);
    let b = ballots(h.state);
    let me = index_of(h.state);
    let vote = crate::node::votes::VoteRecord { validator: p.validator, key };
    let entry = CachedMessageView::Received(crate::node::consensus::prevote_message(msg));
    let held = crate::node::ledger::seen_cast(vote);
    let saved = prevote_taken(h, msg, save);
    assert(saved.state == h.state.with_prevote(msg));
    assert(ballots(saved.state) == seeing(b, p));
    if h.state.validator_state is Some {
        crate::node::rules::lemma_prevote_seen(b, vote, top);
        let log = log_of(h);
        let c = entry_cast(entry, me, h.state.height);
        if h.state.is_own(p.validator) {
            let k = crate::node::state::prevote_index(b.prevotes, p.round);
            assert(b.prevotes[k].validator.0 == me);
            assert(log.contains(prevote_cast(b.prevotes[k])));
            assert(prevote_cast(b.prevotes[k]) == held);
        } else if !save {
            let i = choose|i: int| 0 <= i < h.chain.cache.len() && h.chain.cache[i] == entry;
            assert(log[i] == held);
        }
        if save {
            lemma_record_step(h.chain.cache, entry, me, h.state.height);
            lemma_record_other(b, log, me, c);
            if h.state.is_own(p.validator) {
                crate::node::ledger::lemma_still_held(log, c, held);
            } else {
                assert(log.push(c)[log.len() as int] == held);
            }
            lemma_record_seen(b, log.push(c), me, vote);
        } else {
            lemma_record_seen(b, log, me, vote);
        }
    }
}

/// A prevote of a validator that comes, of the height of the node, leaves
/// the handler in order, where the prevote is saved or the node holds it
/// saved already.
pub proof fn lemma_handle_prevote(
    h: HandlerView,
    msg: crate::messages::Signed<Prevote>,
    now: Milliseconds,
    save: bool,
)
    requires
        in_order(h),
        msg.payload.validator.0 < h.state.n(),
        msg.payload.height == h.state.height,
        !save ==> h.chain.cache.contains(
            CachedMessageView::Received(crate::node::consensus::prevote_message(msg)),
        ),
    ensures
        in_order(h.handle_prevote(msg, now, save)),
{
    reveal(HandlerView::handle_prevote);
    let p = msg.payload;
    let key = crate::node::state::prevote_key(p);
    if !h.state.prevotes.has(p.validator, key) && h.state.remembers_prevote(p) {
        let top = h.state.round;
        let b = ballots(h.state);
        let vote = crate::node::votes::VoteRecord { validator: p.validator, key };
        let saved = prevote_taken(h, msg, save);
        lemma_prevote_taken(h, msg, save, top);
        let higher = later_of(p.round, top);
        let asked = saved.request_propose(p.propose_hash, msg.author, now);
        lemma_request_propose(saved, p.propose_hash, msg.author, now);
        lemma_untouched(saved, asked, higher);
        if asked.state.has_majority_prevotes(p.round, p.propose_hash) {
            lemma_majority_prevotes(asked, p.round, p.propose_hash, now);
        } else if h.state.validator_state is Some {
            assert(!seeing(b, p).quorum_for(p.round, p.propose_hash));
            crate::node::rules::lemma_prevote_seen_short(b, vote, top);
            crate::node::rules::lemma_same_seen(seeing(b, p), ballots(asked.state), top);
        }
    }
}

/// The handler after it noted the precommit `msg`, and saved it if `save`
/// is set.
pub open spec fn precommit_taken(h: HandlerView, msg: crate::messages::Signed<Precommit>, save: bool) -> HandlerView {
    let noted = HandlerView { state: h.state.with_precommit(msg), ..h };
    if save {
        noted.save(CachedMessageView::Received(crate::node::consensus::precommit_message(msg)))
    } else {
        noted
    }
}

/// To note a precommit of a validator that came, of the height of the
/// node, and that the node did not hold, leaves the handler in order, where
/// the node remembers the precommit if it is in its own name, and where the
/// precommit is saved or the node holds it saved already.
pub proof fn lemma_precommit_taken(
    h: HandlerView,
    msg: crate::messages::Signed<Precommit>,
    save: bool,
    top: Round,
)
    requires
        sound(h, top),
        msg.payload.validator.0 < h.state.n(),
        msg.payload.height == h.state.height,
        h.state.remembers_precommit(msg.payload),
        !h.state.precommits.has(
            msg.payload.validator,
            crate::node::state::precommit_key(msg.payload),
        ),
        !save ==> h.chain.cache.contains(
            CachedMessageView::Received(crate::node::consensus::precommit_message(msg)),
        ),
    ensures
        sound(precommit_taken(h, msg, save), top),
        same_place(h, precommit_taken(h, msg, save)),
{
    let p = msg.payload;
    let key = crate::node::state::precommit_key(p);
    let b = ballots(h.state);
    let me = index_of(h.state);
    let vote = crate::node::votes::VoteRecord { validator: p.validator, key };
    let entry = CachedMessageView::Received(crate::node::consensus::precommit_message(msg));
    let held = crate::node::ledger::seen_precommit_cast(vote);
    let saved = precommit_taken(h, msg, save);
    assert(saved.state == h.state.with_precommit(msg));
    assert(ballots(saved.state) == Ballots {
        seen_precommits: b.seen_precommits.push(vote),
        ..b
    });
    if h.state.validator_state is Some {
        crate::node::rules::lemma_same_seen(b, ballots(saved.state), top);
        let log = log_of(h);
        let c = entry_cast(entry, me, h.state.height);
        if h.state.is_own(p.validator) {
            let k = crate::node::state::precommit_index(b.precommits, p.round);
            assert(b.precommits[k].validator.0 == me);
            assert(log.contains(precommit_cast(b.precommits[k])));
            assert(precommit_cast(b.precommits[k]) == held);
        } else if !save {
            let i = choose|i: int| 0 <= i < h.chain.cache.len() && h.chain.cache[i] == entry;
            assert(log[i] == held);
        }
        if save {
            lemma_record_step(h.chain.cache, entry, me, h.state.height);
            lemma_record_other(b, log, me, c);
            if h.state.is_own(p.validator) {
                crate::node::ledger::lemma_still_held(log, c, held);
            } else {
                assert(log.push(c)[log.len() as int] == held);
            }
            crate::node::ledger::lemma_record_seen_precommit(b, log.push(c), me, vote);
        } else {
            crate::node::ledger::lemma_record_seen_precommit(b, log, me, vote);
        }
    }
}

/// A precommit of a validator that comes, of the height of the node,
/// leaves the handler in order, where the precommit is saved or the node
/// holds it saved already.
pub proof fn lemma_handle_precommit(
    h: HandlerView,
    msg: crate::messages::Signed<Precommit>,
    now: Milliseconds,
    save: bool,
)
    requires
        in_order(h),
        msg.payload.validator.0 < h.state.n(),
        msg.payload.height == h.state.height,
        !save ==> h.chain.cache.contains(
            CachedMessageView::Received(crate::node::consensus::precommit_message(msg)),
        ),
    ensures
        in_order(h.handle_precommit(msg, now, save)),
{
    reveal(HandlerView::handle_precommit);
    let p = msg.payload;
    if !h.state.precommits.has(p.validator, crate::node::state::precommit_key(p))
        && h.state.remembers_precommit(p) {
        let top = h.state.round;
        let saved = precommit_taken(h, msg, save);
        lemma_precommit_taken(h, msg, save, top);
        let asked = saved.request_propose(p.propose_hash, msg.author, now);
        lemma_request_propose(saved, p.propose_hash, msg.author, now);
        lemma_untouched(saved, asked, top);
        lemma_advance(asked, p.propose_hash, now);
    }
}

/// The outcome of an execution that comes leaves the handler in order.
pub proof fn lemma_handle_executed(
    h: HandlerView,
    hash: crypto::Hash,
    block: crate::blockchain::ExecutedBlock,
    now: Milliseconds,
)
    requires
        in_order(h),
    ensures
        in_order(h.handle_executed(hash, block, now)),
{
    reveal(HandlerView::handle_executed);
    let noted = HandlerView { state: h.state.with_executed(hash, block), ..h };
    lemma_left_alone(h, noted);
    lemma_untouched(h, noted, h.state.round);
    lemma_advance(noted, hash, now);
}

/// To handle proposes as full, one after another, leaves the handler in
/// order.
pub proof fn lemma_full_proposes(h: HandlerView, hashes: Seq<crypto::Hash>, now: Milliseconds)
    requires
        in_order(h),
    ensures
        in_order(h.full_proposes(hashes, now)),
    decreases hashes.len(),
{
    crate::node::basic::lemma_full_proposes_step(h, hashes, now);
    if hashes.len() > 0 {
        lemma_full_proposes(h, hashes.drop_last(), now);
        let before = h.full_proposes(hashes.drop_last(), now);
        match before.state.propose(hashes.last()) {
            Some(p) => {
                lemma_full_propose(before, hashes.last(), p.propose.payload.round, now);
            },
            None => {},
        }
    }
}

/// A transaction that comes leaves the handler in order.
pub proof fn lemma_handle_tx(
    h: HandlerView,
    tx: crate::messages::SignedView<crate::messages::TxView>,
    accepted: bool,
    now: Milliseconds,
)
    requires
        in_order(h),
    ensures
        in_order(h.handle_tx_with(tx, accepted, now)),
{
    reveal(HandlerView::handle_tx_with);
    if !(!h.chain.service_ids.contains(tx.payload.service_id) || h.chain.knows(tx.hash)
        || !accepted) {
        let pooled = (HandlerView { chain: h.chain.with_tx(tx), ..h }).broadcast(
            crate::node::events::OutgoingView::Relayed(crate::node::basic::transaction_message(tx)),
        );
        let timed = if pooled.state.is_leader() && pooled.state.round.0 != 0 {
            pooled.maybe_add_propose_timeout()
        } else {
            pooled
        };
        let arrived = HandlerView { state: timed.state.tx_arrived(tx.hash), ..timed };
        lemma_left_alone(h, arrived);
        lemma_untouched(h, arrived, h.state.round);
        lemma_full_proposes(arrived, timed.state.completed_by(tx.hash), now);
    }
}

/// Transactions that come, one after another, leave the handler in order.
pub proof fn lemma_handle_txs(
    h: HandlerView,
    txs: Seq<crate::messages::SignedView<crate::messages::TxView>>,
    verdicts: Seq<bool>,
    now: Milliseconds,
)
    requires
        in_order(h),
    ensures
        in_order(h.handle_txs_with(txs, verdicts, now)),
    decreases txs.len(),
{
    if !(txs.len() == 0 || verdicts.len() != txs.len()) {
        lemma_handle_txs(h, txs.drop_last(), verdicts.drop_last(), now);
        lemma_handle_tx(
            h.handle_txs_with(txs.drop_last(), verdicts.drop_last(), now),
            txs.last(),
            verdicts.last(),
            now,
        );
    }
}

/// To send transactions to the peers touches nothing.
pub proof fn lemma_broadcast_transactions(
    h: HandlerView,
    txs: Seq<crate::messages::SignedView<crate::messages::TxView>>,
)
    ensures
        h.broadcast_transactions(txs).state == h.state,
        h.broadcast_transactions(txs).chain == h.chain,
    decreases txs.len(),
{
    if txs.len() > 0 {
        lemma_broadcast_transactions(h, txs.drop_last());
    }
}

/// What peers do, and what the API asks but for a transaction, touches
/// nothing.
pub proof fn lemma_peers_and_api(h: HandlerView)
    ensures
        forall|status: crate::messages::Signed<crate::messages::Status>, now: Milliseconds|
            untouched(h, #[trigger] h.handle_status(status, now)),
        forall|connect: crate::messages::Signed<crate::messages::Connect>|
            untouched(h, #[trigger] h.handle_connect(connect)),
        forall|key: crate::crypto::PublicKey| untouched(h, #[trigger] h.handle_disconnected(key)),
        forall|key: crate::crypto::PublicKey|
            untouched(h, #[trigger] h.handle_unable_to_connect(key)),
        forall|info: crate::node::ConnectInfo| untouched(h, #[trigger] h.handle_peer_add(info)),
        forall|on: bool| untouched(h, #[trigger] h.handle_enable(on)),
        untouched(h, h.handle_shutdown()),
        untouched(h, h.handle_rebroadcast()),
{
    reveal(HandlerView::handle_status);
    reveal(HandlerView::handle_connect);
    reveal(HandlerView::handle_disconnected);
    reveal(HandlerView::handle_peer_add);
    lemma_broadcast_transactions(h, h.chain.pool);
    assert forall|status: crate::messages::Signed<crate::messages::Status>, now: Milliseconds|
        untouched(h, #[trigger] h.handle_status(status, now)) by {
        lemma_left_alone(h, h.handle_status(status, now));
    }
    assert forall|connect: crate::messages::Signed<crate::messages::Connect>|
        untouched(h, #[trigger] h.handle_connect(connect)) by {
        lemma_left_alone(h, h.handle_connect(connect));
    }
    assert forall|key: crate::crypto::PublicKey| untouched(
        h,
        #[trigger] h.handle_disconnected(key),
    ) by {
        lemma_left_alone(h, h.handle_disconnected(key));
    }
    assert forall|key: crate::crypto::PublicKey| untouched(
        h,
        #[trigger] h.handle_unable_to_connect(key),
    ) by {
        lemma_left_alone(h, h.handle_unable_to_connect(key));
    }
    assert forall|info: crate::node::ConnectInfo| untouched(
        h,
        #[trigger] h.handle_peer_add(info),
    ) by {
        lemma_left_alone(h, h.handle_peer_add(info));
    }
    assert forall|on: bool| untouched(h, #[trigger] h.handle_enable(on)) by {
        lemma_left_alone(h, h.handle_enable(on));
    }
    lemma_left_alone(h, h.handle_shutdown());
    lemma_left_alone(h, h.handle_rebroadcast());
}

/// The requests of peers touch nothing.
pub proof fn lemma_requests_of_peers(h: HandlerView)
    ensures
        forall|m: crate::messages::Signed<crate::messages::ProposeRequest>|
            untouched(h, #[trigger] h.handle_request_propose(m)),
        forall|m: crate::messages::Signed<crate::messages::PrevotesRequest>|
            untouched(h, #[trigger] h.handle_request_prevotes(m)),
        forall|to: crate::crypto::PublicKey, txs: Seq<crypto::Hash>, author: crate::crypto::PublicKey|
            untouched(h, #[trigger] h.handle_request_transactions(to, txs, author)),
        forall|m: crate::messages::Signed<crate::messages::BlockRequest>|
            untouched(h, #[trigger] h.handle_request_block(m)),
        forall|m: crate::messages::Signed<crate::messages::PeersRequest>|
            untouched(h, #[trigger] h.handle_request_peers(m)),
{
    reveal(HandlerView::handle_request_propose);
    reveal(HandlerView::handle_request_prevotes);
    reveal(HandlerView::handle_request_transactions);
    reveal(HandlerView::handle_request_block);
    reveal(HandlerView::handle_request_peers);
    assert forall|m: crate::messages::Signed<crate::messages::ProposeRequest>|
        untouched(h, #[trigger] h.handle_request_propose(m)) by {
        lemma_left_alone(h, h.handle_request_propose(m));
    }
    assert forall|m: crate::messages::Signed<crate::messages::PrevotesRequest>|
        untouched(h, #[trigger] h.handle_request_prevotes(m)) by {
        lemma_left_alone(h, h.handle_request_prevotes(m));
    }
    assert forall|
        to: crate::crypto::PublicKey,
        txs: Seq<crypto::Hash>,
        author: crate::crypto::PublicKey,
    | untouched(h, #[trigger] h.handle_request_transactions(to, txs, author)) by {
        lemma_left_alone(h, h.handle_request_transactions(to, txs, author));
    }
    assert forall|m: crate::messages::Signed<crate::messages::BlockRequest>|
        untouched(h, #[trigger] h.handle_request_block(m)) by {
        lemma_left_alone(h, h.handle_request_block(m));
    }
    assert forall|m: crate::messages::Signed<crate::messages::PeersRequest>|
        untouched(h, #[trigger] h.handle_request_peers(m)) by {
        lemma_left_alone(h, h.handle_request_peers(m));
    }
}

/// A deadline that comes leaves the handler in order.
pub proof fn lemma_handle_timeout(
    h: HandlerView,
    timeout: crate::node::events::NodeTimeoutView,
    now: Milliseconds,
)
    requires
        in_order(h),
    ensures
        in_order(h.handle_timeout(timeout, now)),
{
    reveal(HandlerView::handle_timeout);
    reveal(HandlerView::handle_request_timeout);
    reveal(HandlerView::handle_status_timeout);
    reveal(HandlerView::handle_peer_exchange_timeout);
    reveal(HandlerView::handle_update_api_state_timeout);
    let after = h.handle_timeout(timeout, now);
    match timeout {
        crate::node::events::NodeTimeoutView::Round(height, round) => {
            lemma_round_events(h, height, round);
        },
        crate::node::events::NodeTimeoutView::Propose(height, round) => {
            lemma_round_events(h, height, round);
        },
        _ => {
            lemma_left_alone(h, after);
            lemma_untouched(h, after, h.state.round);
        },
    }
}

/// A consensus message that comes leaves the handler in order, where the
/// message is saved or the node holds it saved already.
pub proof fn lemma_handle_consensus(
    h: HandlerView,
    msg: crate::messages::SignedView<PayloadView>,
    now: Milliseconds,
    save: bool,
)
    requires
        in_order(h),
        !save ==> h.chain.cache.contains(CachedMessageView::Received(msg)),
    ensures
        in_order(h.handle_consensus(msg, now, save)),
{
    reveal(HandlerView::handle_consensus);
    reveal(HandlerView::out_of_window);
    let after = h.handle_consensus(msg, now, save);
    match msg.payload {
        PayloadView::Propose(p) => {
            if h.in_window(p.height, p.round, p.validator, msg.author) {
                lemma_handle_propose(
                    h,
                    crate::messages::SignedView {
                        payload: p,
                        author: msg.author,
                        hash: msg.hash,
                        signature: msg.signature,
                    },
                    now,
                    save,
                );
            } else {
                lemma_left_alone(h, after);
                lemma_untouched(h, after, h.state.round);
            }
        },
        PayloadView::Prevote(p) => {
            if h.in_window(p.height, p.round, p.validator, msg.author) {
                let m = crate::messages::Signed {
                    payload: p,
                    author: msg.author,
                    hash: msg.hash,
                    signature: msg.signature,
                };
                assert(crate::node::consensus::prevote_message(m) == msg);
                lemma_handle_prevote(h, m, now, save);
            } else {
                lemma_left_alone(h, after);
                lemma_untouched(h, after, h.state.round);
            }
        },
        PayloadView::Precommit(p) => {
            if h.in_window(p.height, p.round, p.validator, msg.author) {
                let m = crate::messages::Signed {
                    payload: p,
                    author: msg.author,
                    hash: msg.hash,
                    signature: msg.signature,
                };
                assert(crate::node::consensus::precommit_message(m) == msg);
                lemma_handle_precommit(h, m, now, save);
            } else {
                lemma_left_alone(h, after);
                lemma_untouched(h, after, h.state.round);
            }
        },
        _ => {},
    }
}

/// A block that comes from a peer leaves the handler in order.
pub proof fn lemma_handle_block(
    h: HandlerView,
    b: crate::messages::BlockResponseView,
    author: crate::crypto::PublicKey,
    now: Milliseconds,
)
    requires
        in_order(h),
    ensures
        in_order(h.handle_block(b, author, now)),
{
    reveal(HandlerView::handle_block);
    let after = h.handle_block(b, author, now);
    if h.is_enabled && b.to == h.state.consensus_public_key && b.block.height == h.state.height
        && h.state.justified(b.precommits, b.block_hash) && h.chain.can_commit(
        crate::node::dispatch::block_of(b),
        b.transactions,
    ) {
        lemma_commit_with(h, crate::node::dispatch::block_of(b), b.transactions, b.precommits, now);
    } else {
        lemma_left_alone(h, after);
        lemma_untouched(h, after, h.state.round);
    }
}

/// A message that comes leaves the handler in order.
pub proof fn lemma_handle_message(
    h: HandlerView,
    msg: crate::messages::SignedView<PayloadView>,
    verdicts: Seq<bool>,
    now: Milliseconds,
)
    requires
        in_order(h),
    ensures
        in_order(h.handle_message(msg, verdicts, now)),
{
    reveal(HandlerView::handle_message);
    let after = h.handle_message(msg, verdicts, now);
    match msg.payload {
        PayloadView::Propose(_) => {
            lemma_handle_consensus(h, msg, now, true);
        },
        PayloadView::Prevote(_) => {
            lemma_handle_consensus(h, msg, now, true);
        },
        PayloadView::Precommit(_) => {
            lemma_handle_consensus(h, msg, now, true);
        },
        PayloadView::Transaction(t) => {
            lemma_handle_tx(
                h,
                crate::messages::SignedView {
                    payload: t,
                    author: msg.author,
                    hash: msg.hash,
                    signature: msg.signature,
                },
                verdicts.len() == 1 && verdicts[0],
                now,
            );
        },
        PayloadView::TransactionsResponse(to, txs) => {
            lemma_handle_txs(h, txs, verdicts, now);
        },
        PayloadView::BlockResponse(b) => {
            lemma_handle_block(h, b, msg.author, now);
        },
        _ => {
            lemma_peers_and_api(h);
            lemma_requests_of_peers(h);
            lemma_untouched(h, after, h.state.round);
        },
    }
}

/// A request of the API leaves the handler in order.
pub proof fn lemma_handle_api(
    h: HandlerView,
    message: crate::node::events::ExternalMessageView,
    verdicts: Seq<bool>,
    now: Milliseconds,
)
    requires
        in_order(h),
    ensures
        in_order(h.handle_api(message, verdicts, now)),
{
    reveal(HandlerView::handle_api);
    match message {
        crate::node::events::ExternalMessageView::Transaction(tx) => {
            lemma_handle_tx(h, tx, verdicts.len() == 1 && verdicts[0], now);
        },
        _ => {
            lemma_peers_and_api(h);
            lemma_untouched(h, h.handle_api(message, verdicts, now), h.state.round);
        },
    }
}

/// The conduct of the node. A handler that is in order stays in order
/// whatever event it handles.
pub proof fn lemma_event_keeps_order(
    h: HandlerView,
    event: crate::node::events::EventView,
    verdicts: Seq<bool>,
    now: Milliseconds,
)
    requires
        in_order(h),
    ensures
        in_order(h.handle_event(event, verdicts, now)),
{
    reveal(HandlerView::handle_event);
    let after = h.handle_event(event, verdicts, now);
    match event {
        crate::node::events::EventView::Network(
            crate::node::events::NetworkEventView::MessageReceived(msg),
        ) => {
            lemma_handle_message(h, msg, verdicts, now);
        },
        crate::node::events::EventView::Transaction(message) => {
            lemma_handle_api(h, message, verdicts, now);
        },
        crate::node::events::EventView::Internal(
            crate::node::events::InternalEventView::JumpToRound(height, round),
        ) => {
            lemma_round_events(h, height, round);
        },
        crate::node::events::EventView::Internal(
            crate::node::events::InternalEventView::Timeout(timeout),
        ) => {
            lemma_handle_timeout(h, timeout, now);
        },
        crate::node::events::EventView::Internal(
            crate::node::events::InternalEventView::BlockExecuted(hash, block),
        ) => {
            lemma_handle_executed(h, hash, block, now);
        },
        _ => {
            lemma_peers_and_api(h);
            lemma_untouched(h, after, h.state.round);
        },
    }
}

/// A validator whose handler is in order has kept the rules of voting in
/// all that it has cast and seen at the height: the messages that it has
/// saved, read as a record of votes, are within the rules.
pub proof fn lemma_in_order_keeps_rules(h: HandlerView)
    requires
        in_order(h),
        h.state.is_validator(),
    ensures
        keeps_rules(log_of(h), h.state.n(), index_of(h.state)),
{
}

/// To take up again a message that the handler holds saved leaves the
/// handler in order.
pub proof fn lemma_replay_at(h: HandlerView, at: int, now: Milliseconds)
    requires
        in_order(h),
    ensures
        in_order(h.replay_at(at, now)),
{
    reveal(HandlerView::replay_at);
    reveal(HandlerView::replay_entry);
    if 0 <= at < h.chain.cache.len() {
        match h.chain.cache[at] {
            CachedMessageView::Received(msg) => {
                assert(h.chain.cache[at] == CachedMessageView::Received(msg));
                lemma_handle_consensus(h, msg, now, false);
            },
            CachedMessageView::Own(_) => {},
        }
    }
}

/// To take up again the saved messages at the first places leaves the
/// handler in order.
pub proof fn lemma_replay_first(h: HandlerView, count: nat, now: Milliseconds)
    requires
        in_order(h),
    ensures
        in_order(h.replay_first(count, now)),
    decreases count,
{
    crate::node::dispatch::lemma_replay_step(h, count, now);
    if count > 0 {
        lemma_replay_first(h, (count - 1) as nat, now);
        lemma_replay_at(h.replay_first((count - 1) as nat, now), count - 1, now);
    }
}

/// Whether the handler `h` has cast and seen no vote and is not locked,
/// as a handler is when it is made.
pub open spec fn blank(h: HandlerView) -> bool {
    &&& own_prevotes(h.state).len() == 0
    &&& own_precommits(h.state).len() == 0
    &&& h.state.prevotes.records.len() == 0
    &&& h.state.precommits.records.len() == 0
    &&& h.state.locked_propose is None
    &&& h.state.locked_round == Round(0)
}

/// A handler that has cast and seen no vote, is not locked and has saved
/// no message starts in order.
pub proof fn lemma_start_in_order(h: HandlerView, now: Milliseconds)
    requires
        blank(h),
        h.chain.cache.len() == 0,
    ensures
        in_order(h.initialize(now)),
{
    reveal(HandlerView::initialize);
    let ready = h.connect_all(h.startup_peers()).restore_round().add_timeouts(now);
    crate::node::dispatch::lemma_recall_step(ready, h.chain.cache);
    crate::node::dispatch::lemma_replay_step(ready, 0, now);
    crate::node::rules::lemma_none_seen(ballots(ready.state), ready.state.round);
    if h.state.validator_state is Some {
        let me = index_of(h.state);
        assert(log_of(ready) =~= Seq::<Cast>::empty());
        lemma_record_empty(ballots(ready.state), me);
    }
}

} // verus!
