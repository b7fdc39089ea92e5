//! The restart of a node: a handler that starts from what a handler in
//! order had saved is in order again, once it has recalled what it had
//! cast and has taken up what it had received.

use vstd::prelude::*;
use crate::blockchain::CachedMessageView;
use crate::helpers::{Milliseconds, Round};
use crate::messages::PayloadView;
use crate::node::conduct::{blank, in_order, index_of, lemma_replay_first, log_of, record_of};
use crate::node::dispatch::lemma_recall_step;
use crate::node::handler::HandlerView;
use crate::node::ledger::{
    holds_precommit, holds_prevote, lemma_quorum_stays, precommit_cast, prevote_cast, recorded,
};
use crate::node::rules::{ballots, own_precommits, own_prevotes};
use crate::node::safety::{keeps_rules, votes_once, Cast, VoteKind};
use crate::node::state::StateView;

verus! {

/// Whether the state `s` is that of the validator `me` while it recalls
/// the record `log`, with the first `k` entries recalled: it has seen no
/// vote; its own votes bear its index and are in the record; every vote of
/// its own among the entries recalled is one of its own votes; its lock
/// guards its precommits; where it is locked, it has precommitted the
/// propose of the lock in the round of the lock; and where it is not, the
/// round of its lock is 0.
pub open spec fn recalling(s: StateView, log: Seq<Cast>, me: int, k: int) -> bool {
    &&& s.validator_state is Some
    &&& index_of(s) == me
    &&& s.prevotes.records.len() == 0
    &&& s.precommits.records.len() == 0
    &&& forall|j: int|
        0 <= j < own_prevotes(s).len() ==> (#[trigger] own_prevotes(s)[j]).validator.0 == me
            && log.contains(prevote_cast(own_prevotes(s)[j]))
    &&& forall|j: int|
        0 <= j < own_precommits(s).len() ==> (#[trigger] own_precommits(s)[j]).validator.0 == me
            && log.contains(precommit_cast(own_precommits(s)[j]))
    &&& forall|i: int|
        0 <= i < k && i < log.len() && (#[trigger] log[i]).validator == me ==> (match log[i].kind {
            VoteKind::Prevote => holds_prevote(own_prevotes(s), log[i]),
            VoteKind::Precommit => holds_precommit(own_precommits(s), log[i]),
        })
    &&& ballots(s).guarded()
    &&& (s.locked_propose matches Some(l) ==> locked_by(s, l))
    &&& (s.locked_propose is None ==> s.locked_round == Round(0))
}

/// Whether the node has precommitted the propose `l` in the round of its
/// lock.
pub open spec fn locked_by(s: StateView, l: crate::crypto::Hash) -> bool {
    exists|j: int|
        0 <= j < own_precommits(s).len() && (#[trigger] own_precommits(s)[j]).round
            == s.locked_round && own_precommits(s)[j].propose_hash == l
}

/// Whether the step from `a` to `b` changed nothing but the node's own
/// votes, its lock and the round in which it last proposed.
pub open spec fn recalled_only(a: HandlerView, b: HandlerView) -> bool {
    &&& b.chain == a.chain
    &&& b.state.round == a.state.round
    &&& b.state.height == a.state.height
    &&& b.state.validators == a.state.validators
    &&& b.state.prevotes == a.state.prevotes
    &&& b.state.precommits == a.state.precommits
    &&& b.state.validator_state is Some == a.state.validator_state is Some
    &&& index_of(b.state) == index_of(a.state)
    &&& (a.state.validator_state is None ==> b.state == a.state)
}

/// A prevote of the node that the record holds, once it is recalled, is
/// one of the node's own votes.
proof fn lemma_recall_prevote(r: HandlerView, cache: Seq<CachedMessageView>, k: int)
    requires
        0 <= k < cache.len(),
        cache[k] matches CachedMessageView::Own(PayloadView::Prevote(p)) && p.height
            == r.state.height && r.state.is_own(p.validator),
        recalling(
            r.state,
            record_of(cache, index_of(r.state), r.state.height),
            index_of(r.state),
            k,
        ),
        votes_once(record_of(cache, index_of(r.state), r.state.height), index_of(r.state)),
    ensures
        recalling(
            r.recall_entry(cache[k]).state,
            record_of(cache, index_of(r.state), r.state.height),
            index_of(r.state),
            k + 1,
        ),
        recalled_only(r, r.recall_entry(cache[k])),
{
    reveal(HandlerView::recall_entry);
    let s = r.state;
    let me = index_of(s);
    let log = record_of(cache, me, s.height);
    let p = cache[k]->Own_0->Prevote_0;
    let after = r.recall_entry(cache[k]).state;
    let own = own_prevotes(s);
    assert(log[k] == prevote_cast(p));
    if s.our_prevote(p.round) is None {
        assert(own_prevotes(after) == own.push(p));
        assert forall|j: int| 0 <= j < own_prevotes(after).len() implies (
        #[trigger] own_prevotes(after)[j]).validator.0 == me && log.contains(
            prevote_cast(own_prevotes(after)[j]),
        ) by {
            if j < own.len() {
                assert(own_prevotes(after)[j] == own[j]);
            }
        }
        assert forall|i: int|
            0 <= i < k + 1 && i < log.len() && (#[trigger] log[i]).validator == me implies (
        match log[i].kind {
            VoteKind::Prevote => holds_prevote(own_prevotes(after), log[i]),
            VoteKind::Precommit => holds_precommit(own_precommits(after), log[i]),
        }) by {
            if i < k {
                if log[i].kind == VoteKind::Prevote {
                    let w = choose|w: int|
                        0 <= w < own.len() && prevote_cast(#[trigger] own[w]) == log[i];
                    assert(prevote_cast(own_prevotes(after)[w]) == log[i]);
                }
            } else {
                assert(prevote_cast(own_prevotes(after)[own.len() as int]) == log[i]);
            }
        }
        assert(locked_same(s, after));
        if s.locked_propose is Some {
            let l = s.locked_propose->0;
            let w = choose|w: int|
                0 <= w < own_precommits(s).len() && (#[trigger] own_precommits(s)[w]).round
                    == s.locked_round && own_precommits(s)[w].propose_hash == l;
            assert(own_precommits(after)[w] == own_precommits(s)[w]);
            assert(locked_by(after, l));
        }
        assert(ballots(after).guarded()) by {
            let b = ballots(s);
            let c = ballots(after);
            assert forall|j: int| 0 <= j < c.precommits.len() implies c.covers(
                #[trigger] c.precommits[j],
            ) by {
                assert(b.covers(b.precommits[j]));
            }
        }
    } else {
        assert(after == s);
        let at = crate::node::state::prevote_index(own, p.round);
        let q = own[at];
        assert(log.contains(prevote_cast(q)));
        let i = choose|i: int| 0 <= i < log.len() && log[i] == prevote_cast(q);
        assert(log[i] == log[k]);
        assert(prevote_cast(own[at]) == log[k]);
    }
}

/// Whether the states `a` and `b` hold the same precommits of the node
/// and the same lock.
pub open spec fn locked_same(a: StateView, b: StateView) -> bool {
    &&& own_precommits(b) == own_precommits(a)
    &&& b.locked_round == a.locked_round
    &&& b.locked_propose == a.locked_propose
}

/// A precommit of the node that the record holds, once it is recalled, is
/// one of the node's own votes, and the lock guards it.
proof fn lemma_recall_precommit(r: HandlerView, cache: Seq<CachedMessageView>, k: int)
    requires
        0 <= k < cache.len(),
        cache[k] matches CachedMessageView::Own(PayloadView::Precommit(p)) && p.height
            == r.state.height && r.state.is_own(p.validator),
        recalling(
            r.state,
            record_of(cache, index_of(r.state), r.state.height),
            index_of(r.state),
            k,
        ),
        votes_once(record_of(cache, index_of(r.state), r.state.height), index_of(r.state)),
    ensures
        recalling(
            r.recall_entry(cache[k]).state,
            record_of(cache, index_of(r.state), r.state.height),
            index_of(r.state),
            k + 1,
        ),
        recalled_only(r, r.recall_entry(cache[k])),
{
    reveal(HandlerView::recall_entry);
    let s = r.state;
    let me = index_of(s);
    let log = record_of(cache, me, s.height);
    let p = cache[k]->Own_0->Precommit_0;
    let after = r.recall_entry(cache[k]).state;
    let own = own_precommits(s);
    assert(log[k] == precommit_cast(p));
    if s.our_precommit(p.round) is None {
        let noted = s.with_our_precommit(p);
        assert(own_precommits(noted) == own.push(p));
        assert(after == noted.relocked(p));
        assert(own_precommits(after) == own.push(p));
        assert(own_prevotes(after) == own_prevotes(s));
        assert forall|j: int| 0 <= j < own_precommits(after).len() implies (
        #[trigger] own_precommits(after)[j]).validator.0 == me && log.contains(
            precommit_cast(own_precommits(after)[j]),
        ) by {
            if j < own.len() {
                assert(own_precommits(after)[j] == own[j]);
            }
        }
        assert forall|i: int|
            0 <= i < k + 1 && i < log.len() && (#[trigger] log[i]).validator == me implies (
        match log[i].kind {
            VoteKind::Prevote => holds_prevote(own_prevotes(after), log[i]),
            VoteKind::Precommit => holds_precommit(own_precommits(after), log[i]),
        }) by {
            if i < k {
                if log[i].kind == VoteKind::Precommit {
                    let w = choose|w: int|
                        0 <= w < own.len() && precommit_cast(#[trigger] own[w]) == log[i];
                    assert(precommit_cast(own_precommits(after)[w]) == log[i]);
                }
            } else {
                assert(precommit_cast(own_precommits(after)[own.len() as int]) == log[i]);
            }
        }
        let b = ballots(s);
        let c = ballots(after);
        if s.locked_propose is None || p.round.0 > s.locked_round.0 {
            assert(own_precommits(after)[own.len() as int].round == after.locked_round);
            assert(locked_by(after, p.propose_hash));
            assert forall|j: int| 0 <= j < c.precommits.len() implies c.covers(
                #[trigger] c.precommits[j],
            ) by {
                if j < own.len() {
                    assert(b.covers(b.precommits[j]));
                }
            }
        } else {
            let l = s.locked_propose->0;
            let w = choose|w: int|
                0 <= w < own.len() && (#[trigger] own[w]).round == s.locked_round
                    && own[w].propose_hash == l;
            assert(own_precommits(after)[w] == own[w]);
            assert(locked_by(after, l));
            if p.round == s.locked_round {
                assert(s.our_precommit(p.round) is Some);
            }
            assert forall|j: int| 0 <= j < c.precommits.len() implies c.covers(
                #[trigger] c.precommits[j],
            ) by {
                if j < own.len() {
                    assert(b.covers(b.precommits[j]));
                }
            }
        }
    } else {
        assert(after == s);
        let at = crate::node::state::precommit_index(own, p.round);
        let q = own[at];
        assert(log.contains(precommit_cast(q)));
        let i = choose|i: int| 0 <= i < log.len() && log[i] == precommit_cast(q);
        assert(log[i] == log[k]);
        assert(precommit_cast(own[at]) == log[k]);
    }
}

/// To recall a saved message leaves the node recalling, with one entry
/// more recalled.
pub proof fn lemma_recall_entry(r: HandlerView, cache: Seq<CachedMessageView>, k: int)
    requires
        0 <= k < cache.len(),
        r.state.validator_state is Some ==> recalling(
            r.state,
            record_of(cache, index_of(r.state), r.state.height),
            index_of(r.state),
            k,
        ) && votes_once(
            record_of(cache, index_of(r.state), r.state.height),
            index_of(r.state),
        ),
    ensures
        r.state.validator_state is Some ==> recalling(
            r.recall_entry(cache[k]).state,
            record_of(cache, index_of(r.state), r.state.height),
            index_of(r.state),
            k + 1,
        ),
        recalled_only(r, r.recall_entry(cache[k])),
{
    let s = r.state;
    let me = index_of(s);
    let log = record_of(cache, me, s.height);
    match cache[k] {
        CachedMessageView::Own(PayloadView::Prevote(p)) => {
            if p.height == s.height && s.is_own(p.validator) {
                lemma_recall_prevote(r, cache, k);
            } else {
                reveal(HandlerView::recall_entry);
            }
        },
        CachedMessageView::Own(PayloadView::Precommit(p)) => {
            if p.height == s.height && s.is_own(p.validator) {
                lemma_recall_precommit(r, cache, k);
            } else {
                reveal(HandlerView::recall_entry);
            }
        },
        _ => {
            reveal(HandlerView::recall_entry);
            let after = r.recall_entry(cache[k]).state;
            if s.validator_state is Some {
                assert(own_prevotes(after) == own_prevotes(s));
                assert(own_precommits(after) == own_precommits(s));
                assert(log[k].validator != me);
                if s.locked_propose is Some {
                    let l = s.locked_propose->0;
                    let w = choose|w: int|
                        0 <= w < own_precommits(s).len() && (#[trigger] own_precommits(s)[w]).round
                            == s.locked_round && own_precommits(s)[w].propose_hash == l;
                    assert(locked_by(after, l));
                }
            }
        },
    }
}

/// To recall the saved messages at the first places leaves the node
/// recalling, with those entries recalled.
pub proof fn lemma_recall(r: HandlerView, k: nat)
    requires
        k <= r.chain.cache.len(),
        r.state.validator_state is Some ==> recalling(r.state, log_of(r), index_of(r.state), 0)
            && votes_once(log_of(r), index_of(r.state)),
    ensures
        r.state.validator_state is Some ==> recalling(
            r.recall(r.chain.cache.subrange(0, k as int)).state,
            log_of(r),
            index_of(r.state),
            k as int,
        ),
        recalled_only(r, r.recall(r.chain.cache.subrange(0, k as int))),
    decreases k,
{
    let entries = r.chain.cache.subrange(0, k as int);
    lemma_recall_step(r, entries);
    if k > 0 {
        lemma_recall(r, (k - 1) as nat);
        assert(entries.drop_last() =~= r.chain.cache.subrange(0, k - 1));
        assert(entries.last() == r.chain.cache[k - 1]);
        let before = r.recall(r.chain.cache.subrange(0, k - 1));
        lemma_recall_entry(before, r.chain.cache, k - 1);
    }
}

/// Whether the handler `h` is one made anew from what the handler `before`
/// had saved: it has the chain of `before`, the same validators, the same
/// index among them and the same height; and it has cast and seen no vote
/// and is not locked.
pub open spec fn made_anew(h: HandlerView, before: HandlerView) -> bool {
    &&& h.chain == before.chain
    &&& h.state.validators == before.state.validators
    &&& h.state.height == before.state.height
    &&& h.state.validator_state is Some == before.state.validator_state is Some
    &&& index_of(h.state) == index_of(before.state)
    &&& blank(h)
}

/// The handler as it stands when it has recalled what the handler
/// `before` had cast: in order.
proof fn lemma_recalled_in_order(before: HandlerView, r: HandlerView)
    requires
        in_order(before),
        r.chain == before.chain,
        r.state.validators == before.state.validators,
        r.state.height == before.state.height,
        r.state.round == before.chain.consensus_round,
        r.state.validator_state is Some,
        before.state.validator_state is Some,
        index_of(r.state) == index_of(before.state),
        recalling(r.state, log_of(r), index_of(r.state), r.chain.cache.len() as int),
    ensures
        in_order(r),
{
    let s = r.state;
    let me = index_of(s);
    let log = log_of(r);
    let b = ballots(s);
    let old = ballots(before.state);
    assert(log == log_of(before));
    assert(recorded(old, log, me));
    crate::node::rules::lemma_none_seen(b, s.round);
    if s.locked_propose is Some {
        let l = s.locked_propose->0;
        let w = choose|w: int|
            0 <= w < own_precommits(s).len() && (#[trigger] own_precommits(s)[w]).round
                == s.locked_round && own_precommits(s)[w].propose_hash == l;
        let pc = own_precommits(s)[w];
        assert(log.contains(precommit_cast(pc)));
        let j = choose|j: int| 0 <= j < log.len() && log[j] == precommit_cast(pc);
        assert(log[j].validator == me && log[j].kind == VoteKind::Precommit);
        lemma_quorum_stays(
            log,
            b.n,
            j,
            log.len() as int,
            s.locked_round.0 as int,
            l,
        );
        assert(holds_precommit(old.precommits, log[j]));
        let q = choose|q: int|
            0 <= q < old.precommits.len() && precommit_cast(#[trigger] old.precommits[q]) == log[j];
        assert(old.covers(old.precommits[q]));
    }
}

/// The restart of a node. A handler made anew from what a handler in order
/// had saved starts in order: it recalls what that handler had cast, is
/// locked as its precommits ask, and takes up what that handler had received,
/// and so it casts no vote against the rules of voting.
pub proof fn lemma_restart_in_order(before: HandlerView, h: HandlerView, now: Milliseconds)
    requires
        in_order(before),
        made_anew(h, before),
    ensures
        in_order(h.initialize(now)),
{
    reveal(HandlerView::initialize);
    let ready = h.connect_all(h.startup_peers()).restore_round().add_timeouts(now);
    let cache = h.chain.cache;
    assert(cache.subrange(0, cache.len() as int) =~= cache);
    if h.state.validator_state is Some {
        let me = index_of(h.state);
        assert(log_of(ready) == log_of(before));
        assert(keeps_rules(log_of(before), before.state.n(), me));
        assert(ballots(ready.state).guarded());
        assert(recalling(ready.state, log_of(ready), me, 0));
    }
    lemma_recall(ready, cache.len());
    let recalled = ready.recall(cache);
    if h.state.validator_state is Some {
        assert(log_of(recalled) == log_of(ready));
        lemma_recalled_in_order(before, recalled);
    }
    lemma_replay_first(recalled, cache.len(), now);
}

} // verus!
