//! The record of votes: what a node has cast and seen at a height, in
//! order, and the proof that a vote more, cast as the lock of the node lets
//! it, leaves the record within the rules of voting.

use vstd::prelude::*;
use vstd::set_lib::{lemma_int_range, lemma_len_subset, set_int_range};
use crate::crypto;
use crate::messages::{Precommit, Prevote};
use crate::node::rules::{subject, Ballots};
use crate::node::safety::{
    keeps_rules, one_block, precommits_in_time, precommits_on_quorum, prevote_quorum,
    prevoted_at, prevoters, prevotes_under_lock, votes_once, Cast, VoteKind,
};
use crate::node::votes::{voters, VoteRecord};

verus! {

/// The prevote `p`, as an entry of the record.
pub open spec fn prevote_cast(p: Prevote) -> Cast {
    Cast {
        kind: VoteKind::Prevote,
        validator: p.validator.0 as int,
        round: p.round.0 as int,
        propose: p.propose_hash,
        block: crypto::Hash(0, 0, 0, 0),
    }
}

/// The precommit `p`, as an entry of the record.
pub open spec fn precommit_cast(p: Precommit) -> Cast {
    Cast {
        kind: VoteKind::Precommit,
        validator: p.validator.0 as int,
        round: p.round.0 as int,
        propose: p.propose_hash,
        block: p.block_hash,
    }
}

/// The prevote that `vote` notes, as an entry of the record.
pub open spec fn seen_cast(vote: VoteRecord) -> Cast {
    Cast {
        kind: VoteKind::Prevote,
        validator: vote.validator.0 as int,
        round: vote.key.round.0 as int,
        propose: vote.key.propose_hash,
        block: crypto::Hash(0, 0, 0, 0),
    }
}

/// The precommit that `vote` notes, as an entry of the record.
pub open spec fn seen_precommit_cast(vote: VoteRecord) -> Cast {
    Cast {
        kind: VoteKind::Precommit,
        validator: vote.validator.0 as int,
        round: vote.key.round.0 as int,
        propose: vote.key.propose_hash,
        block: vote.key.block_hash,
    }
}

/// The entry of the record that is nobody's vote.
pub open spec fn no_cast() -> Cast {
    Cast {
        kind: VoteKind::Prevote,
        validator: -1,
        round: 0,
        propose: crypto::Hash(0, 0, 0, 0),
        block: crypto::Hash(0, 0, 0, 0),
    }
}

/// Whether `votes` holds the prevote that the entry `c` records.
pub open spec fn holds_prevote(votes: Seq<Prevote>, c: Cast) -> bool {
    exists|k: int| 0 <= k < votes.len() && prevote_cast(#[trigger] votes[k]) == c
}

/// Whether `votes` holds the precommit that the entry `c` records.
pub open spec fn holds_precommit(votes: Seq<Precommit>, c: Cast) -> bool {
    exists|k: int| 0 <= k < votes.len() && precommit_cast(#[trigger] votes[k]) == c
}

/// Whether the record `log` is the record of the node with the index `me`
/// whose votes are `b`: every vote seen is of a validator and recorded; the
/// node's own votes bear its index and are recorded; every vote that the
/// record holds of the node is one of its own votes; the node keeps the rules
/// of voting in the record; its lock guards its precommits; and the record
/// holds a quorum of prevotes for the propose of the lock in the round of the
/// lock.
pub open spec fn recorded(b: Ballots, log: Seq<Cast>, me: int) -> bool {
    &&& 0 <= me
    &&& forall|k: int|
        0 <= k < b.seen.len() ==> (#[trigger] b.seen[k]).validator.0 < b.n && log.contains(
            seen_cast(b.seen[k]),
        )
    &&& forall|k: int|
        0 <= k < b.seen_precommits.len() ==> (#[trigger] b.seen_precommits[k]).validator.0 < b.n
            && log.contains(seen_precommit_cast(b.seen_precommits[k]))
    &&& forall|k: int|
        0 <= k < b.prevotes.len() ==> (#[trigger] b.prevotes[k]).validator.0 == me && log.contains(
            prevote_cast(b.prevotes[k]),
        )
    &&& forall|k: int|
        0 <= k < b.precommits.len() ==> (#[trigger] b.precommits[k]).validator.0 == me
            && log.contains(precommit_cast(b.precommits[k]))
    &&& forall|i: int|
        0 <= i < log.len() && (#[trigger] log[i]).validator == me ==> (match log[i].kind {
            VoteKind::Prevote => holds_prevote(b.prevotes, log[i]),
            VoteKind::Precommit => holds_precommit(b.precommits, log[i]),
        })
    &&& keeps_rules(log, b.n, me)
    &&& b.guarded()
    &&& (b.locked_propose matches Some(l) ==> prevote_quorum(
        log,
        b.n,
        log.len() as int,
        b.locked_round.0 as int,
        l,
    ))
}

/// The validators that prevoted something before some time are validators,
/// finitely many.
pub proof fn lemma_prevoters_finite(log: Seq<Cast>, n: nat, before: int, round: int, propose: crypto::Hash)
    ensures
        prevoters(log, n, before, round, propose).subset_of(set_int_range(0, n as int)),
        prevoters(log, n, before, round, propose).finite(),
{
    lemma_int_range(0, n as int);
    lemma_len_subset(prevoters(log, n, before, round, propose), set_int_range(0, n as int));
}

/// An entry more changes nothing about who prevoted before a time that the
/// record had reached.
pub proof fn lemma_prevoters_kept(
    log: Seq<Cast>,
    c: Cast,
    n: nat,
    before: int,
    round: int,
    propose: crypto::Hash,
)
    requires
        before <= log.len(),
    ensures
        prevoters(log.push(c), n, before, round, propose) == prevoters(
            log,
            n,
            before,
            round,
            propose,
        ),
{
    let after = log.push(c);
    let a = prevoters(after, n, before, round, propose);
    let b = prevoters(log, n, before, round, propose);
    assert forall|v: int| a.contains(v) implies b.contains(v) by {
        let i = choose|i: int| i < before && prevoted_at(after, i, v, round, propose);
        assert(after[i] == log[i]);
        assert(prevoted_at(log, i, v, round, propose));
    }
    assert forall|v: int| b.contains(v) implies a.contains(v) by {
        let i = choose|i: int| i < before && prevoted_at(log, i, v, round, propose);
        assert(after[i] == log[i]);
        assert(prevoted_at(after, i, v, round, propose));
    }
    assert(a =~= b);
}

/// A quorum that had prevoted before some time has prevoted before any
/// later time.
pub proof fn lemma_quorum_stays(
    log: Seq<Cast>,
    n: nat,
    before: int,
    later: int,
    round: int,
    propose: crypto::Hash,
)
    requires
        before <= later,
        prevote_quorum(log, n, before, round, propose),
    ensures
        prevote_quorum(log, n, later, round, propose),
{
    let a = prevoters(log, n, before, round, propose);
    let b = prevoters(log, n, later, round, propose);
    assert forall|v: int| a.contains(v) implies b.contains(v) by {
        let i = choose|i: int| i < before && prevoted_at(log, i, v, round, propose);
        assert(i < later && prevoted_at(log, i, v, round, propose));
    }
    lemma_prevoters_finite(log, n, later, round, propose);
    lemma_len_subset(a, b);
}

/// A quorum of prevotes that the record holds it still holds after an
/// entry more.
pub proof fn lemma_quorum_grows(log: Seq<Cast>, c: Cast, n: nat, round: int, propose: crypto::Hash)
    requires
        prevote_quorum(log, n, log.len() as int, round, propose),
    ensures
        prevote_quorum(log.push(c), n, log.push(c).len() as int, round, propose),
{
    lemma_prevoters_kept(log, c, n, log.len() as int, round, propose);
    lemma_quorum_stays(log.push(c), n, log.len() as int, log.push(c).len() as int, round, propose);
}

/// A quorum that the node has seen is a quorum of the record.
pub proof fn lemma_quorum_recorded(
    b: Ballots,
    log: Seq<Cast>,
    me: int,
    round: crate::helpers::Round,
    hash: crypto::Hash,
)
    requires
        recorded(b, log, me),
        b.quorum_for(round, hash),
    ensures
        prevote_quorum(log, b.n, log.len() as int, round.0 as int, hash),
{
    let seen = voters(b.seen, subject(round, hash));
    let all = prevoters(log, b.n, log.len() as int, round.0 as int, hash);
    assert forall|v: int| seen.contains(v) implies all.contains(v) by {
        let r = VoteRecord { validator: crate::helpers::ValidatorId(v as u16), key: subject(round, hash) };
        let k = choose|k: int| 0 <= k < b.seen.len() && b.seen[k] == r;
        assert(b.seen[k].validator.0 < b.n);
        assert(log.contains(seen_cast(b.seen[k])));
        let i = choose|i: int| 0 <= i < log.len() && log[i] == seen_cast(b.seen[k]);
        assert(prevoted_at(log, i, v, round.0 as int, hash));
    }
    lemma_prevoters_finite(log, b.n, log.len() as int, round.0 as int, hash);
    lemma_len_subset(seen, all);
}

/// An entry that is not a vote of the validator `me` leaves `me` within the
/// rules.
pub proof fn lemma_rules_other(log: Seq<Cast>, n: nat, me: int, c: Cast)
    requires
        keeps_rules(log, n, me),
        c.validator != me,
    ensures
        keeps_rules(log.push(c), n, me),
{
    let after = log.push(c);
    assert(votes_once(after, me)) by {
        assert forall|i: int, j: int|
            0 <= i < after.len() && 0 <= j < after.len() && (#[trigger] after[i]).validator == me
                && (#[trigger] after[j]).validator == me && after[i].kind == after[j].kind
                && after[i].round == after[j].round implies after[i] == after[j] by {
            assert(after[i] == log[i] && after[j] == log[j]);
        }
    }
    assert(precommits_on_quorum(after, n, me)) by {
        assert forall|j: int|
            0 <= j < after.len() && (#[trigger] after[j]).validator == me && after[j].kind
                == VoteKind::Precommit implies prevote_quorum(
            after,
            n,
            j,
            after[j].round,
            after[j].propose,
        ) by {
            assert(after[j] == log[j]);
            lemma_prevoters_kept(log, c, n, j, log[j].round, log[j].propose);
        }
    }
    assert(prevotes_under_lock(after, n, me)) by {
        assert forall|i: int, j: int|
            0 <= i < j < after.len() && (#[trigger] after[i]).validator == me && (
            #[trigger] after[j]).validator == me && after[i].kind == VoteKind::Precommit
                && after[j].kind == VoteKind::Prevote && after[i].round < after[j].round
                && after[i].propose != after[j].propose implies exists|round: int|
            after[i].round < round <= after[j].round && #[trigger] prevote_quorum(
                after,
                n,
                j,
                round,
                after[j].propose,
            ) by {
            assert(after[i] == log[i] && after[j] == log[j]);
            let round = choose|round: int|
                log[i].round < round <= log[j].round && #[trigger] prevote_quorum(
                    log,
                    n,
                    j,
                    round,
                    log[j].propose,
                );
            lemma_prevoters_kept(log, c, n, j, round, log[j].propose);
            assert(prevote_quorum(after, n, j, round, after[j].propose));
        }
    }
    assert(precommits_in_time(after, me)) by {
        assert forall|i: int, j: int|
            0 <= i < j < after.len() && (#[trigger] after[i]).validator == me && (
            #[trigger] after[j]).validator == me && after[i].kind == VoteKind::Prevote
                && after[j].kind == VoteKind::Precommit && after[i].round > after[j].round
                implies after[i].propose == after[j].propose by {
            assert(after[i] == log[i] && after[j] == log[j]);
        }
    }
    assert(one_block(after, me)) by {
        assert forall|i: int, j: int|
            0 <= i < after.len() && 0 <= j < after.len() && (#[trigger] after[i]).validator == me
                && (#[trigger] after[j]).validator == me && after[i].kind == VoteKind::Precommit
                && after[j].kind == VoteKind::Precommit && after[i].propose == after[j].propose
                implies after[i].block == after[j].block by {
            assert(after[i] == log[i] && after[j] == log[j]);
        }
    }
}

/// Whether the validator `me` may add the prevote `c` to the record `log`:
/// it has no prevote of that round in the record; and for every precommit
/// of an earlier round that it has there for another propose, a quorum has
/// prevoted the propose of `c` in a round after that precommit and not after
/// `c`.
pub open spec fn prevote_fits(log: Seq<Cast>, n: nat, me: int, c: Cast) -> bool {
    &&& c.kind == VoteKind::Prevote
    &&& c.validator == me
    &&& forall|i: int|
        0 <= i < log.len() && (#[trigger] log[i]).validator == me && log[i].kind
            == VoteKind::Prevote ==> log[i].round != c.round
    &&& forall|i: int|
        0 <= i < log.len() && (#[trigger] log[i]).validator == me && log[i].kind
            == VoteKind::Precommit && log[i].round < c.round && log[i].propose != c.propose
            ==> exists|round: int|
            log[i].round < round <= c.round && #[trigger] prevote_quorum(
                log,
                n,
                log.len() as int,
                round,
                c.propose,
            )
}

/// Whether the validator `me` may add the precommit `c` to the record
/// `log`: it has no precommit of that round in the record; a quorum has
/// prevoted the propose of `c` in its round; the validator has prevoted no
/// other propose in a later round; and its precommits for the same propose
/// name the same block.
pub open spec fn precommit_fits(log: Seq<Cast>, n: nat, me: int, c: Cast) -> bool {
    &&& c.kind == VoteKind::Precommit
    &&& c.validator == me
    &&& forall|i: int|
        0 <= i < log.len() && (#[trigger] log[i]).validator == me && log[i].kind
            == VoteKind::Precommit ==> log[i].round != c.round
    &&& prevote_quorum(log, n, log.len() as int, c.round, c.propose)
    &&& forall|i: int|
        0 <= i < log.len() && (#[trigger] log[i]).validator == me && log[i].kind
            == VoteKind::Prevote && log[i].round > c.round ==> log[i].propose == c.propose
    &&& forall|i: int|
        0 <= i < log.len() && (#[trigger] log[i]).validator == me && log[i].kind
            == VoteKind::Precommit && log[i].propose == c.propose ==> log[i].block == c.block
}

/// A vote of the validator `me` that fits the record leaves `me` within the
/// rules.
pub proof fn lemma_rules_own(log: Seq<Cast>, n: nat, me: int, c: Cast)
    requires
        keeps_rules(log, n, me),
        prevote_fits(log, n, me, c) || precommit_fits(log, n, me, c),
    ensures
        keeps_rules(log.push(c), n, me),
{
    let after = log.push(c);
    let last = log.len() as int;
    assert(after[last] == c);
    assert(votes_once(after, me)) by {
        assert forall|i: int, j: int|
            0 <= i < after.len() && 0 <= j < after.len() && (#[trigger] after[i]).validator == me
                && (#[trigger] after[j]).validator == me && after[i].kind == after[j].kind
                && after[i].round == after[j].round implies after[i] == after[j] by {
            if i < last {
                assert(after[i] == log[i]);
            }
            if j < last {
                assert(after[j] == log[j]);
            }
        }
    }
    assert(precommits_on_quorum(after, n, me)) by {
        assert forall|j: int|
            0 <= j < after.len() && (#[trigger] after[j]).validator == me && after[j].kind
                == VoteKind::Precommit implies prevote_quorum(
            after,
            n,
            j,
            after[j].round,
            after[j].propose,
        ) by {
            if j < last {
                assert(after[j] == log[j]);
            }
            lemma_prevoters_kept(log, c, n, j, after[j].round, after[j].propose);
        }
    }
    assert(prevotes_under_lock(after, n, me)) by {
        assert forall|i: int, j: int|
            0 <= i < j < after.len() && (#[trigger] after[i]).validator == me && (
            #[trigger] after[j]).validator == me && after[i].kind == VoteKind::Precommit
                && after[j].kind == VoteKind::Prevote && after[i].round < after[j].round
                && after[i].propose != after[j].propose implies exists|round: int|
            after[i].round < round <= after[j].round && #[trigger] prevote_quorum(
                after,
                n,
                j,
                round,
                after[j].propose,
            ) by {
            assert(after[i] == log[i]);
            if j < last {
                assert(after[j] == log[j]);
                let round = choose|round: int|
                    log[i].round < round <= log[j].round && #[trigger] prevote_quorum(
                        log,
                        n,
                        j,
                        round,
                        log[j].propose,
                    );
                lemma_prevoters_kept(log, c, n, j, round, log[j].propose);
                assert(prevote_quorum(after, n, j, round, after[j].propose));
            } else {
                let round = choose|round: int|
                    log[i].round < round <= c.round && #[trigger] prevote_quorum(
                        log,
                        n,
                        last,
                        round,
                        c.propose,
                    );
                lemma_prevoters_kept(log, c, n, last, round, c.propose);
                assert(prevote_quorum(after, n, j, round, after[j].propose));
            }
        }
    }
    assert(precommits_in_time(after, me)) by {
        assert forall|i: int, j: int|
            0 <= i < j < after.len() && (#[trigger] after[i]).validator == me && (
            #[trigger] after[j]).validator == me && after[i].kind == VoteKind::Prevote
                && after[j].kind == VoteKind::Precommit && after[i].round > after[j].round
                implies after[i].propose == after[j].propose by {
            assert(after[i] == log[i]);
            if j < last {
                assert(after[j] == log[j]);
            }
        }
    }
    assert(one_block(after, me)) by {
        assert forall|i: int, j: int|
            0 <= i < after.len() && 0 <= j < after.len() && (#[trigger] after[i]).validator == me
                && (#[trigger] after[j]).validator == me && after[i].kind == VoteKind::Precommit
                && after[j].kind == VoteKind::Precommit && after[i].propose == after[j].propose
                implies after[i].block == after[j].block by {
            if i < last {
                assert(after[i] == log[i]);
            }
            if j < last {
                assert(after[j] == log[j]);
            }
        }
    }
}

/// What the record holds it still holds after an entry more.
pub proof fn lemma_still_held(log: Seq<Cast>, c: Cast, held: Cast)
    requires
        log.contains(held),
    ensures
        log.push(c).contains(held),
{
    let i = choose|i: int| 0 <= i < log.len() && log[i] == held;
    assert(log.push(c)[i] == held);
}

/// An entry that is not a vote of the node leaves the record the record of
/// the node.
pub proof fn lemma_record_other(b: Ballots, log: Seq<Cast>, me: int, c: Cast)
    requires
        recorded(b, log, me),
        c.validator != me,
    ensures
        recorded(b, log.push(c), me),
{
    let after = log.push(c);
    assert forall|k: int| 0 <= k < b.seen.len() implies after.contains(
        seen_cast(#[trigger] b.seen[k]),
    ) by {
        lemma_still_held(log, c, seen_cast(b.seen[k]));
    }
    assert forall|k: int| 0 <= k < b.seen_precommits.len() implies after.contains(
        seen_precommit_cast(#[trigger] b.seen_precommits[k]),
    ) by {
        lemma_still_held(log, c, seen_precommit_cast(b.seen_precommits[k]));
    }
    assert forall|k: int| 0 <= k < b.prevotes.len() implies after.contains(
        prevote_cast(#[trigger] b.prevotes[k]),
    ) by {
        lemma_still_held(log, c, prevote_cast(b.prevotes[k]));
    }
    assert forall|k: int| 0 <= k < b.precommits.len() implies after.contains(
        precommit_cast(#[trigger] b.precommits[k]),
    ) by {
        lemma_still_held(log, c, precommit_cast(b.precommits[k]));
    }
    assert forall|i: int| 0 <= i < after.len() && (#[trigger] after[i]).validator == me implies (
    match after[i].kind {
        VoteKind::Prevote => holds_prevote(b.prevotes, after[i]),
        VoteKind::Precommit => holds_precommit(b.precommits, after[i]),
    }) by {
        assert(after[i] == log[i]);
    }
    lemma_rules_other(log, b.n, me, c);
    if b.locked_propose is Some {
        lemma_quorum_grows(log, c, b.n, b.locked_round.0 as int, b.locked_propose->0);
    }
}

/// A prevote of a validator that the record holds, once it is seen, leaves
/// the record the record of the node.
pub proof fn lemma_record_seen(b: Ballots, log: Seq<Cast>, me: int, vote: VoteRecord)
    requires
        recorded(b, log, me),
        log.contains(seen_cast(vote)),
        vote.validator.0 < b.n,
    ensures
        recorded(Ballots { seen: b.seen.push(vote), ..b }, log, me),
{
    let after = Ballots { seen: b.seen.push(vote), ..b };
    assert forall|k: int| 0 <= k < after.seen.len() implies (#[trigger] after.seen[k]).validator.0
        < after.n && log.contains(seen_cast(after.seen[k])) by {
        if k < b.seen.len() {
            assert(after.seen[k] == b.seen[k]);
        }
    }
}

/// A precommit of a validator that the record holds, once it is seen,
/// leaves the record the record of the node.
pub proof fn lemma_record_seen_precommit(b: Ballots, log: Seq<Cast>, me: int, vote: VoteRecord)
    requires
        recorded(b, log, me),
        log.contains(seen_precommit_cast(vote)),
        vote.validator.0 < b.n,
    ensures
        recorded(Ballots { seen_precommits: b.seen_precommits.push(vote), ..b }, log, me),
{
    let after = Ballots { seen_precommits: b.seen_precommits.push(vote), ..b };
    assert forall|k: int| 0 <= k < after.seen_precommits.len() implies (
    #[trigger] after.seen_precommits[k]).validator.0 < after.n && log.contains(
        seen_precommit_cast(after.seen_precommits[k]),
    ) by {
        if k < b.seen_precommits.len() {
            assert(after.seen_precommits[k] == b.seen_precommits[k]);
        }
    }
}

/// A prevote that the node casts as its lock lets it, in a round in which
/// it has not prevoted, leaves the record, with the prevote as its last entry,
/// the record of the node.
pub proof fn lemma_record_prevote(b: Ballots, log: Seq<Cast>, me: int, pv: Prevote)
    requires
        recorded(b, log, me),
        b.lets_prevote(pv.round, pv.propose_hash),
        pv.validator.0 == me,
        forall|k: int| 0 <= k < b.prevotes.len() ==> (#[trigger] b.prevotes[k]).round != pv.round,
    ensures
        recorded(
            Ballots { prevotes: b.prevotes.push(pv), ..b },
            log.push(prevote_cast(pv)),
            me,
        ),
{
    let c = prevote_cast(pv);
    let after = log.push(c);
    let ballots = Ballots { prevotes: b.prevotes.push(pv), ..b };
    assert(prevote_fits(log, b.n, me, c)) by {
        assert forall|i: int|
            0 <= i < log.len() && (#[trigger] log[i]).validator == me && log[i].kind
                == VoteKind::Prevote implies log[i].round != c.round by {
            let k = choose|k: int|
                0 <= k < b.prevotes.len() && prevote_cast(#[trigger] b.prevotes[k]) == log[i];
            assert(b.prevotes[k].round != pv.round);
        }
        assert forall|i: int|
            0 <= i < log.len() && (#[trigger] log[i]).validator == me && log[i].kind
                == VoteKind::Precommit && log[i].round < c.round && log[i].propose != c.propose
                implies exists|round: int|
            log[i].round < round <= c.round && #[trigger] prevote_quorum(
                log,
                b.n,
                log.len() as int,
                round,
                c.propose,
            ) by {
            let k = choose|k: int|
                0 <= k < b.precommits.len() && precommit_cast(#[trigger] b.precommits[k]) == log[i];
            let pc = b.precommits[k];
            assert(b.covers(pc));
            assert(prevote_quorum(log, b.n, log.len() as int, b.locked_round.0 as int, c.propose));
        }
    }
    lemma_rules_own(log, b.n, me, c);
    if b.locked_propose is Some {
        lemma_quorum_grows(log, c, b.n, b.locked_round.0 as int, b.locked_propose->0);
    }
    assert forall|j: int| 0 <= j < ballots.precommits.len() implies ballots.covers(
        #[trigger] ballots.precommits[j],
    ) by {
        assert(b.covers(b.precommits[j]));
    }
    assert forall|k: int| 0 <= k < ballots.seen.len() implies after.contains(
        seen_cast(#[trigger] ballots.seen[k]),
    ) by {
        lemma_still_held(log, c, seen_cast(b.seen[k]));
    }
    assert forall|k: int| 0 <= k < ballots.seen_precommits.len() implies after.contains(
        seen_precommit_cast(#[trigger] ballots.seen_precommits[k]),
    ) by {
        lemma_still_held(log, c, seen_precommit_cast(b.seen_precommits[k]));
    }
    assert forall|k: int| 0 <= k < ballots.prevotes.len() implies (
    #[trigger] ballots.prevotes[k]).validator.0 == me && after.contains(
        prevote_cast(ballots.prevotes[k]),
    ) by {
        if k < b.prevotes.len() {
            assert(ballots.prevotes[k] == b.prevotes[k]);
            lemma_still_held(log, c, prevote_cast(b.prevotes[k]));
        } else {
            assert(after[log.len() as int] == c);
        }
    }
    assert forall|k: int| 0 <= k < ballots.precommits.len() implies after.contains(
        precommit_cast(#[trigger] ballots.precommits[k]),
    ) by {
        lemma_still_held(log, c, precommit_cast(b.precommits[k]));
    }
    assert forall|i: int| 0 <= i < after.len() && (#[trigger] after[i]).validator == me implies (
    match after[i].kind {
        VoteKind::Prevote => holds_prevote(ballots.prevotes, after[i]),
        VoteKind::Precommit => holds_precommit(ballots.precommits, after[i]),
    }) by {
        if i < log.len() {
            assert(after[i] == log[i]);
            if log[i].kind == VoteKind::Prevote {
                let k = choose|k: int|
                    0 <= k < b.prevotes.len() && prevote_cast(#[trigger] b.prevotes[k]) == log[i];
                assert(prevote_cast(ballots.prevotes[k]) == after[i]);
            }
        } else {
            assert(prevote_cast(ballots.prevotes[b.prevotes.len() as int]) == after[i]);
        }
    }
}

/// A precommit that the node casts as its lock lets it, in a round in
/// which it has not precommitted, and with the block that its precommits for
/// the same propose name, leaves the record, with the precommit as its last
/// entry, the record of the node.
pub proof fn lemma_record_precommit(b: Ballots, log: Seq<Cast>, me: int, pc: Precommit)
    requires
        recorded(b, log, me),
        b.lets_precommit(pc.round, pc.propose_hash),
        pc.validator.0 == me,
        forall|k: int| 0 <= k < b.precommits.len() ==> (#[trigger] b.precommits[k]).round != pc.round,
        forall|k: int|
            0 <= k < b.precommits.len() && (#[trigger] b.precommits[k]).propose_hash
                == pc.propose_hash ==> b.precommits[k].block_hash == pc.block_hash,
    ensures
        recorded(
            Ballots { precommits: b.precommits.push(pc), ..b },
            log.push(precommit_cast(pc)),
            me,
        ),
{
    let c = precommit_cast(pc);
    let after = log.push(c);
    let ballots = Ballots { precommits: b.precommits.push(pc), ..b };
    assert(precommit_fits(log, b.n, me, c)) by {
        assert forall|i: int|
            0 <= i < log.len() && (#[trigger] log[i]).validator == me && log[i].kind
                == VoteKind::Precommit implies log[i].round != c.round by {
            let k = choose|k: int|
                0 <= k < b.precommits.len() && precommit_cast(#[trigger] b.precommits[k]) == log[i];
            assert(b.precommits[k].round != pc.round);
        }
        assert(prevote_quorum(log, b.n, log.len() as int, c.round, c.propose));
        assert forall|i: int|
            0 <= i < log.len() && (#[trigger] log[i]).validator == me && log[i].kind
                == VoteKind::Prevote && log[i].round > c.round implies log[i].propose
            == c.propose by {
            let k = choose|k: int|
                0 <= k < b.prevotes.len() && prevote_cast(#[trigger] b.prevotes[k]) == log[i];
            assert(!(b.prevotes[k].round.0 > pc.round.0 && b.prevotes[k].propose_hash
                != pc.propose_hash));
        }
        assert forall|i: int|
            0 <= i < log.len() && (#[trigger] log[i]).validator == me && log[i].kind
                == VoteKind::Precommit && log[i].propose == c.propose implies log[i].block
            == c.block by {
            let k = choose|k: int|
                0 <= k < b.precommits.len() && precommit_cast(#[trigger] b.precommits[k]) == log[i];
            assert(b.precommits[k].block_hash == pc.block_hash);
        }
    }
    lemma_rules_own(log, b.n, me, c);
    lemma_quorum_grows(log, c, b.n, b.locked_round.0 as int, pc.propose_hash);
    assert forall|j: int| 0 <= j < ballots.precommits.len() implies ballots.covers(
        #[trigger] ballots.precommits[j],
    ) by {
        if j < b.precommits.len() {
            assert(b.covers(b.precommits[j]));
        }
    }
    assert forall|k: int| 0 <= k < ballots.seen.len() implies after.contains(
        seen_cast(#[trigger] ballots.seen[k]),
    ) by {
        lemma_still_held(log, c, seen_cast(b.seen[k]));
    }
    assert forall|k: int| 0 <= k < ballots.seen_precommits.len() implies after.contains(
        seen_precommit_cast(#[trigger] ballots.seen_precommits[k]),
    ) by {
        lemma_still_held(log, c, seen_precommit_cast(b.seen_precommits[k]));
    }
    assert forall|k: int| 0 <= k < ballots.prevotes.len() implies after.contains(
        prevote_cast(#[trigger] ballots.prevotes[k]),
    ) by {
        lemma_still_held(log, c, prevote_cast(b.prevotes[k]));
    }
    assert forall|k: int| 0 <= k < ballots.precommits.len() implies (
    #[trigger] ballots.precommits[k]).validator.0 == me && after.contains(
        precommit_cast(ballots.precommits[k]),
    ) by {
        if k < b.precommits.len() {
            assert(ballots.precommits[k] == b.precommits[k]);
            lemma_still_held(log, c, precommit_cast(b.precommits[k]));
        } else {
            assert(after[log.len() as int] == c);
        }
    }
    assert forall|i: int| 0 <= i < after.len() && (#[trigger] after[i]).validator == me implies (
    match after[i].kind {
        VoteKind::Prevote => holds_prevote(ballots.prevotes, after[i]),
        VoteKind::Precommit => holds_precommit(ballots.precommits, after[i]),
    }) by {
        if i < log.len() {
            assert(after[i] == log[i]);
            if log[i].kind == VoteKind::Precommit {
                let k = choose|k: int|
                    0 <= k < b.precommits.len() && precommit_cast(#[trigger] b.precommits[k])
                        == log[i];
                assert(precommit_cast(ballots.precommits[k]) == after[i]);
            }
        } else {
            assert(precommit_cast(ballots.precommits[b.precommits.len() as int]) == after[i]);
        }
    }
}

/// The empty record is the record of a node that has cast and seen
/// nothing.
pub proof fn lemma_record_empty(b: Ballots, me: int)
    requires
        0 <= me,
        b.seen.len() == 0,
        b.seen_precommits.len() == 0,
        b.prevotes.len() == 0,
        b.precommits.len() == 0,
        b.locked_propose is None,
    ensures
        recorded(b, Seq::<Cast>::empty(), me),
{
}

/// To lock on a propose at a later round, in which the record holds a
/// quorum of prevotes for it, leaves the record the record of the node.
pub proof fn lemma_record_lock(
    b: Ballots,
    log: Seq<Cast>,
    me: int,
    round: crate::helpers::Round,
    hash: crypto::Hash,
)
    requires
        recorded(b, log, me),
        round.0 > b.locked_round.0,
        prevote_quorum(log, b.n, log.len() as int, round.0 as int, hash),
    ensures
        recorded(Ballots { locked_round: round, locked_propose: Some(hash), ..b }, log, me),
{
    let after = Ballots { locked_round: round, locked_propose: Some(hash), ..b };
    assert forall|j: int| 0 <= j < after.precommits.len() implies after.covers(
        #[trigger] after.precommits[j],
    ) by {
        assert(b.covers(b.precommits[j]));
    }
}

} // verus!
