//! The votes of a node at a height, and how its lock guards its
//! precommits.

use vstd::prelude::*;
use vstd::set_lib::lemma_len_subset;
use crate::crypto;
use crate::helpers::{Round, ValidatorId};
use crate::messages::{Precommit, Prevote};
use crate::node::state::StateView;
use crate::node::votes::{quorum, voters, VoteKey, VoteRecord};

verus! {

/// The votes of a node at a height: those that it has cast, those that it
/// has seen, and its lock.
pub struct Ballots {
    /// Number of validators.
    pub n: nat,
    /// The prevotes seen, in the order in which they came.
    pub seen: Seq<VoteRecord>,
    /// The precommits seen, in the order in which they came.
    pub seen_precommits: Seq<VoteRecord>,
    /// The node's own prevotes, in the order in which it cast them.
    pub prevotes: Seq<Prevote>,
    /// The node's own precommits, in the order in which it cast them.
    pub precommits: Seq<Precommit>,
    /// Round at which the node is locked.
    pub locked_round: Round,
    /// Propose on which the node is locked.
    pub locked_propose: Option<crypto::Hash>,
}

/// The prevotes that the node itself has cast; none where it is no
/// validator.
pub open spec fn own_prevotes(s: StateView) -> Seq<Prevote> {
    match s.validator_state {
        Some(v) => v.our_prevotes,
        None => Seq::empty(),
    }
}

/// The precommits that the node itself has cast; none where it is no
/// validator.
pub open spec fn own_precommits(s: StateView) -> Seq<Precommit> {
    match s.validator_state {
        Some(v) => v.our_precommits,
        None => Seq::empty(),
    }
}

/// The votes and the lock of the state `s`.
pub open spec fn ballots(s: StateView) -> Ballots {
    Ballots {
        n: s.n(),
        seen: s.prevotes.records,
        seen_precommits: s.precommits.records,
        prevotes: own_prevotes(s),
        precommits: own_precommits(s),
        locked_round: s.locked_round,
        locked_propose: s.locked_propose,
    }
}

/// What a prevote for the propose `hash` in the round `round` is for.
pub open spec fn subject(round: Round, hash: crypto::Hash) -> VoteKey {
    VoteKey { round, propose_hash: hash, block_hash: crypto::Hash(0, 0, 0, 0) }
}

impl Ballots {
    /// Whether a quorum was seen to prevote the propose `hash` in the round
    /// `round`.
    pub open spec fn quorum_for(self, round: Round, hash: crypto::Hash) -> bool {
        voters(self.seen, subject(round, hash)).len() >= quorum(self.n)
    }

    /// Whether the lock covers the precommit `pc`: the precommit is of no
    /// later round than the lock, and where it is of the round of the lock it
    /// is for the propose of the lock.
    pub open spec fn covers(self, pc: Precommit) -> bool {
        &&& pc.round.0 <= self.locked_round.0
        &&& (pc.round == self.locked_round ==> self.locked_propose == Some(pc.propose_hash))
    }

    /// Whether the lock guards the precommits of the node: a node that is
    /// not locked has not precommitted, and the lock covers every precommit of
    /// the node.
    pub open spec fn guarded(self) -> bool {
        &&& (self.locked_propose is None ==> self.precommits.len() == 0)
        &&& forall|j: int| 0 <= j < self.precommits.len() ==> self.covers(#[trigger] self.precommits[j])
    }

    /// Whether no quorum was seen to prevote in a round after `top`.
    pub open spec fn none_after(self, top: Round) -> bool {
        forall|r: Round, hash: crypto::Hash| #[trigger] self.quorum_for(r, hash) ==> r.0 <= top.0
    }

    /// Whether the lock lets the node prevote the propose `hash` in the round
    /// `round`: a node that is locked prevotes the propose of its lock, in no
    /// round before that of the lock.
    pub open spec fn lets_prevote(self, round: Round, hash: crypto::Hash) -> bool {
        self.locked_propose matches Some(l) ==> l == hash && self.locked_round.0 <= round.0
    }

    /// Whether the lock lets the node precommit the propose `hash` in the
    /// round `round`: the node is locked on the propose at the round, and has
    /// prevoted no other propose in a later round.
    pub open spec fn lets_precommit(self, round: Round, hash: crypto::Hash) -> bool {
        &&& self.locked_propose == Some(hash)
        &&& self.locked_round == round
        &&& forall|i: int|
            0 <= i < self.prevotes.len() ==> !((#[trigger] self.prevotes[i]).round.0 > round.0
                && self.prevotes[i].propose_hash != hash)
    }
}

/// The voters for any subject are finitely many.
pub proof fn lemma_voters_finite(records: Seq<VoteRecord>, key: VoteKey)
    ensures
        voters(records, key).finite(),
{
    let all = vstd::set_lib::set_int_range(0, 0x1_0000);
    vstd::set_lib::lemma_int_range(0, 0x1_0000);
    assert(voters(records, key).subset_of(all));
    lemma_len_subset(voters(records, key), all);
}

/// A vote more takes no voter away, and adds none but for its own subject.
pub proof fn lemma_vote_more(records: Seq<VoteRecord>, vote: VoteRecord, key: VoteKey)
    ensures
        voters(records, key).len() <= voters(records.push(vote), key).len(),
        vote.key != key ==> voters(records.push(vote), key) == voters(records, key),
{
    let before = voters(records, key);
    let after = voters(records.push(vote), key);
    lemma_voters_finite(records, key);
    lemma_voters_finite(records.push(vote), key);
    assert forall|v: int| before.contains(v) implies after.contains(v) by {
        let r = VoteRecord { validator: ValidatorId(v as u16), key };
        let i = choose|i: int| 0 <= i < records.len() && records[i] == r;
        assert(records.push(vote)[i] == r);
    }
    lemma_len_subset(before, after);
    if vote.key != key {
        assert forall|v: int| after.contains(v) implies before.contains(v) by {
            let r = VoteRecord { validator: ValidatorId(v as u16), key };
            let i = choose|i: int| 0 <= i < records.push(vote).len() && records.push(vote)[i] == r;
            assert(i < records.len());
            assert(records[i] == r);
        }
        assert(after =~= before);
    }
}

/// A prevote that is seen brings a quorum in no round but its own.
pub proof fn lemma_prevote_seen(b: Ballots, vote: VoteRecord, top: Round)
    requires
        b.none_after(top),
    ensures
        (Ballots { seen: b.seen.push(vote), ..b }).none_after(
            if vote.key.round.0 > top.0 {
                vote.key.round
            } else {
                top
            },
        ),
{
    let after = Ballots { seen: b.seen.push(vote), ..b };
    assert forall|r: Round, hash: crypto::Hash| #[trigger]
        after.quorum_for(r, hash) && r != vote.key.round implies b.quorum_for(r, hash) by {
        lemma_vote_more(b.seen, vote, subject(r, hash));
    }
}

/// A prevote that is seen and brings no quorum for its subject brings no
/// quorum at all.
pub proof fn lemma_prevote_seen_short(b: Ballots, vote: VoteRecord, top: Round)
    requires
        b.none_after(top),
        vote.key.block_hash == crypto::Hash(0, 0, 0, 0),
        !(Ballots { seen: b.seen.push(vote), ..b }).quorum_for(vote.key.round, vote.key.propose_hash),
    ensures
        (Ballots { seen: b.seen.push(vote), ..b }).none_after(top),
{
    let after = Ballots { seen: b.seen.push(vote), ..b };
    assert forall|r: Round, hash: crypto::Hash| #[trigger] after.quorum_for(r, hash) implies r.0
        <= top.0 by {
        lemma_vote_more(b.seen, vote, subject(r, hash));
        assert(subject(r, hash) != vote.key);
        assert(b.quorum_for(r, hash));
    }
}

/// Votes that have seen the same prevotes have seen the same quorums.
pub proof fn lemma_same_seen(a: Ballots, b: Ballots, top: Round)
    requires
        a.seen == b.seen,
        a.n == b.n,
        a.none_after(top),
    ensures
        b.none_after(top),
{
    assert forall|r: Round, hash: crypto::Hash| #[trigger] b.quorum_for(r, hash) implies r.0
        <= top.0 by {
        assert(a.quorum_for(r, hash));
    }
}

/// Where no quorum was seen after a round, none was seen after any later
/// round.
pub proof fn lemma_none_after_later(b: Ballots, top: Round, later: Round)
    requires
        b.none_after(top),
        top.0 <= later.0,
    ensures
        b.none_after(later),
{
    assert forall|r: Round, hash: crypto::Hash| #[trigger] b.quorum_for(r, hash) implies r.0
        <= later.0 by {}
}

/// Where no prevote was seen, no quorum was seen.
pub proof fn lemma_none_seen(b: Ballots, top: Round)
    requires
        b.seen.len() == 0,
    ensures
        b.none_after(top),
{
    assert forall|r: Round, hash: crypto::Hash| !#[trigger] b.quorum_for(r, hash) by {
        assert(voters(b.seen, subject(r, hash)) =~= Set::<int>::empty());
    }
}

} // verus!
