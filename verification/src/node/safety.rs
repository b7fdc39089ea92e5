//! Why no two blocks are committed at one height: the rules that honest
//! validators keep when they vote, and the proof that two quorums of
//! precommits cast under these rules are for the same block.

use vstd::prelude::*;
use vstd::set_lib::set_int_range;
use crate::crypto;
use crate::node::votes::{lemma_quorums_share_honest, quorum};

verus! {

/// The two kinds of vote.
#[derive(PartialEq, Eq, Structural)]
pub enum VoteKind {
    /// First vote.
    Prevote,
    /// Second vote.
    Precommit,
}

/// A vote that a validator has cast at the height in question.
pub struct Cast {
    /// Kind of the vote.
    pub kind: VoteKind,
    /// Index of the voter.
    pub validator: int,
    /// Round of the vote.
    pub round: int,
    /// Hash of the propose voted for.
    pub propose: crypto::Hash,
    /// Hash of the block voted for; of no account in a prevote.
    pub block: crypto::Hash,
}

/// Whether the vote at the time `i` in `history` is a prevote of `v` for
/// the propose `propose` in the round `round`.
pub open spec fn prevoted_at(history: Seq<Cast>, i: int, v: int, round: int, propose: crypto::Hash) -> bool {
    &&& 0 <= i < history.len()
    &&& history[i].kind == VoteKind::Prevote
    &&& history[i].validator == v
    &&& history[i].round == round
    &&& history[i].propose == propose
}

/// Whether the vote at the time `i` in `history` is a precommit of `v` for
/// the propose `propose` in the round `round`.
pub open spec fn precommitted_at(history: Seq<Cast>, i: int, v: int, round: int, propose: crypto::Hash) -> bool {
    &&& 0 <= i < history.len()
    &&& history[i].kind == VoteKind::Precommit
    &&& history[i].validator == v
    &&& history[i].round == round
    &&& history[i].propose == propose
}

/// The validators among `n` that prevoted the propose `propose` in the
/// round `round` before the time `before`.
pub open spec fn prevoters(history: Seq<Cast>, n: nat, before: int, round: int, propose: crypto::Hash) -> Set<int> {
    Set::new(
        |v: int|
            0 <= v < n && exists|i: int| i < before && prevoted_at(history, i, v, round, propose),
    )
}

/// The validators among `n` that precommitted the propose `propose` with the
/// block `block` in the round `round`.
pub open spec fn precommitters(
    history: Seq<Cast>,
    n: nat,
    round: int,
    propose: crypto::Hash,
    block: crypto::Hash,
) -> Set<int> {
    Set::new(
        |v: int|
            0 <= v < n && exists|i: int|
                precommitted_at(history, i, v, round, propose) && history[i].block == block,
    )
}

/// Whether a quorum among `n` prevoted the propose `propose` in the round
/// `round` before the time `before`.
pub open spec fn prevote_quorum(history: Seq<Cast>, n: nat, before: int, round: int, propose: crypto::Hash) -> bool {
    prevoters(history, n, before, round, propose).len() >= quorum(n)
}

/// Whether a quorum among `n` precommitted the propose `propose` with the
/// block `block` in the round `round`.
pub open spec fn precommit_quorum(
    history: Seq<Cast>,
    n: nat,
    round: int,
    propose: crypto::Hash,
    block: crypto::Hash,
) -> bool {
    precommitters(history, n, round, propose, block).len() >= quorum(n)
}

/// Whether the validator `v` casts at most one vote of a kind in a round.
pub open spec fn votes_once(history: Seq<Cast>, v: int) -> bool {
    forall|i: int, j: int|
        0 <= i < history.len() && 0 <= j < history.len() && (#[trigger] history[i]).validator == v
            && (#[trigger] history[j]).validator == v && history[i].kind == history[j].kind
            && history[i].round == history[j].round ==> history[i] == history[j]
}

/// Whether the validator `v` precommits a propose in a round only after a
/// quorum prevoted the propose in that round.
pub open spec fn precommits_on_quorum(history: Seq<Cast>, n: nat, v: int) -> bool {
    forall|j: int|
        0 <= j < history.len() && (#[trigger] history[j]).validator == v && history[j].kind
            == VoteKind::Precommit ==> prevote_quorum(
            history,
            n,
            j,
            history[j].round,
            history[j].propose,
        )
}

/// Whether the validator `v`, once it has precommitted a propose, prevotes
/// another propose in a later round only after a quorum prevoted that other
/// propose in a round after the precommit.
pub open spec fn prevotes_under_lock(history: Seq<Cast>, n: nat, v: int) -> bool {
    forall|i: int, j: int|
        0 <= i < j < history.len() && (#[trigger] history[i]).validator == v && (
        #[trigger] history[j]).validator == v && history[i].kind == VoteKind::Precommit
            && history[j].kind == VoteKind::Prevote && history[i].round < history[j].round
            && history[i].propose != history[j].propose ==> exists|round: int|
            history[i].round < round <= history[j].round && #[trigger] prevote_quorum(
                history,
                n,
                j,
                round,
                history[j].propose,
            )
}

/// Whether the validator `v` does not precommit a propose in a round once
/// it has prevoted another propose in a later round.
pub open spec fn precommits_in_time(history: Seq<Cast>, v: int) -> bool {
    forall|i: int, j: int|
        0 <= i < j < history.len() && (#[trigger] history[i]).validator == v && (
        #[trigger] history[j]).validator == v && history[i].kind == VoteKind::Prevote
            && history[j].kind == VoteKind::Precommit && history[i].round > history[j].round
            ==> history[i].propose == history[j].propose
}

/// Whether the precommits of the validator `v` for one propose name one
/// block.
pub open spec fn one_block(history: Seq<Cast>, v: int) -> bool {
    forall|i: int, j: int|
        0 <= i < history.len() && 0 <= j < history.len() && (#[trigger] history[i]).validator == v
            && (#[trigger] history[j]).validator == v && history[i].kind == VoteKind::Precommit
            && history[j].kind == VoteKind::Precommit && history[i].propose == history[j].propose
            ==> history[i].block == history[j].block
}

/// The rules that the validator `v` keeps in `history`:
/// it casts at most one vote of a kind in a round;
/// it precommits a propose in a round only after a quorum prevoted the
/// propose in that round;
/// once it has precommitted a propose, it prevotes another propose in a later
/// round only after a quorum prevoted that other propose in a round after the
/// precommit;
/// it does not precommit a propose in a round once it has prevoted another
/// propose in a later round;
/// and its precommits for one propose name one block.
pub open spec fn keeps_rules(history: Seq<Cast>, n: nat, v: int) -> bool {
    &&& votes_once(history, v)
    &&& precommits_on_quorum(history, n, v)
    &&& prevotes_under_lock(history, n, v)
    &&& precommits_in_time(history, v)
    &&& one_block(history, v)
}

/// Whether every validator among `n` outside `faulty` keeps the rules in
/// `history`, and `faulty` are fewer than a third of the validators.
pub open spec fn honest_majority(history: Seq<Cast>, n: nat, faulty: Set<int>) -> bool {
    &&& faulty.finite()
    &&& 3 * faulty.len() < n
    &&& forall|v: int| 0 <= v < n && !faulty.contains(v) ==> keeps_rules(history, n, v)
}

/// Once a quorum has precommitted a propose in a round, no honest validator
/// of that quorum prevotes another propose in a later round.
pub proof fn lemma_quorum_keeps_prevoting(
    history: Seq<Cast>,
    n: nat,
    faulty: Set<int>,
    round: int,
    propose: crypto::Hash,
    block: crypto::Hash,
    j: int,
)
    requires
        honest_majority(history, n, faulty),
        precommit_quorum(history, n, round, propose, block),
        0 <= j < history.len(),
        history[j].kind == VoteKind::Prevote,
        history[j].round > round,
        !faulty.contains(history[j].validator),
        precommitters(history, n, round, propose, block).contains(history[j].validator),
    ensures
        history[j].propose == propose,
    decreases j,
{
    let v = history[j].validator;
    let committed = precommitters(history, n, round, propose, block);
    let i = choose|i: int|
        precommitted_at(history, i, v, round, propose) && history[i].block == block;
    assert(keeps_rules(history, n, v));
    if history[j].propose != propose {
        if i > j {
            assert(history[j].validator == v && history[i].validator == v);
            assert(history[j].propose == history[i].propose);
        } else {
            assert(i != j);
            assert(history[i].validator == v && history[j].validator == v);
            let later = choose|later: int|
                history[i].round < later <= history[j].round && #[trigger] prevote_quorum(
                    history,
                    n,
                    j,
                    later,
                    history[j].propose,
                );
            let voted = prevoters(history, n, j, later, history[j].propose);
            assert(voted.subset_of(set_int_range(0, n as int)));
            assert(committed.subset_of(set_int_range(0, n as int)));
            lemma_quorums_share_honest(n, voted, committed, faulty);
            let w = choose|w: int| voted.contains(w) && committed.contains(w) && !faulty.contains(w);
            let k = choose|k: int|
                k < j && prevoted_at(history, k, w, later, history[j].propose);
            lemma_quorum_keeps_prevoting(history, n, faulty, round, propose, block, k);
        }
    }
}

/// Two quorums of precommits, the second in a round not before the first,
/// are for the same propose and the same block.
pub proof fn lemma_agreement_in_order(
    history: Seq<Cast>,
    n: nat,
    faulty: Set<int>,
    round1: int,
    propose1: crypto::Hash,
    block1: crypto::Hash,
    round2: int,
    propose2: crypto::Hash,
    block2: crypto::Hash,
)
    requires
        honest_majority(history, n, faulty),
        precommit_quorum(history, n, round1, propose1, block1),
        precommit_quorum(history, n, round2, propose2, block2),
        round1 <= round2,
    ensures
        propose1 == propose2,
        block1 == block2,
{
    let first = precommitters(history, n, round1, propose1, block1);
    let second = precommitters(history, n, round2, propose2, block2);
    assert(first.subset_of(set_int_range(0, n as int)));
    assert(second.subset_of(set_int_range(0, n as int)));
    lemma_quorums_share_honest(n, first, second, faulty);
    let v = choose|v: int| first.contains(v) && second.contains(v) && !faulty.contains(v);
    let i1 = choose|i: int|
        precommitted_at(history, i, v, round1, propose1) && history[i].block == block1;
    let i2 = choose|i: int|
        precommitted_at(history, i, v, round2, propose2) && history[i].block == block2;
    assert(keeps_rules(history, n, v));
    assert(history[i1].validator == v && history[i2].validator == v);
    if round1 == round2 {
        assert(history[i1] == history[i2]);
    } else {
        assert(prevote_quorum(history, n, i2, round2, propose2));
        let voted = prevoters(history, n, i2, round2, propose2);
        assert(voted.subset_of(set_int_range(0, n as int)));
        lemma_quorums_share_honest(n, voted, first, faulty);
        let w = choose|w: int| voted.contains(w) && first.contains(w) && !faulty.contains(w);
        let k = choose|k: int| k < i2 && prevoted_at(history, k, w, round2, propose2);
        lemma_quorum_keeps_prevoting(history, n, faulty, round1, propose1, block1, k);
        assert(propose1 == propose2);
        assert(history[i1].block == history[i2].block);
    }
}

/// Agreement. Where fewer than a third of the validators are faulty and the
/// others keep the rules, any two quorums of precommits at one height are
/// for the same propose and the same block, in whatever rounds they were
/// reached: no two blocks are committed at one height.
pub proof fn lemma_agreement(
    history: Seq<Cast>,
    n: nat,
    faulty: Set<int>,
    round1: int,
    propose1: crypto::Hash,
    block1: crypto::Hash,
    round2: int,
    propose2: crypto::Hash,
    block2: crypto::Hash,
)
    requires
        honest_majority(history, n, faulty),
        precommit_quorum(history, n, round1, propose1, block1),
        precommit_quorum(history, n, round2, propose2, block2),
    ensures
        propose1 == propose2,
        block1 == block2,
{
    if round1 <= round2 {
        lemma_agreement_in_order(
            history,
            n,
            faulty,
            round1,
            propose1,
            block1,
            round2,
            propose2,
            block2,
        );
    } else {
        lemma_agreement_in_order(
            history,
            n,
            faulty,
            round2,
            propose2,
            block2,
            round1,
            propose1,
            block1,
        );
    }
}

} // verus!
