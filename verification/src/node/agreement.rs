//! Agreement of the nodes: where fewer than a third of the validators are
//! faulty and the others run handlers that are in order, any two blocks that
//! nodes are about to commit at a height are the same block.

use vstd::prelude::*;
use vstd::set_lib::{lemma_int_range, lemma_len_subset, set_int_range};
use crate::crypto;
use crate::messages::{Precommit, Signed};
use crate::node::conduct::{in_order, index_of, log_of};
use crate::node::handler::HandlerView;
use crate::node::ledger::{precommit_cast, recorded, seen_precommit_cast};
use crate::node::rules::ballots;
use crate::node::safety::{
    keeps_rules, lemma_agreement, one_block, precommit_quorum, precommits_in_time,
    precommits_on_quorum, precommitted_at, precommitters, prevote_quorum, prevoted_at, prevoters,
    prevotes_under_lock, votes_once, Cast,
};
use crate::node::state::StateView;
use crate::node::votes::{voters, VoteRecord};

verus! {

/// Whether the vote at the place `g` of the history `all` stands in the
/// record `local` of the validator `me`, of which `at` gives the places in
/// the history.
pub open spec fn stands_in(local: Seq<Cast>, at: Seq<int>, me: int, g: int) -> bool {
    exists|j: int| 0 <= j < local.len() && #[trigger] at[j] == g && local[j].validator == me
}

/// Whether the record `local` of the validator `me` lies in the history
/// `all` of the votes of all validators, with the entry `i` of the record at
/// the place `at[i]` of the history: every vote of the record is in the
/// history at its place; whatever vote the record holds before a vote of `me`
/// is before it in the history as well; and every vote of `me` in the
/// history stands in the record.
pub open spec fn lies_in(local: Seq<Cast>, all: Seq<Cast>, at: Seq<int>, me: int) -> bool {
    &&& 0 <= me
    &&& at.len() == local.len()
    &&& forall|i: int|
        0 <= i < local.len() && (#[trigger] local[i]).validator >= 0 ==> 0 <= at[i] < all.len()
            && all[at[i]] == local[i]
    &&& forall|i: int, j: int|
        0 <= i < j < local.len() && (#[trigger] local[i]).validator >= 0 && (
        #[trigger] local[j]).validator == me ==> at[i] < at[j]
    &&& forall|g: int|
        0 <= g < all.len() && (#[trigger] all[g]).validator == me ==> stands_in(local, at, me, g)
}

/// The place in the record of the vote of `me` at the place `g` of the
/// history.
pub open spec fn place_of(local: Seq<Cast>, at: Seq<int>, me: int, g: int) -> int {
    choose|j: int| 0 <= j < local.len() && #[trigger] at[j] == g && local[j].validator == me
}

/// A vote of `me` in the history is the vote at its place in the record.
pub proof fn lemma_place(local: Seq<Cast>, all: Seq<Cast>, at: Seq<int>, me: int, g: int)
    requires
        lies_in(local, all, at, me),
        0 <= g < all.len(),
        all[g].validator == me,
    ensures
        0 <= place_of(local, at, me, g) < local.len(),
        at[place_of(local, at, me, g)] == g,
        local[place_of(local, at, me, g)] == all[g],
{
    assert(stands_in(local, at, me, g));
    let j = place_of(local, at, me, g);
    assert(local[j].validator >= 0);
}

/// Two votes of `me` stand in the record in the order in which they stand
/// in the history.
pub proof fn lemma_places_in_order(
    local: Seq<Cast>,
    all: Seq<Cast>,
    at: Seq<int>,
    me: int,
    g1: int,
    g2: int,
)
    requires
        lies_in(local, all, at, me),
        0 <= g1 < g2 < all.len(),
        all[g1].validator == me,
        all[g2].validator == me,
    ensures
        place_of(local, at, me, g1) < place_of(local, at, me, g2),
{
    lemma_place(local, all, at, me, g1);
    lemma_place(local, all, at, me, g2);
    let j1 = place_of(local, at, me, g1);
    let j2 = place_of(local, at, me, g2);
    if j2 < j1 {
        assert(local[j2].validator >= 0 && local[j1].validator == me);
        assert(at[j2] < at[j1]);
    }
}

/// A quorum that had prevoted in the record before a vote of `me` had
/// prevoted in the history before that vote.
pub proof fn lemma_quorum_carries(
    local: Seq<Cast>,
    all: Seq<Cast>,
    at: Seq<int>,
    n: nat,
    me: int,
    j: int,
    round: int,
    propose: crypto::Hash,
)
    requires
        lies_in(local, all, at, me),
        0 <= j < local.len(),
        local[j].validator == me,
        prevote_quorum(local, n, j, round, propose),
    ensures
        prevote_quorum(all, n, at[j], round, propose),
{
    let a = prevoters(local, n, j, round, propose);
    let b = prevoters(all, n, at[j], round, propose);
    assert forall|v: int| a.contains(v) implies b.contains(v) by {
        let i = choose|i: int| i < j && prevoted_at(local, i, v, round, propose);
        assert(local[i].validator >= 0);
        assert(at[i] < at[j]);
        assert(prevoted_at(all, at[i], v, round, propose));
    }
    lemma_int_range(0, n as int);
    assert(b.subset_of(set_int_range(0, n as int)));
    lemma_len_subset(b, set_int_range(0, n as int));
    lemma_len_subset(a, b);
}

/// A validator that keeps the rules of voting in its record, which lies in
/// the history, keeps them in the history.
pub proof fn lemma_rules_carry(local: Seq<Cast>, all: Seq<Cast>, at: Seq<int>, n: nat, me: int)
    requires
        keeps_rules(local, n, me),
        lies_in(local, all, at, me),
    ensures
        keeps_rules(all, n, me),
{
    assert(votes_once(all, me)) by {
        assert forall|i: int, j: int|
            0 <= i < all.len() && 0 <= j < all.len() && (#[trigger] all[i]).validator == me && (
            #[trigger] all[j]).validator == me && all[i].kind == all[j].kind && all[i].round
                == all[j].round implies all[i] == all[j] by {
            lemma_place(local, all, at, me, i);
            lemma_place(local, all, at, me, j);
            let a = place_of(local, at, me, i);
            let b = place_of(local, at, me, j);
            assert(local[a] == local[b]);
        }
    }
    assert(precommits_on_quorum(all, n, me)) by {
        assert forall|j: int|
            0 <= j < all.len() && (#[trigger] all[j]).validator == me && all[j].kind
                == crate::node::safety::VoteKind::Precommit implies prevote_quorum(
            all,
            n,
            j,
            all[j].round,
            all[j].propose,
        ) by {
            lemma_place(local, all, at, me, j);
            let b = place_of(local, at, me, j);
            assert(local[b].validator == me);
            lemma_quorum_carries(local, all, at, n, me, b, all[j].round, all[j].propose);
        }
    }
    assert(prevotes_under_lock(all, n, me)) by {
        assert forall|i: int, j: int|
            0 <= i < j < all.len() && (#[trigger] all[i]).validator == me && (
            #[trigger] all[j]).validator == me && all[i].kind
                == crate::node::safety::VoteKind::Precommit && all[j].kind
                == crate::node::safety::VoteKind::Prevote && all[i].round < all[j].round
                && all[i].propose != all[j].propose implies exists|round: int|
            all[i].round < round <= all[j].round && #[trigger] prevote_quorum(
                all,
                n,
                j,
                round,
                all[j].propose,
            ) by {
            lemma_place(local, all, at, me, i);
            lemma_place(local, all, at, me, j);
            lemma_places_in_order(local, all, at, me, i, j);
            let a = place_of(local, at, me, i);
            let b = place_of(local, at, me, j);
            assert(local[a].validator == me && local[b].validator == me);
            let round = choose|round: int|
                local[a].round < round <= local[b].round && #[trigger] prevote_quorum(
                    local,
                    n,
                    b,
                    round,
                    local[b].propose,
                );
            lemma_quorum_carries(local, all, at, n, me, b, round, all[j].propose);
        }
    }
    assert(precommits_in_time(all, me)) by {
        assert forall|i: int, j: int|
            0 <= i < j < all.len() && (#[trigger] all[i]).validator == me && (
            #[trigger] all[j]).validator == me && all[i].kind
                == crate::node::safety::VoteKind::Prevote && all[j].kind
                == crate::node::safety::VoteKind::Precommit && all[i].round
                > all[j].round implies all[i].propose == all[j].propose by {
            lemma_place(local, all, at, me, i);
            lemma_place(local, all, at, me, j);
            lemma_places_in_order(local, all, at, me, i, j);
            let a = place_of(local, at, me, i);
            let b = place_of(local, at, me, j);
            assert(local[a].validator == me && local[b].validator == me);
        }
    }
    assert(one_block(all, me)) by {
        assert forall|i: int, j: int|
            0 <= i < all.len() && 0 <= j < all.len() && (#[trigger] all[i]).validator == me && (
            #[trigger] all[j]).validator == me && all[i].kind
                == crate::node::safety::VoteKind::Precommit && all[j].kind
                == crate::node::safety::VoteKind::Precommit && all[i].propose
                == all[j].propose implies all[i].block == all[j].block by {
            lemma_place(local, all, at, me, i);
            lemma_place(local, all, at, me, j);
            let a = place_of(local, at, me, i);
            let b = place_of(local, at, me, j);
            assert(local[a].validator == me && local[b].validator == me);
        }
    }
}

/// The validators that precommitted something are validators, finitely
/// many.
pub proof fn lemma_precommitters_finite(
    log: Seq<Cast>,
    n: nat,
    round: int,
    propose: crypto::Hash,
    block: crypto::Hash,
)
    ensures
        precommitters(log, n, round, propose, block).subset_of(set_int_range(0, n as int)),
        precommitters(log, n, round, propose, block).finite(),
{
    lemma_int_range(0, n as int);
    lemma_len_subset(precommitters(log, n, round, propose, block), set_int_range(0, n as int));
}

/// A quorum of precommits in a record that lies in the history is a quorum
/// of precommits in the history.
pub proof fn lemma_commit_carries(
    local: Seq<Cast>,
    all: Seq<Cast>,
    at: Seq<int>,
    n: nat,
    me: int,
    round: int,
    propose: crypto::Hash,
    block: crypto::Hash,
)
    requires
        lies_in(local, all, at, me),
        precommit_quorum(local, n, round, propose, block),
    ensures
        precommit_quorum(all, n, round, propose, block),
{
    let a = precommitters(local, n, round, propose, block);
    let b = precommitters(all, n, round, propose, block);
    assert forall|v: int| a.contains(v) implies b.contains(v) by {
        let i = choose|i: int|
            precommitted_at(local, i, v, round, propose) && local[i].block == block;
        assert(local[i].validator >= 0);
        assert(precommitted_at(all, at[i], v, round, propose) && all[at[i]].block == block);
    }
    lemma_precommitters_finite(all, n, round, propose, block);
    lemma_len_subset(a, b);
}

/// Whether the handler `h` is that of the validator `v` among `n` at the
/// height `height`, in order.
pub open spec fn honest_at(h: HandlerView, v: int, n: nat, height: crate::helpers::Height) -> bool {
    &&& in_order(h)
    &&& h.state.is_validator()
    &&& index_of(h.state) == v
    &&& h.state.n() == n
    &&& h.state.height == height
}

/// A quorum of precommits that the node has seen is a quorum of the
/// record.
pub proof fn lemma_precommits_recorded(
    b: crate::node::rules::Ballots,
    log: Seq<Cast>,
    me: int,
    key: crate::node::votes::VoteKey,
)
    requires
        recorded(b, log, me),
        voters(b.seen_precommits, key).len() >= crate::node::votes::quorum(b.n),
    ensures
        precommit_quorum(log, b.n, key.round.0 as int, key.propose_hash, key.block_hash),
{
    let seen = voters(b.seen_precommits, key);
    let all = precommitters(log, b.n, key.round.0 as int, key.propose_hash, key.block_hash);
    assert forall|v: int| seen.contains(v) implies all.contains(v) by {
        let r = VoteRecord { validator: crate::helpers::ValidatorId(v as u16), key };
        let k = choose|k: int| 0 <= k < b.seen_precommits.len() && b.seen_precommits[k] == r;
        assert(b.seen_precommits[k].validator.0 < b.n);
        assert(log.contains(seen_precommit_cast(b.seen_precommits[k])));
        let i = choose|i: int|
            0 <= i < log.len() && log[i] == seen_precommit_cast(b.seen_precommits[k]);
        assert(precommitted_at(log, i, v, key.round.0 as int, key.propose_hash) && log[i].block
            == key.block_hash);
    }
    lemma_precommitters_finite(log, b.n, key.round.0 as int, key.propose_hash, key.block_hash);
    lemma_len_subset(seen, all);
}

/// What a quorum precommitted for a propose with a block is for that
/// propose and that block, and a quorum has precommitted it.
pub proof fn lemma_commit_key(s: StateView, hash: crypto::Hash, block_hash: crypto::Hash)
    requires
        s.commit_key(hash, block_hash) is Some,
    ensures
        s.commit_key(hash, block_hash)->0.propose_hash == hash,
        s.commit_key(hash, block_hash)->0.block_hash == block_hash,
        s.has_majority_precommits(s.commit_key(hash, block_hash)->0),
{
    let witness = choose|i: int| s.commits_at(hash, block_hash, i);
    assert(s.commits_at(hash, block_hash, witness));
    lemma_first_commit(s, hash, block_hash, witness);
    let first = first_commit(s, hash, block_hash);
    assert(s.commits_at(hash, block_hash, first));
    assert(s.commit_key(hash, block_hash) == Some(s.precommits.records[first].key));
}

/// The place of the first precommit that makes a quorum for the propose
/// `hash` with the block `block_hash`.
pub open spec fn first_commit(s: StateView, hash: crypto::Hash, block_hash: crypto::Hash) -> int {
    choose|i: int| #[trigger]
        s.commits_at(hash, block_hash, i) && forall|j: int|
            0 <= j < i ==> !s.commits_at(hash, block_hash, j)
}

/// A node that is about to commit has recorded a quorum of precommits:
/// where the handler of a validator is in order and holds a quorum of
/// precommits for a propose with a block, its record holds a quorum of
/// precommits for the propose with the block, in one round.
pub proof fn lemma_commit_recorded(h: HandlerView, hash: crypto::Hash, block_hash: crypto::Hash)
    requires
        in_order(h),
        h.state.is_validator(),
        h.state.commit_key(hash, block_hash) is Some,
    ensures
        precommit_quorum(
            log_of(h),
            h.state.n(),
            h.state.commit_key(hash, block_hash)->0.round.0 as int,
            hash,
            block_hash,
        ),
{
    lemma_commit_key(h.state, hash, block_hash);
    lemma_precommits_recorded(
        ballots(h.state),
        log_of(h),
        index_of(h.state),
        h.state.commit_key(hash, block_hash)->0,
    );
}

/// Among the precommits that make a quorum for a propose with a block
/// there is a first.
proof fn lemma_first_commit(s: StateView, hash: crypto::Hash, block_hash: crypto::Hash, i: int)
    requires
        s.commits_at(hash, block_hash, i),
    ensures
        s.commits_at(hash, block_hash, first_commit(s, hash, block_hash)),
    decreases i,
{
    if forall|j: int| 0 <= j < i ==> !s.commits_at(hash, block_hash, j) {
    } else {
        let j = choose|j: int| 0 <= j < i && s.commits_at(hash, block_hash, j);
        lemma_first_commit(s, hash, block_hash, j);
    }
}

/// Precommits that justify a block and are all in the history are a quorum
/// of precommits in the history.
pub proof fn lemma_justified_is_quorum(
    s: StateView,
    precommits: Seq<Signed<Precommit>>,
    block_hash: crypto::Hash,
    all: Seq<Cast>,
)
    requires
        s.justified(precommits, block_hash),
        forall|i: int|
            0 <= i < precommits.len() ==> all.contains(
                precommit_cast((#[trigger] precommits[i]).payload),
            ),
    ensures
        precommits.len() > 0,
        precommit_quorum(
            all,
            s.n(),
            precommits[0].payload.round.0 as int,
            precommits[0].payload.propose_hash,
            block_hash,
        ),
{
    let round = precommits[0].payload.round.0 as int;
    let propose = precommits[0].payload.propose_hash;
    let names = Seq::new(precommits.len(), |i: int| precommits[i].payload.validator.0 as int);
    assert(names.no_duplicates()) by {
        assert forall|i: int, j: int| 0 <= i < names.len() && 0 <= j < names.len() && i
            != j implies names[i] != names[j] by {
            if i < j {
                assert(precommits[i].payload.validator != precommits[j].payload.validator);
            } else {
                assert(precommits[j].payload.validator != precommits[i].payload.validator);
            }
        }
    }
    names.unique_seq_to_set();
    let voted = precommitters(all, s.n(), round, propose, block_hash);
    assert forall|v: int| names.to_set().contains(v) implies voted.contains(v) by {
        let i = choose|i: int| 0 <= i < names.len() && names[i] == v;
        let p = precommits[i];
        assert(all.contains(precommit_cast(p.payload)));
        let g = choose|g: int| 0 <= g < all.len() && all[g] == precommit_cast(p.payload);
        assert(precommitted_at(all, g, v, round, propose) && all[g].block == block_hash);
    }
    lemma_precommitters_finite(all, s.n(), round, propose, block_hash);
    lemma_len_subset(names.to_set(), voted);
}

/// Whether every validator among `nodes` outside `faulty` runs a handler
/// that is in order at the height `height`, with its record lying in the
/// history `all` at the places `places`, and `faulty` are fewer than a third
/// of the validators.
pub open spec fn honest_nodes(
    nodes: Seq<HandlerView>,
    places: Seq<Seq<int>>,
    all: Seq<Cast>,
    faulty: Set<int>,
    height: crate::helpers::Height,
) -> bool {
    &&& places.len() == nodes.len()
    &&& faulty.finite()
    &&& 3 * faulty.len() < nodes.len()
    &&& forall|v: int|
        0 <= v < nodes.len() && !faulty.contains(v) ==> honest_at(
            #[trigger] nodes[v],
            v,
            nodes.len(),
            height,
        ) && lies_in(log_of(nodes[v]), all, places[v], v)
}

/// Validators that run handlers in order keep the rules of voting in the
/// history of all votes.
pub proof fn lemma_honest_majority(
    nodes: Seq<HandlerView>,
    places: Seq<Seq<int>>,
    all: Seq<Cast>,
    faulty: Set<int>,
    height: crate::helpers::Height,
)
    requires
        honest_nodes(nodes, places, all, faulty, height),
    ensures
        crate::node::safety::honest_majority(all, nodes.len(), faulty),
{
    let n = nodes.len();
    assert forall|v: int| 0 <= v < n && !faulty.contains(v) implies keeps_rules(all, n, v) by {
        assert(honest_at(nodes[v], v, n, height));
        lemma_rules_carry(log_of(nodes[v]), all, places[v], n, v);
    }
}

/// Agreement of the nodes. Let `all` be the votes that the validators have
/// cast at a height, in order, and let fewer than a third of the validators
/// be faulty. Let every other validator run a handler that is in order at
/// that height, and let its record lie in `all`. Then any two of these nodes that each hold a
/// quorum of precommits for a propose with a block hold them for the same
/// propose with the same block: no two of them commit different blocks at the
/// height.
pub proof fn lemma_nodes_agree(
    nodes: Seq<HandlerView>,
    places: Seq<Seq<int>>,
    all: Seq<Cast>,
    faulty: Set<int>,
    height: crate::helpers::Height,
    a: int,
    b: int,
    propose1: crypto::Hash,
    block1: crypto::Hash,
    propose2: crypto::Hash,
    block2: crypto::Hash,
)
    requires
        honest_nodes(nodes, places, all, faulty, height),
        0 <= a < nodes.len() && !faulty.contains(a),
        0 <= b < nodes.len() && !faulty.contains(b),
        nodes[a].state.commit_key(propose1, block1) is Some,
        nodes[b].state.commit_key(propose2, block2) is Some,
    ensures
        propose1 == propose2,
        block1 == block2,
{
    let n = nodes.len();
    lemma_honest_majority(nodes, places, all, faulty, height);
    assert(honest_at(nodes[a], a, n, height));
    assert(honest_at(nodes[b], b, n, height));
    lemma_commit_recorded(nodes[a], propose1, block1);
    lemma_commit_recorded(nodes[b], propose2, block2);
    let round1 = nodes[a].state.commit_key(propose1, block1)->0.round.0 as int;
    let round2 = nodes[b].state.commit_key(propose2, block2)->0.round.0 as int;
    lemma_commit_carries(log_of(nodes[a]), all, places[a], n, a, round1, propose1, block1);
    lemma_commit_carries(log_of(nodes[b]), all, places[b], n, b, round2, propose2, block2);
    lemma_agreement(all, n, faulty, round1, propose1, block1, round2, propose2, block2);
}

/// Agreement with a block that comes from a peer. Under the same
/// conditions, precommits that justify a block to some node, and that are all
/// in the history, are for the propose and the block for which any of the
/// honest nodes holds a quorum of precommits: a node that catches up commits
/// no other block than the others.
pub proof fn lemma_block_agrees(
    nodes: Seq<HandlerView>,
    places: Seq<Seq<int>>,
    all: Seq<Cast>,
    faulty: Set<int>,
    height: crate::helpers::Height,
    a: int,
    propose: crypto::Hash,
    block: crypto::Hash,
    s: StateView,
    precommits: Seq<Signed<Precommit>>,
    block_hash: crypto::Hash,
)
    requires
        honest_nodes(nodes, places, all, faulty, height),
        0 <= a < nodes.len() && !faulty.contains(a),
        nodes[a].state.commit_key(propose, block) is Some,
        s.n() == nodes.len(),
        s.justified(precommits, block_hash),
        forall|i: int|
            0 <= i < precommits.len() ==> all.contains(
                precommit_cast((#[trigger] precommits[i]).payload),
            ),
    ensures
        block_hash == block,
        precommits[0].payload.propose_hash == propose,
{
    let n = nodes.len();
    lemma_honest_majority(nodes, places, all, faulty, height);
    assert(honest_at(nodes[a], a, n, height));
    lemma_commit_recorded(nodes[a], propose, block);
    let round1 = nodes[a].state.commit_key(propose, block)->0.round.0 as int;
    lemma_commit_carries(log_of(nodes[a]), all, places[a], n, a, round1, propose, block);
    lemma_justified_is_quorum(s, precommits, block_hash, all);
    lemma_agreement(
        all,
        n,
        faulty,
        round1,
        propose,
        block,
        precommits[0].payload.round.0 as int,
        precommits[0].payload.propose_hash,
        block_hash,
    );
}

} // verus!
