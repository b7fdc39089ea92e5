//! The vote accumulator: which validator voted for what, without repeats,
//! and when a subject has reached a quorum.

use vstd::prelude::*;
use vstd::set_lib::{lemma_int_range, lemma_len_subset, lemma_set_intersect_union_lens, set_int_range};
use crate::crypto;
use crate::helpers::{Round, ValidatorId};
use crate::messages::Signed;

verus! {

/// The number of validators that makes a quorum among `n`: more than two
/// thirds of them.
pub open spec fn quorum(n: nat) -> nat {
    2 * n / 3 + 1
}

/// The number of validators that makes a quorum among `n`.
pub fn quorum_size(n: usize) -> (q: u64)
    requires
        n <= 0x1_0000,
    ensures
        q == quorum(n as nat),
{
    2 * (n as u64) / 3 + 1
}

/// What a vote is for: a propose in a round, together with the block that
/// executing it gave. A prevote names no block: its `block_hash` is all
/// zero.
#[derive(Clone, Copy, Debug, PartialEq, Eq, Structural)]
pub struct VoteKey {
    /// Round of the vote.
    pub round: Round,
    /// Hash of the propose.
    pub propose_hash: crypto::Hash,
    /// Hash of the block; all zero in a prevote.
    pub block_hash: crypto::Hash,
}

/// One vote: a validator and what it voted for.
#[derive(Clone, Copy, Debug, PartialEq, Eq, Structural)]
pub struct VoteRecord {
    /// Index of the voter.
    pub validator: ValidatorId,
    /// What the vote is for.
    pub key: VoteKey,
}

/// The validators, by index, that `records` holds a vote of for `key`.
pub open spec fn voters(records: Seq<VoteRecord>, key: VoteKey) -> Set<int> {
    Set::new(
        |v: int|
            0 <= v <= u16::MAX && records.contains(
                VoteRecord { validator: ValidatorId(v as u16), key },
            ),
    )
}

/// The number of votes for `key` in `records`, repeats counted.
pub open spec fn count_for(records: Seq<VoteRecord>, key: VoteKey) -> nat
    decreases records.len(),
{
    if records.len() == 0 {
        0
    } else {
        count_for(records.drop_last(), key) + if records.last().key == key {
            1nat
        } else {
            0nat
        }
    }
}

/// Without repeats, the number of votes for a key is the number of its
/// voters.
pub proof fn lemma_count_is_voters(records: Seq<VoteRecord>, key: VoteKey)
    requires
        records.no_duplicates(),
    ensures
        voters(records, key).finite(),
        voters(records, key).len() == count_for(records, key),
    decreases records.len(),
{
    if records.len() == 0 {
        assert(voters(records, key) =~= Set::<int>::empty());
    } else {
        let rest = records.drop_last();
        let last = records.last();
        lemma_count_is_voters(rest, key);
        assert forall|r: VoteRecord| records.contains(r) <==> (rest.contains(r) || r == last) by {
            if records.contains(r) {
                let i = choose|i: int| 0 <= i < records.len() && records[i] == r;
                if i < rest.len() {
                    assert(rest[i] == r);
                }
            }
            if rest.contains(r) {
                let i = choose|i: int| 0 <= i < rest.len() && rest[i] == r;
                assert(records[i] == r);
            }
            if r == last {
                assert(records[records.len() - 1] == r);
            }
        }
        if last.key == key {
            let v = last.validator.0 as int;
            assert(!rest.contains(last)) by {
                if rest.contains(last) {
                    let i = choose|i: int| 0 <= i < rest.len() && rest[i] == last;
                    assert(records[i] == records[records.len() - 1]);
                }
            }
            assert(VoteRecord { validator: ValidatorId(v as u16), key } == last);
            assert(voters(records, key) =~= voters(rest, key).insert(v));
            assert(!voters(rest, key).contains(v));
        } else {
            assert(voters(records, key) =~= voters(rest, key));
        }
    }
}

/// Where votes for a key are counted, one is held.
pub proof fn lemma_count_positive(records: Seq<VoteRecord>, key: VoteKey)
    requires
        count_for(records, key) > 0,
    ensures
        exists|i: int| 0 <= i < records.len() && (#[trigger] records[i]).key == key,
    decreases records.len(),
{
    if records.len() > 0 {
        if records.last().key == key {
            assert(records[records.len() - 1].key == key);
        } else {
            lemma_count_positive(records.drop_last(), key);
            let i = choose|i: int|
                0 <= i < records.drop_last().len() && (#[trigger] records.drop_last()[i]).key == key;
            assert(records[i].key == key);
        }
    }
}

/// Two quorums among `n` validators share more than a third of them.
pub proof fn lemma_quorums_intersect(n: nat, a: Set<int>, b: Set<int>)
    requires
        a.subset_of(set_int_range(0, n as int)),
        b.subset_of(set_int_range(0, n as int)),
        a.len() >= quorum(n),
        b.len() >= quorum(n),
    ensures
        a.intersect(b).finite(),
        3 * a.intersect(b).len() > n,
{
    lemma_int_range(0, n as int);
    lemma_len_subset(a, set_int_range(0, n as int));
    lemma_len_subset(b, set_int_range(0, n as int));
    lemma_set_intersect_union_lens(a, b);
    assert((a + b).subset_of(set_int_range(0, n as int)));
    lemma_len_subset(a + b, set_int_range(0, n as int));
    lemma_len_subset(a.intersect(b), a);
}

/// Two quorums among `n` validators share a validator outside any set of
/// fewer than a third of them.
pub proof fn lemma_quorums_share_honest(n: nat, a: Set<int>, b: Set<int>, faulty: Set<int>)
    requires
        a.subset_of(set_int_range(0, n as int)),
        b.subset_of(set_int_range(0, n as int)),
        a.len() >= quorum(n),
        b.len() >= quorum(n),
        faulty.finite(),
        3 * faulty.len() < n,
    ensures
        exists|v: int| a.contains(v) && b.contains(v) && !faulty.contains(v),
{
    lemma_quorums_intersect(n, a, b);
    let common = a.intersect(b);
    if forall|v: int| !(a.contains(v) && b.contains(v) && !faulty.contains(v)) {
        assert(common.subset_of(faulty));
        lemma_len_subset(common, faulty);
    }
}

/// Votes of one kind for one height, each validator at most once for each
/// subject, with the signed message of every vote.
#[derive(Debug)]
pub struct Votes<T> {
    /// The votes, in the order in which they came.
    pub records: Vec<VoteRecord>,
    /// The message of each vote, position by position.
    pub messages: Vec<Signed<T>>,
}

/// An accumulator, as a mathematical value.
pub struct VotesView<T> {
    /// The votes, in the order in which they came.
    pub records: Seq<VoteRecord>,
    /// The message of each vote, position by position.
    pub messages: Seq<Signed<T>>,
}

impl<T> View for Votes<T> {
    type V = VotesView<T>;

    open spec fn view(&self) -> VotesView<T> {
        VotesView { records: self.records@, messages: self.messages@ }
    }
}

impl<T> VotesView<T> {
    /// The invariant of the accumulator: no vote is held twice, and every
    /// vote has its message.
    pub open spec fn wf(self) -> bool {
        &&& self.records.no_duplicates()
        &&& self.records.len() == self.messages.len()
    }

    /// The number of validators that voted for `key`.
    pub open spec fn votes_for(self, key: VoteKey) -> nat {
        voters(self.records, key).len()
    }

    /// Whether the vote of `validator` for `key` is held.
    pub open spec fn has(self, validator: ValidatorId, key: VoteKey) -> bool {
        self.records.contains(VoteRecord { validator, key })
    }

    /// The accumulator after the vote of `validator` for `key` came, with
    /// its message.
    pub open spec fn add(self, validator: ValidatorId, key: VoteKey, message: Signed<T>) -> Self {
        if self.has(validator, key) {
            self
        } else {
            VotesView {
                records: self.records.push(VoteRecord { validator, key }),
                messages: self.messages.push(message),
            }
        }
    }

    /// The messages of the votes for `key`, in the order in which they came.
    pub open spec fn messages_for(self, key: VoteKey) -> Seq<Signed<T>>
        decreases self.records.len(),
    {
        if self.records.len() == 0 || self.messages.len() != self.records.len() {
            Seq::empty()
        } else {
            let rest = (VotesView {
                records: self.records.drop_last(),
                messages: self.messages.drop_last(),
            }).messages_for(key);
            if self.records.last().key == key {
                rest.push(self.messages.last())
            } else {
                rest
            }
        }
    }

    /// The subject of the first vote of a round after `round` whose subject
    /// at least `quorum` validators voted for.
    pub open spec fn quorum_after(self, round: Round, quorum: nat) -> Option<VoteKey> {
        if exists|i: int| self.reaches_after(round, quorum, i) {
            let first = choose|i: int|
                self.reaches_after(round, quorum, i) && forall|j: int|
                    0 <= j < i ==> !self.reaches_after(round, quorum, j);
            Some(self.records[first].key)
        } else {
            None
        }
    }

    /// Whether the vote at `i` is of the round `round` and for a subject that
    /// at least `quorum` validators voted for.
    pub open spec fn reaches_at(self, round: Round, quorum: nat, i: int) -> bool {
        &&& 0 <= i < self.records.len()
        &&& self.records[i].key.round == round
        &&& self.votes_for(self.records[i].key) >= quorum
    }

    /// The subject of the first vote of the round `round` whose subject at
    /// least `quorum` validators voted for.
    pub open spec fn quorum_at(self, round: Round, quorum: nat) -> Option<VoteKey> {
        if exists|i: int| self.reaches_at(round, quorum, i) {
            let first = choose|i: int|
                self.reaches_at(round, quorum, i) && forall|j: int|
                    0 <= j < i ==> !self.reaches_at(round, quorum, j);
            Some(self.records[first].key)
        } else {
            None
        }
    }

    /// Whether the vote at `i` is of a round after `round` and for a subject
    /// that at least `quorum` validators voted for.
    pub open spec fn reaches_after(self, round: Round, quorum: nat, i: int) -> bool {
        &&& 0 <= i < self.records.len()
        &&& self.records[i].key.round.0 > round.0
        &&& self.votes_for(self.records[i].key) >= quorum
    }
}

/// What adding a vote did.
#[derive(Clone, Copy, Debug, PartialEq, Eq, Structural)]
pub enum VoteOutcome {
    /// The accumulator held the vote already; nothing changed.
    Duplicate,
    /// The vote was added; its subject has this many votes now.
    Added(u64),
}

impl<T> Votes<T> {
    /// The invariant of the accumulator.
    pub open spec fn wf(&self) -> bool {
        self@.wf()
    }

    /// The number of validators that voted for `key`.
    pub open spec fn votes_for(&self, key: VoteKey) -> nat {
        self@.votes_for(key)
    }

    /// An empty accumulator.
    pub fn new() -> (v: Self)
        ensures
            v.wf(),
            v.records@.len() == 0,
            v.messages@.len() == 0,
    {
        Votes { records: Vec::new(), messages: Vec::new() }
    }

    /// Whether the accumulator holds the vote `record`.
    pub fn contains(&self, record: &VoteRecord) -> (b: bool)
        ensures
            b == self.records@.contains(*record),
    {
        let mut i: usize = 0;
        while i < self.records.len()
            invariant
                i <= self.records.len(),
                forall|j: int| 0 <= j < i ==> self.records@[j] != *record,
            decreases self.records.len() - i,
        {
            if self.records[i] == *record {
                return true;
            }
            i = i + 1;
        }
        false
    }

    /// The number of validators that voted for `key`.
    pub fn count(&self, key: &VoteKey) -> (n: u64)
        requires
            self.wf(),
        ensures
            n == self.votes_for(*key),
    {
        let mut n: u64 = 0;
        let mut i: usize = 0;
        while i < self.records.len()
            invariant
                i <= self.records.len(),
                n <= i,
                n == count_for(self.records@.subrange(0, i as int), *key),
            decreases self.records.len() - i,
        {
            proof {
                assert(self.records@.subrange(0, i + 1).drop_last() =~= self.records@.subrange(
                    0,
                    i as int,
                ));
            }
            if self.records[i].key == *key {
                n = n + 1;
            }
            i = i + 1;
        }
        proof {
            assert(self.records@.subrange(0, i as int) =~= self.records@);
            lemma_count_is_voters(self.records@, *key);
        }
        n
    }

    /// Adds the vote of `validator` for `key`, with its message, unless the
    /// accumulator holds that vote already.
    pub fn add(&mut self, validator: ValidatorId, key: VoteKey, message: Signed<T>) -> (outcome:
        VoteOutcome)
        requires
            old(self).wf(),
        ensures
            final(self).wf(),
            final(self)@ == old(self)@.add(validator, key, message),
            outcome == if old(self)@.has(validator, key) {
                VoteOutcome::Duplicate
            } else {
                VoteOutcome::Added(final(self).votes_for(key) as u64)
            },
            !old(self)@.has(validator, key) ==> final(self).votes_for(key) == old(self).votes_for(
                key,
            ) + 1,
            forall|other: VoteKey|
                other != key ==> final(self).votes_for(other) == old(self).votes_for(other),
    {
        let record = VoteRecord { validator, key };
        if self.contains(&record) {
            return VoteOutcome::Duplicate;
        }
        let ghost before = self.records@;
        self.records.push(record);
        self.messages.push(message);
        proof {
            let after = self.records@;
            assert(after.drop_last() =~= before);
            assert forall|i: int, j: int| 0 <= i < after.len() && 0 <= j < after.len() && i
                != j implies after[i] != after[j] by {
                if i == before.len() {
                    assert(before[j] == after[j]);
                } else if j == before.len() {
                    assert(before[i] == after[i]);
                } else {
                    assert(before[i] == after[i]);
                    assert(before[j] == after[j]);
                }
            }
            lemma_count_is_voters(before, key);
            lemma_count_is_voters(after, key);
            assert forall|other: VoteKey| other != key implies voters(after, other).len()
                == voters(before, other).len() by {
                lemma_count_is_voters(before, other);
                lemma_count_is_voters(after, other);
            }
        }
        let n = self.count(&key);
        VoteOutcome::Added(n)
    }

    /// Whether at least `quorum` validators voted for `key`.
    pub fn has_quorum(&self, key: &VoteKey, quorum: u64) -> (b: bool)
        requires
            self.wf(),
        ensures
            b == (self.votes_for(*key) >= quorum),
    {
        self.count(key) >= quorum
    }

    /// The subject of the first vote of the round `round` whose subject at
    /// least `quorum` validators voted for.
    pub fn quorum_at(&self, round: Round, quorum: u64) -> (r: Option<VoteKey>)
        requires
            self.wf(),
        ensures
            r == self@.quorum_at(round, quorum as nat),
    {
        let mut i: usize = 0;
        while i < self.records.len()
            invariant
                i <= self.records.len(),
                self.wf(),
                forall|j: int| 0 <= j < i ==> !self@.reaches_at(round, quorum as nat, j),
            decreases self.records.len() - i,
        {
            let key = self.records[i].key;
            if key.round == round && self.count(&key) >= quorum {
                proof {
                    assert(self@.reaches_at(round, quorum as nat, i as int));
                    let first = choose|k: int|
                        self@.reaches_at(round, quorum as nat, k) && forall|j: int|
                            0 <= j < k ==> !self@.reaches_at(round, quorum as nat, j);
                    if first < i {
                        assert(!self@.reaches_at(round, quorum as nat, first));
                    } else if first > i {
                        assert(!self@.reaches_at(round, quorum as nat, i as int));
                    }
                }
                return Some(key);
            }
            i = i + 1;
        }
        None
    }

    /// The subject of the first vote of a round after `round` whose subject
    /// at least `quorum` validators voted for.
    pub fn quorum_after(&self, round: Round, quorum: u64) -> (r: Option<VoteKey>)
        requires
            self.wf(),
        ensures
            r == self@.quorum_after(round, quorum as nat),
    {
        let mut i: usize = 0;
        while i < self.records.len()
            invariant
                i <= self.records.len(),
                self.wf(),
                forall|j: int| 0 <= j < i ==> !self@.reaches_after(round, quorum as nat, j),
            decreases self.records.len() - i,
        {
            let key = self.records[i].key;
            if key.round.0 > round.0 && self.count(&key) >= quorum {
                proof {
                    assert(self@.reaches_after(round, quorum as nat, i as int));
                    let first = choose|k: int|
                        self@.reaches_after(round, quorum as nat, k) && forall|j: int|
                            0 <= j < k ==> !self@.reaches_after(round, quorum as nat, j);
                    if first < i {
                        assert(!self@.reaches_after(round, quorum as nat, first));
                    } else if first > i {
                        assert(!self@.reaches_after(round, quorum as nat, i as int));
                    }
                }
                return Some(key);
            }
            i = i + 1;
        }
        None
    }
}

impl<T: Copy> Votes<T> {
    /// The messages of the votes for `key`, in the order in which they came.
    pub fn messages_for(&self, key: &VoteKey) -> (v: Vec<Signed<T>>)
        requires
            self.wf(),
        ensures
            v@ == self@.messages_for(*key),
    {
        let mut v: Vec<Signed<T>> = Vec::new();
        let mut i: usize = 0;
        while i < self.records.len()
            invariant
                i <= self.records.len(),
                self.wf(),
                v@ == (VotesView {
                    records: self.records@.subrange(0, i as int),
                    messages: self.messages@.subrange(0, i as int),
                }).messages_for(*key),
            decreases self.records.len() - i,
        {
            proof {
                assert(self.records@.subrange(0, i + 1).drop_last() =~= self.records@.subrange(
                    0,
                    i as int,
                ));
                assert(self.messages@.subrange(0, i + 1).drop_last() =~= self.messages@.subrange(
                    0,
                    i as int,
                ));
            }
            if self.records[i].key == *key {
                v.push(self.messages[i]);
            }
            i = i + 1;
        }
        proof {
            assert(self.records@.subrange(0, i as int) =~= self.records@);
            assert(self.messages@.subrange(0, i as int) =~= self.messages@);
        }
        v
    }
}

} // verus!
