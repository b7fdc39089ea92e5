//! The pool of transactions that wait for a block.

use vstd::prelude::*;
use crate::crypto;
use crate::messages::{transactions_view, RawTransaction, Signed, SignedView, TxView};

verus! {

/// Transactions that are known and not yet in a block, each hash once, held
/// in ascending order of hash so that every node walks them alike.
#[derive(Debug)]
pub struct TransactionPool {
    /// The transactions, in strictly ascending order of hash.
    pub txs: Vec<Signed<RawTransaction>>,
}

/// The hashes of `txs` ascend strictly.
pub open spec fn ascending(txs: Seq<Signed<RawTransaction>>) -> bool {
    forall|i: int, j: int| 0 <= i < j < txs.len() ==> (#[trigger] txs[i]).hash.spec_lt(
        (#[trigger] txs[j]).hash,
    )
}

/// Some transaction of `txs` has the hash `hash`.
pub open spec fn holds(txs: Seq<Signed<RawTransaction>>, hash: crypto::Hash) -> bool {
    exists|i: int| 0 <= i < txs.len() && (#[trigger] txs[i]).hash == hash
}

/// The hashes of `txs`, in order.
pub open spec fn hashes_of(txs: Seq<Signed<RawTransaction>>) -> Seq<crypto::Hash> {
    txs.map_values(|t: Signed<RawTransaction>| t.hash)
}

/// Some transaction of the pool `pool` has the hash `hash`.
pub open spec fn pool_has(pool: Seq<SignedView<TxView>>, hash: crypto::Hash) -> bool {
    exists|i: int| 0 <= i < pool.len() && (#[trigger] pool[i]).hash == hash
}

/// Place of a transaction with the hash `hash` in the pool `pool`.
pub open spec fn pool_index(pool: Seq<SignedView<TxView>>, hash: crypto::Hash) -> int {
    choose|i: int| 0 <= i < pool.len() && (#[trigger] pool[i]).hash == hash
}

/// The hashes of the pool `pool` ascend strictly.
pub open spec fn pool_ascending(pool: Seq<SignedView<TxView>>) -> bool {
    forall|i: int, j: int| 0 <= i < j < pool.len() ==> (#[trigger] pool[i]).hash.spec_lt(
        (#[trigger] pool[j]).hash,
    )
}

/// Whether `at` is the place in the pool `pool` before which every hash
/// comes before `hash`, and from which on none does.
pub open spec fn is_rank(pool: Seq<SignedView<TxView>>, hash: crypto::Hash, at: int) -> bool {
    &&& 0 <= at <= pool.len()
    &&& forall|j: int| 0 <= j < at ==> (#[trigger] pool[j]).hash.spec_lt(hash)
    &&& forall|j: int| at <= j < pool.len() ==> !(#[trigger] pool[j]).hash.spec_lt(hash)
}

/// The place in the pool `pool` at which a transaction with the hash `hash`
/// belongs.
pub open spec fn pool_rank(pool: Seq<SignedView<TxView>>, hash: crypto::Hash) -> int {
    choose|at: int| is_rank(pool, hash, at)
}

/// The pool `pool` after the transaction `tx` came: it is put where its hash
/// belongs, unless the pool has a transaction with that hash.
pub open spec fn pool_with(pool: Seq<SignedView<TxView>>, tx: SignedView<TxView>) -> Seq<
    SignedView<TxView>,
> {
    if pool_has(pool, tx.hash) {
        pool
    } else {
        pool.insert(pool_rank(pool, tx.hash), tx)
    }
}

/// The pool `pool` without the transaction with the hash `hash`.
pub open spec fn pool_without(pool: Seq<SignedView<TxView>>, hash: crypto::Hash) -> Seq<
    SignedView<TxView>,
> {
    if pool_has(pool, hash) {
        pool.remove(pool_index(pool, hash))
    } else {
        pool
    }
}

/// The pool `pool` without the transactions with the hashes `hashes`.
pub open spec fn pool_without_all(pool: Seq<SignedView<TxView>>, hashes: Seq<crypto::Hash>) -> Seq<
    SignedView<TxView>,
>
    decreases hashes.len(),
{
    if hashes.len() == 0 {
        pool
    } else {
        pool_without(pool_without_all(pool, hashes.drop_last()), hashes.last())
    }
}

/// The transactions of the pool `pool` with the hashes `hashes`, in the
/// order of `hashes`; a hash that the pool lacks, or that came before in
/// `hashes`, is passed over.
pub open spec fn pool_taken(pool: Seq<SignedView<TxView>>, hashes: Seq<crypto::Hash>) -> Seq<
    SignedView<TxView>,
>
    decreases hashes.len(),
{
    if hashes.len() == 0 {
        Seq::empty()
    } else {
        let left = pool_without_all(pool, hashes.drop_last());
        let before = pool_taken(pool, hashes.drop_last());
        if pool_has(left, hashes.last()) {
            before.push(left[pool_index(left, hashes.last())])
        } else {
            before
        }
    }
}

/// In an ascending pool only one place is the rank of a hash.
pub proof fn lemma_rank_unique(pool: Seq<SignedView<TxView>>, hash: crypto::Hash, a: int, b: int)
    requires
        is_rank(pool, hash, a),
        is_rank(pool, hash, b),
    ensures
        a == b,
{
    if a < b {
        assert(pool[a].hash.spec_lt(hash));
    } else if b < a {
        assert(pool[b].hash.spec_lt(hash));
    }
}

/// In an ascending pool only one place holds a hash.
pub proof fn lemma_index_unique(pool: Seq<SignedView<TxView>>, hash: crypto::Hash, a: int)
    requires
        pool_ascending(pool),
        0 <= a < pool.len(),
        pool[a].hash == hash,
    ensures
        pool_index(pool, hash) == a,
        pool_has(pool, hash),
{
    let b = pool_index(pool, hash);
    if a < b {
        assert(pool[a].hash.spec_lt(pool[b].hash));
    } else if b < a {
        assert(pool[b].hash.spec_lt(pool[a].hash));
    }
}

/// Taking transactions out of an ascending pool leaves it ascending, and
/// leaves exactly the transactions whose hash was not named.
pub proof fn lemma_pool_without_all(pool: Seq<SignedView<TxView>>, hashes: Seq<crypto::Hash>)
    requires
        pool_ascending(pool),
    ensures
        pool_ascending(pool_without_all(pool, hashes)),
        forall|h: crypto::Hash|
            pool_has(pool_without_all(pool, hashes), h) <==> (pool_has(pool, h)
                && !hashes.contains(h)),
    decreases hashes.len(),
{
    if hashes.len() > 0 {
        let rest = hashes.drop_last();
        let last = hashes.last();
        lemma_pool_without_all(pool, rest);
        let left = pool_without_all(pool, rest);
        let out = pool_without(left, last);
        assert forall|h: crypto::Hash| hashes.contains(h) <==> (rest.contains(h) || h == last) by {
            if hashes.contains(h) {
                let i = choose|i: int| 0 <= i < hashes.len() && hashes[i] == h;
                if i < rest.len() {
                    assert(rest[i] == h);
                }
            }
            if rest.contains(h) {
                let i = choose|i: int| 0 <= i < rest.len() && rest[i] == h;
                assert(hashes[i] == h);
            }
            if h == last {
                assert(hashes[hashes.len() - 1] == h);
            }
        }
        if pool_has(left, last) {
            let at = pool_index(left, last);
            assert forall|i: int, j: int| 0 <= i < j < out.len() implies (
            #[trigger] out[i]).hash.spec_lt((#[trigger] out[j]).hash) by {
                let bi = if i < at { i } else { i + 1 };
                let bj = if j < at { j } else { j + 1 };
                assert(out[i] == left[bi]);
                assert(out[j] == left[bj]);
            }
            assert forall|h: crypto::Hash| pool_has(out, h) <==> (pool_has(left, h) && h
                != last) by {
                if pool_has(out, h) {
                    let i = pool_index(out, h);
                    let bi = if i < at { i } else { i + 1 };
                    assert(left[bi].hash == h);
                    if bi < at {
                        assert(left[bi].hash.spec_lt(left[at].hash));
                    } else {
                        assert(left[at].hash.spec_lt(left[bi].hash));
                    }
                }
                if pool_has(left, h) && h != last {
                    let i = pool_index(left, h);
                    if i < at {
                        assert(out[i].hash == h);
                    } else {
                        assert(out[i - 1].hash == h);
                    }
                }
            }
        }
    }
}

/// The hashes of the pool `pool`, in order.
pub open spec fn pool_hashes(pool: Seq<SignedView<TxView>>) -> Seq<crypto::Hash> {
    pool.map_values(|t: SignedView<TxView>| t.hash)
}

/// The `limit` least hashes of the pool `pool`, or all where it holds fewer.
pub open spec fn pool_first(pool: Seq<SignedView<TxView>>, limit: nat) -> Seq<crypto::Hash> {
    pool_hashes(pool).take(if limit <= pool.len() { limit as int } else { pool.len() as int })
}

/// Of two different hashes one comes before the other, and never both.
pub proof fn lemma_lt_total(a: crypto::Hash, b: crypto::Hash)
    ensures
        a == b || a.spec_lt(b) || b.spec_lt(a),
        !(a.spec_lt(b) && b.spec_lt(a)),
        !a.spec_lt(a),
{
}

impl View for TransactionPool {
    type V = Seq<SignedView<TxView>>;

    open spec fn view(&self) -> Seq<SignedView<TxView>> {
        transactions_view(self.txs@)
    }
}

/// What is said of a list of transactions holds of its view, and the other
/// way round.
pub proof fn lemma_pool_view(txs: Seq<Signed<RawTransaction>>)
    ensures
        ascending(txs) == pool_ascending(transactions_view(txs)),
        forall|h: crypto::Hash| holds(txs, h) == pool_has(transactions_view(txs), h),
{
    let pool = transactions_view(txs);
    if ascending(txs) {
        assert forall|i: int, j: int| 0 <= i < j < pool.len() implies (
        #[trigger] pool[i]).hash.spec_lt((#[trigger] pool[j]).hash) by {
            assert(txs[i].hash.spec_lt(txs[j].hash));
        }
    }
    if pool_ascending(pool) {
        assert forall|i: int, j: int| 0 <= i < j < txs.len() implies (#[trigger] txs[i]).hash.spec_lt(
            (#[trigger] txs[j]).hash,
        ) by {
            assert(pool[i].hash.spec_lt(pool[j].hash));
        }
    }
    assert forall|h: crypto::Hash| holds(txs, h) == pool_has(pool, h) by {
        if holds(txs, h) {
            let i = choose|i: int| 0 <= i < txs.len() && (#[trigger] txs[i]).hash == h;
            assert(pool[i].hash == h);
        }
        if pool_has(pool, h) {
            let i = pool_index(pool, h);
            assert(txs[i].hash == h);
        }
    }
}

impl TransactionPool {
    /// The invariant of the pool: hashes ascend strictly, so none is twice.
    pub open spec fn wf(&self) -> bool {
        ascending(self.txs@)
    }

    /// Whether the pool holds a transaction with the hash `hash`.
    pub open spec fn has(&self, hash: crypto::Hash) -> bool {
        holds(self.txs@, hash)
    }

    /// An empty pool.
    pub fn new() -> (p: Self)
        ensures
            p.txs@ == Seq::<Signed<RawTransaction>>::empty(),
            p.wf(),
    {
        TransactionPool { txs: Vec::new() }
    }

    /// Number of transactions in the pool.
    pub fn len(&self) -> (n: usize)
        ensures
            n == self.txs@.len(),
    {
        self.txs.len()
    }

    /// Index of the first transaction whose hash is not before `hash`.
    fn lower_bound(&self, hash: &crypto::Hash) -> (i: usize)
        requires
            self.wf(),
        ensures
            i <= self.txs.len(),
            forall|j: int| 0 <= j < i ==> (#[trigger] self.txs[j]).hash.spec_lt(*hash),
            forall|j: int| i <= j < self.txs.len() ==> !(#[trigger] self.txs[j]).hash.spec_lt(*hash),
    {
        let mut i: usize = 0;
        while i < self.txs.len()
            invariant
                i <= self.txs.len(),
                self.wf(),
                forall|j: int| 0 <= j < i ==> (#[trigger] self.txs[j]).hash.spec_lt(*hash),
            decreases self.txs.len() - i,
        {
            if !self.txs[i].hash.lt(hash) {
                proof {
                    assert forall|j: int| i <= j < self.txs.len() implies !(
                    #[trigger] self.txs[j]).hash.spec_lt(*hash) by {
                        if j > i {
                            assert(self.txs[i as int].hash.spec_lt(self.txs[j].hash));
                        }
                    }
                }
                return i;
            }
            i = i + 1;
        }
        i
    }

    /// Index of the transaction with the hash `hash`.
    pub fn position(&self, hash: &crypto::Hash) -> (r: Option<usize>)
        requires
            self.wf(),
        ensures
            match r {
                Some(i) => i < self.txs.len() && self.txs[i as int].hash == *hash,
                None => !self.has(*hash),
            },
    {
        let i = self.lower_bound(hash);
        if i < self.txs.len() && self.txs[i].hash == *hash {
            Some(i)
        } else {
            proof {
                if self.has(*hash) {
                    let j = choose|j: int| 0 <= j < self.txs.len() && (#[trigger] self.txs[j]).hash
                        == *hash;
                    if j > i {
                        assert(self.txs[i as int].hash.spec_lt(self.txs[j].hash));
                    }
                }
            }
            None
        }
    }

    /// Whether the pool holds a transaction with the hash `hash`.
    pub fn contains(&self, hash: &crypto::Hash) -> (b: bool)
        requires
            self.wf(),
        ensures
            b == self.has(*hash),
    {
        self.position(hash).is_some()
    }

    /// The transaction with the hash `hash`.
    pub fn get(&self, hash: &crypto::Hash) -> (r: Option<&Signed<RawTransaction>>)
        requires
            self.wf(),
        ensures
            r is Some <==> self.has(*hash),
            r matches Some(t) ==> t.hash == *hash && self.txs@.contains(*t),
    {
        match self.position(hash) {
            Some(i) => Some(&self.txs[i]),
            None => None,
        }
    }

    /// Adds `tx` unless a transaction with its hash is in the pool already.
    /// Returns whether it was added.
    pub fn insert(&mut self, tx: Signed<RawTransaction>) -> (added: bool)
        requires
            old(self).wf(),
        ensures
            final(self).wf(),
            added == !old(self).has(tx.hash),
            !added ==> final(self).txs@ == old(self).txs@,
            added ==> exists|at: int|
                0 <= at <= old(self).txs@.len() && final(self).txs@ == old(self).txs@.insert(
                    at,
                    tx,
                ),
            forall|h: crypto::Hash| final(self).has(h) <==> (h == tx.hash || old(self).has(h)),
            final(self)@ == pool_with(old(self)@, tx@),
    {
        let at = self.lower_bound(&tx.hash);
        proof {
            lemma_pool_view(self.txs@);
        }
        if at < self.txs.len() && self.txs[at].hash == tx.hash {
            return false;
        }
        proof {
            if self.has(tx.hash) {
                let j = choose|j: int| 0 <= j < self.txs.len() && (#[trigger] self.txs[j]).hash
                    == tx.hash;
                if j > at {
                    assert(self.txs[at as int].hash.spec_lt(self.txs[j].hash));
                }
            }
        }
        let ghost before = self.txs@;
        self.txs.insert(at, tx);
        proof {
            let after = self.txs@;
            assert(after == before.insert(at as int, tx));
            assert forall|i: int, j: int| 0 <= i < j < after.len() implies (
            #[trigger] after[i]).hash.spec_lt((#[trigger] after[j]).hash) by {
                if j == at {
                    assert(after[i] == before[i]);
                } else if i == at {
                    assert(after[j] == before[j - 1]);
                    lemma_lt_total(before[j - 1].hash, tx.hash);
                    if j - 1 > at {
                        assert(before[at as int].hash.spec_lt(before[j - 1].hash));
                        lemma_lt_total(before[at as int].hash, tx.hash);
                    }
                } else {
                    let bi = if i < at { i } else { i - 1 };
                    let bj = if j < at { j } else { j - 1 };
                    assert(after[i] == before[bi]);
                    assert(after[j] == before[bj]);
                }
            }
            assert forall|h: crypto::Hash| holds(after, h) <==> (h == tx.hash || holds(
                before,
                h,
            )) by {
                if holds(after, h) {
                    let i = choose|i: int| 0 <= i < after.len() && (#[trigger] after[i]).hash == h;
                    if i < at {
                        assert(before[i].hash == h);
                    } else if i > at {
                        assert(before[i - 1].hash == h);
                    }
                }
                if h == tx.hash {
                    assert(after[at as int].hash == h);
                } else if holds(before, h) {
                    let i = choose|i: int| 0 <= i < before.len() && (#[trigger] before[i]).hash
                        == h;
                    if i < at {
                        assert(after[i].hash == h);
                    } else {
                        assert(after[i + 1].hash == h);
                    }
                }
            }
            let pool = transactions_view(before);
            assert(is_rank(pool, tx.hash, at as int)) by {
                assert forall|j: int| 0 <= j < at implies (#[trigger] pool[j]).hash.spec_lt(
                    tx.hash,
                ) by {
                    assert(before[j].hash.spec_lt(tx.hash));
                }
                assert forall|j: int| at <= j < pool.len() implies !(#[trigger] pool[j]).hash.spec_lt(
                    tx.hash,
                ) by {
                    assert(!before[j].hash.spec_lt(tx.hash));
                }
            }
            lemma_rank_unique(pool, tx.hash, at as int, pool_rank(pool, tx.hash));
            assert(transactions_view(after) =~= pool.insert(at as int, tx@));
        }
        true
    }

    /// Takes the transaction with the hash `hash` out of the pool.
    pub fn remove(&mut self, hash: &crypto::Hash) -> (r: Option<Signed<RawTransaction>>)
        requires
            old(self).wf(),
        ensures
            final(self).wf(),
            r is Some <==> old(self).has(*hash),
            r is None ==> final(self).txs@ == old(self).txs@,
            r matches Some(t) ==> t.hash == *hash && exists|at: int|
                0 <= at < old(self).txs@.len() && old(self).txs@[at] == t && final(self).txs@
                    == old(self).txs@.remove(at),
            forall|h: crypto::Hash| final(self).has(h) <==> (h != *hash && old(self).has(h)),
            final(self)@ == pool_without(old(self)@, *hash),
            r matches Some(t) ==> t@ == old(self)@[pool_index(old(self)@, *hash)],
    {
        proof {
            lemma_pool_view(self.txs@);
        }
        match self.position(hash) {
            None => None,
            Some(at) => {
                let ghost before = self.txs@;
                let t = self.txs.remove(at);
                proof {
                    let after = self.txs@;
                    let pool = transactions_view(before);
                    assert(pool[at as int].hash == *hash);
                    lemma_index_unique(pool, *hash, at as int);
                    assert(transactions_view(after) =~= pool.remove(at as int));
                    assert(after == before.remove(at as int));
                    assert forall|i: int, j: int| 0 <= i < j < after.len() implies (
                    #[trigger] after[i]).hash.spec_lt((#[trigger] after[j]).hash) by {
                        let bi = if i < at { i } else { i + 1 };
                        let bj = if j < at { j } else { j + 1 };
                        assert(after[i] == before[bi]);
                        assert(after[j] == before[bj]);
                    }
                    assert forall|h: crypto::Hash| holds(after, h) <==> (h != *hash && holds(
                        before,
                        h,
                    )) by {
                        if holds(after, h) {
                            let i = choose|i: int|
                                0 <= i < after.len() && (#[trigger] after[i]).hash == h;
                            let bi = if i < at { i } else { i + 1 };
                            assert(before[bi].hash == h);
                            if bi < at {
                                assert(before[bi].hash.spec_lt(before[at as int].hash));
                            } else {
                                assert(before[at as int].hash.spec_lt(before[bi].hash));
                            }
                        }
                        if h != *hash && holds(before, h) {
                            let i = choose|i: int|
                                0 <= i < before.len() && (#[trigger] before[i]).hash == h;
                            if i < at {
                                assert(after[i].hash == h);
                            } else {
                                assert(after[i - 1].hash == h);
                            }
                        }
                    }
                }
                Some(t)
            },
        }
    }

    /// Takes the transactions with the hashes `hashes` out of the pool;
    /// hashes that the pool does not hold are passed over.
    pub fn remove_many(&mut self, hashes: &Vec<crypto::Hash>)
        requires
            old(self).wf(),
        ensures
            final(self).wf(),
            forall|h: crypto::Hash|
                final(self).has(h) <==> (old(self).has(h) && !hashes@.contains(h)),
            forall|t: Signed<RawTransaction>|
                final(self).txs@.contains(t) ==> old(self).txs@.contains(t),
            final(self)@ == pool_without_all(old(self)@, hashes@),
    {
        let mut k: usize = 0;
        while k < hashes.len()
            invariant
                k <= hashes.len(),
                self.wf(),
                self@ == pool_without_all(old(self)@, hashes@.subrange(0, k as int)),
                forall|h: crypto::Hash|
                    self.has(h) <==> (old(self).has(h) && !hashes@.subrange(0, k as int).contains(
                        h,
                    )),
                forall|t: Signed<RawTransaction>|
                    self.txs@.contains(t) ==> old(self).txs@.contains(t),
            decreases hashes.len() - k,
        {
            let ghost before = self.txs@;
            let ghost done = hashes@.subrange(0, k as int);
            let removed = self.remove(&hashes[k]);
            proof {
                let now = hashes@.subrange(0, k + 1);
                assert(now.drop_last() =~= done);
                assert(now =~= done.push(hashes[k as int]));
                assert forall|h: crypto::Hash| now.contains(h) <==> (done.contains(h) || h
                    == hashes[k as int]) by {
                    if now.contains(h) {
                        let i = choose|i: int| 0 <= i < now.len() && now[i] == h;
                        if i < k {
                            assert(done[i] == h);
                        }
                    }
                    if done.contains(h) {
                        let i = choose|i: int| 0 <= i < done.len() && done[i] == h;
                        assert(now[i] == h);
                    }
                    if h == hashes[k as int] {
                        assert(now[k as int] == h);
                    }
                }
                assert forall|t: Signed<RawTransaction>| self.txs@.contains(t) implies old(
                    self,
                ).txs@.contains(t) by {
                    if removed is Some {
                        let at = choose|at: int|
                            0 <= at < before.len() && before[at] == removed->0 && self.txs@
                                == before.remove(at);
                        let i = choose|i: int| 0 <= i < self.txs@.len() && self.txs@[i] == t;
                        let bi = if i < at { i } else { i + 1 };
                        assert(before[bi] == t);
                        assert(before.contains(t));
                    }
                }
            }
            k = k + 1;
        }
        proof {
            assert(hashes@.subrange(0, k as int) =~= hashes@);
        }
    }

    /// The hashes of the pool, in ascending order.
    pub fn iter_by_hash(&self) -> (v: Vec<crypto::Hash>)
        ensures
            v@ == hashes_of(self.txs@),
    {
        self.first_hashes(self.txs.len())
    }

    /// The `limit` least hashes of the pool, or all where it holds fewer, in
    /// ascending order.
    pub fn first_hashes(&self, limit: usize) -> (v: Vec<crypto::Hash>)
        ensures
            v@ == hashes_of(self.txs@).take(
                if limit <= self.txs@.len() { limit as int } else { self.txs@.len() as int },
            ),
            v@ == pool_first(self@, limit as nat),
    {
        let n = if limit <= self.txs.len() { limit } else { self.txs.len() };
        let mut v: Vec<crypto::Hash> = Vec::new();
        let mut i: usize = 0;
        while i < n
            invariant
                i <= n,
                n <= self.txs.len(),
                v.len() == i,
                forall|j: int| 0 <= j < i ==> v[j] == self.txs[j].hash,
            decreases n - i,
        {
            v.push(self.txs[i].hash);
            i = i + 1;
        }
        proof {
            assert(v@ =~= hashes_of(self.txs@).take(n as int));
            assert(v@ =~= pool_first(self@, limit as nat));
        }
        v
    }
}

} // verus!
