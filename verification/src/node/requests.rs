//! Outstanding requests for data that the node lacks: what was asked for,
//! until when an answer is awaited, and which peers can be asked.

use vstd::prelude::*;
use crate::crypto::{self, PublicKey};
use crate::helpers::{Height, Milliseconds, Round};

verus! {

/// How long an answer to a request for a propose is awaited.
pub const REQUEST_PROPOSE_TIMEOUT: Milliseconds = 100;

/// How long an answer to a request for transactions is awaited.
pub const REQUEST_TRANSACTIONS_TIMEOUT: Milliseconds = 200;

/// How long an answer to a request for prevotes is awaited.
pub const REQUEST_PREVOTES_TIMEOUT: Milliseconds = 300;

/// How long an answer to a request for a block is awaited.
pub const REQUEST_BLOCK_TIMEOUT: Milliseconds = 400;

/// How long an answer to a request for peers is awaited.
pub const REQUEST_PEERS_TIMEOUT: Milliseconds = 500;

/// What a request asks for.
#[derive(Debug)]
pub enum RequestData {
    /// The propose with this hash.
    Propose(crypto::Hash),
    /// The transactions with these hashes.
    Transactions(Vec<crypto::Hash>),
    /// The prevotes of a round for a propose.
    Prevotes(Round, crypto::Hash),
    /// The block at a height.
    Block(Height),
    /// The peers that a node knows.
    Peers,
}

/// What a request asks for, as a mathematical value.
pub enum RequestKey {
    /// The propose with this hash.
    Propose(crypto::Hash),
    /// The transactions with these hashes.
    Transactions(Seq<crypto::Hash>),
    /// The prevotes of a round for a propose.
    Prevotes(Round, crypto::Hash),
    /// The block at a height.
    Block(Height),
    /// The peers that a node knows.
    Peers,
}

impl View for RequestData {
    type V = RequestKey;

    open spec fn view(&self) -> RequestKey {
        match *self {
            RequestData::Propose(h) => RequestKey::Propose(h),
            RequestData::Transactions(v) => RequestKey::Transactions(v@),
            RequestData::Prevotes(r, h) => RequestKey::Prevotes(r, h),
            RequestData::Block(h) => RequestKey::Block(h),
            RequestData::Peers => RequestKey::Peers,
        }
    }
}

/// Whether two lists of hashes hold the same hashes in the same order.
pub fn same_hashes(a: &Vec<crypto::Hash>, b: &Vec<crypto::Hash>) -> (same: bool)
    ensures
        same == (a@ == b@),
{
    if a.len() != b.len() {
        return false;
    }
    let mut i: usize = 0;
    while i < a.len()
        invariant
            i <= a.len(),
            a.len() == b.len(),
            forall|j: int| 0 <= j < i ==> a@[j] == b@[j],
        decreases a.len() - i,
    {
        if a[i] != b[i] {
            return false;
        }
        i = i + 1;
    }
    proof {
        assert(a@ =~= b@);
    }
    true
}

impl RequestData {
    /// How long an answer to this request is awaited.
    pub open spec fn spec_timeout(key: RequestKey) -> Milliseconds {
        match key {
            RequestKey::Propose(_) => REQUEST_PROPOSE_TIMEOUT,
            RequestKey::Transactions(_) => REQUEST_TRANSACTIONS_TIMEOUT,
            RequestKey::Prevotes(_, _) => REQUEST_PREVOTES_TIMEOUT,
            RequestKey::Block(_) => REQUEST_BLOCK_TIMEOUT,
            RequestKey::Peers => REQUEST_PEERS_TIMEOUT,
        }
    }

    /// How long an answer to this request is awaited.
    pub fn timeout(&self) -> (t: Milliseconds)
        ensures
            t == Self::spec_timeout(self@),
    {
        match self {
            RequestData::Propose(_) => REQUEST_PROPOSE_TIMEOUT,
            RequestData::Transactions(_) => REQUEST_TRANSACTIONS_TIMEOUT,
            RequestData::Prevotes(_, _) => REQUEST_PREVOTES_TIMEOUT,
            RequestData::Block(_) => REQUEST_BLOCK_TIMEOUT,
            RequestData::Peers => REQUEST_PEERS_TIMEOUT,
        }
    }

    /// Whether `self` and `other` ask for the same.
    pub fn same(&self, other: &RequestData) -> (b: bool)
        ensures
            b == (self@ == other@),
    {
        match (self, other) {
            (RequestData::Propose(a), RequestData::Propose(b)) => *a == *b,
            (RequestData::Transactions(a), RequestData::Transactions(b)) => same_hashes(a, b),
            (RequestData::Prevotes(r, a), RequestData::Prevotes(s, b)) => *r == *s && *a == *b,
            (RequestData::Block(a), RequestData::Block(b)) => *a == *b,
            (RequestData::Peers, RequestData::Peers) => true,
            _ => false,
        }
    }
}

impl Clone for RequestData {
    fn clone(&self) -> (r: Self)
        ensures
            r@ == self@,
    {
        match self {
            RequestData::Propose(h) => RequestData::Propose(*h),
            RequestData::Transactions(v) => {
                let copy = v.clone();
                assert(copy@ =~= v@);
                RequestData::Transactions(copy)
            },
            RequestData::Prevotes(r, h) => RequestData::Prevotes(*r, *h),
            RequestData::Block(h) => RequestData::Block(*h),
            RequestData::Peers => RequestData::Peers,
        }
    }
}

/// One outstanding request.
#[derive(Debug)]
pub struct RequestState {
    /// What is asked for.
    pub data: RequestData,
    /// The peers that can be asked, in the order in which they became
    /// known, none twice. The first is the one to ask next.
    pub known_nodes: Vec<PublicKey>,
}

/// The outstanding requests, one for each thing asked for.
#[derive(Debug)]
pub struct Requests {
    /// The requests, in the order in which they were made.
    pub entries: Vec<RequestState>,
}

/// Position of the request for `key` in `entries`.
pub open spec fn request_index(entries: Seq<RequestState>, key: RequestKey) -> int {
    choose|i: int| 0 <= i < entries.len() && (#[trigger] entries[i]).data@ == key
}

/// Whether `entries` holds a request for `key`.
pub open spec fn in_flight(entries: Seq<RequestState>, key: RequestKey) -> bool {
    exists|i: int| 0 <= i < entries.len() && (#[trigger] entries[i]).data@ == key
}

/// The peers that can be asked for `key`; none where nothing is asked.
pub open spec fn candidates(entries: Seq<RequestState>, key: RequestKey) -> Seq<PublicKey> {
    if in_flight(entries, key) {
        entries[request_index(entries, key)].known_nodes@
    } else {
        Seq::<PublicKey>::empty()
    }
}

/// `nodes` without the peer `peer`, the order kept.
pub open spec fn without_peer(nodes: Seq<PublicKey>, peer: PublicKey) -> Seq<PublicKey> {
    nodes.filter(|k: PublicKey| k != peer)
}

/// Position of `peer` in `nodes`.
fn peer_position(nodes: &Vec<PublicKey>, peer: PublicKey) -> (r: Option<usize>)
    ensures
        match r {
            Some(i) => i < nodes@.len() && nodes@[i as int] == peer,
            None => forall|j: int| 0 <= j < nodes@.len() ==> nodes@[j] != peer,
        },
{
    let mut k: usize = 0;
    while k < nodes.len()
        invariant
            k <= nodes.len(),
            forall|j: int| 0 <= j < k ==> nodes@[j] != peer,
        decreases nodes.len() - k,
    {
        if nodes[k] == peer {
            return Some(k);
        }
        k = k + 1;
    }
    None
}

impl View for Requests {
    type V = Map<RequestKey, Seq<PublicKey>>;

    /// For everything that is asked for, the peers that can be asked.
    open spec fn view(&self) -> Map<RequestKey, Seq<PublicKey>> {
        Map::new(
            |key: RequestKey| in_flight(self.entries@, key),
            |key: RequestKey| candidates(self.entries@, key),
        )
    }
}

/// The requests `requests` after `peer` became known as one to ask for
/// `key`.
pub open spec fn with_request(
    requests: Map<RequestKey, Seq<PublicKey>>,
    key: RequestKey,
    peer: PublicKey,
) -> Map<RequestKey, Seq<PublicKey>> {
    if !requests.contains_key(key) {
        requests.insert(key, seq![peer])
    } else if requests[key].contains(peer) {
        requests
    } else {
        requests.insert(key, requests[key].push(peer))
    }
}

/// The peers that are left for `key` once the wait for `peer` is over.
pub open spec fn left_after(
    requests: Map<RequestKey, Seq<PublicKey>>,
    key: RequestKey,
    peer: Option<PublicKey>,
) -> Seq<PublicKey> {
    if !requests.contains_key(key) {
        Seq::empty()
    } else {
        match peer {
            Some(p) => without_peer(requests[key], p),
            None => requests[key],
        }
    }
}

/// The requests `requests` once the wait for an answer of `peer` to `key`
/// is over.
pub open spec fn after_retry(
    requests: Map<RequestKey, Seq<PublicKey>>,
    key: RequestKey,
    peer: Option<PublicKey>,
) -> Map<RequestKey, Seq<PublicKey>> {
    if !requests.contains_key(key) {
        requests
    } else if left_after(requests, key, peer).len() == 0 {
        requests.remove(key)
    } else {
        requests.insert(key, left_after(requests, key, peer))
    }
}

/// The peer to ask next for `key` once the wait for `peer` is over.
pub open spec fn next_peer(
    requests: Map<RequestKey, Seq<PublicKey>>,
    key: RequestKey,
    peer: Option<PublicKey>,
) -> Option<PublicKey> {
    if left_after(requests, key, peer).len() == 0 {
        None
    } else {
        Some(left_after(requests, key, peer)[0])
    }
}

impl Requests {
    /// The invariant: no two requests ask for the same, every request has a
    /// peer to ask, and none has a peer twice.
    pub open spec fn wf(&self) -> bool {
        &&& forall|i: int, j: int|
            0 <= i < j < self.entries@.len() ==> (#[trigger] self.entries@[i]).data@ != (
            #[trigger] self.entries@[j]).data@
        &&& forall|i: int|
            0 <= i < self.entries@.len() ==> (#[trigger] self.entries@[i]).known_nodes@.len() > 0
        &&& forall|i: int|
            0 <= i < self.entries@.len() ==> (
            #[trigger] self.entries@[i]).known_nodes@.no_duplicates()
    }

    /// Whether a request for `key` is outstanding.
    pub open spec fn asks(&self, key: RequestKey) -> bool {
        in_flight(self.entries@, key)
    }

    /// The peers that can be asked for `key`.
    pub open spec fn peers_for(&self, key: RequestKey) -> Seq<PublicKey> {
        candidates(self.entries@, key)
    }

    /// No requests.
    pub fn new() -> (r: Self)
        ensures
            r.wf(),
            r@ == Map::<RequestKey, Seq<PublicKey>>::empty(),
    {
        let r = Requests { entries: Vec::new() };
        proof {
            assert(r@ =~= Map::<RequestKey, Seq<PublicKey>>::empty());
        }
        r
    }

    /// Position of the request for `data`.
    pub fn position(&self, data: &RequestData) -> (r: Option<usize>)
        requires
            self.wf(),
        ensures
            match r {
                Some(i) => i < self.entries@.len() && self.entries@[i as int].data@ == data@ && i
                    == request_index(self.entries@, data@),
                None => !self.asks(data@),
            },
    {
        let mut i: usize = 0;
        while i < self.entries.len()
            invariant
                i <= self.entries.len(),
                self.wf(),
                forall|j: int| 0 <= j < i ==> (#[trigger] self.entries@[j]).data@ != data@,
            decreases self.entries.len() - i,
        {
            if self.entries[i].data.same(data) {
                proof {
                    let k = request_index(self.entries@, data@);
                    assert(self.entries@[k].data@ == data@);
                    if k < i {
                        assert(self.entries@[k].data@ != data@);
                    } else if k > i {
                        assert(self.entries@[i as int].data@ != self.entries@[k].data@);
                    }
                }
                return Some(i);
            }
            i = i + 1;
        }
        None
    }

    /// Whether a request for `data` is outstanding.
    pub fn contains(&self, data: &RequestData) -> (b: bool)
        requires
            self.wf(),
        ensures
            b == self@.contains_key(data@),
    {
        self.position(data).is_some()
    }

    /// Notes that `peer` can be asked for `data`. Returns whether nothing was
    /// asked for `data` before: then the request is new, with `peer` as its
    /// only candidate; else `peer` joins the candidates, at the end, unless
    /// it is one already.
    pub fn request(&mut self, data: RequestData, peer: PublicKey) -> (is_new: bool)
        requires
            old(self).wf(),
        ensures
            final(self).wf(),
            is_new == !old(self)@.contains_key(data@),
            final(self)@ == with_request(old(self)@, data@, peer),
    {
        let ghost before = self.entries@;
        let ghost target = data@;
        let ghost goal = with_request(self@, data@, peer);
        let ghost old_view = self@;
        let is_new = self.request_inner(data, peer);
        proof {
            assert(Seq::<PublicKey>::empty().push(peer) =~= seq![peer]);
            let now = *self;
            assert forall|k: RequestKey| self@.contains_key(k) == goal.contains_key(k) by {
                assert(now.asks(k) == in_flight(now.entries@, k));
                if k != target {
                    assert(now.asks(k) == in_flight(before, k));
                }
            }
            assert forall|k: RequestKey| self@.contains_key(k) implies self@[k] == goal[k] by {
                assert(now.asks(k) == in_flight(now.entries@, k));
                assert(now.peers_for(k) == candidates(now.entries@, k));
                if k != target {
                    assert(now.peers_for(k) == candidates(before, k));
                }
            }
            assert(self@ =~= goal);
        }
        is_new
    }

    /// Does what `request` does.
    fn request_inner(&mut self, data: RequestData, peer: PublicKey) -> (is_new: bool)
        requires
            old(self).wf(),
        ensures
            final(self).wf(),
            is_new == !old(self).asks(data@),
            final(self).asks(data@),
            final(self).peers_for(data@) == if old(self).peers_for(data@).contains(peer) {
                old(self).peers_for(data@)
            } else {
                old(self).peers_for(data@).push(peer)
            },
            forall|key: RequestKey|
                key != data@ ==> final(self).asks(key) == old(self).asks(key) && final(self).peers_for(key) == old(self).peers_for(key),
    {
        let ghost before = self.entries@;
        let ghost target = data@;
        match self.position(&data) {
            Some(i) => {
                let known = peer_position(&self.entries[i].known_nodes, peer);
                if known.is_none() {
                    let ghost nodes = before[i as int].known_nodes@;
                    self.entries[i].known_nodes.push(peer);
                    proof {
                        let after = self.entries@;
                        assert(after[i as int].known_nodes@ == nodes.push(peer));
                        assert(after[i as int].data == before[i as int].data);
                        assert forall|j: int| 0 <= j < after.len() && j != i implies after[j]
                            == before[j] by {}
                        assert(after[i as int].known_nodes@.no_duplicates()) by {
                            let s = after[i as int].known_nodes@;
                            assert forall|a: int, b: int|
                                0 <= a < s.len() && 0 <= b < s.len() && a != b implies s[a]
                                != s[b] by {
                                if a < nodes.len() {
                                    assert(s[a] == nodes[a]);
                                }
                                if b < nodes.len() {
                                    assert(s[b] == nodes[b]);
                                }
                            }
                        }
                        lemma_same_keys(before, after);
                        assert(after[i as int].data@ == target);
                        assert(request_index(after, target) == i) by {
                            let k = request_index(after, target);
                            if k < i {
                                assert(after[k].data@ != after[i as int].data@);
                            } else if k > i {
                                assert(after[i as int].data@ != after[k].data@);
                            }
                        }
                        assert(!nodes.contains(peer));
                        assert forall|key: RequestKey| key != target implies candidates(
                            after,
                            key,
                        ) == candidates(before, key) by {
                            if in_flight(before, key) {
                                let k = request_index(before, key);
                                assert(before[k].data@ == key);
                                assert(after[k].data@ == key);
                                let m = request_index(after, key);
                                if m < k {
                                    assert(after[m].data@ != after[k].data@);
                                } else if m > k {
                                    assert(after[k].data@ != after[m].data@);
                                }
                            }
                        }
                    }
                } else {
                    proof {
                        assert(before[i as int].known_nodes@[known->0 as int] == peer);
                        assert(before[i as int].known_nodes@.contains(peer));
                    }
                }
                false
            },
            None => {
                let mut known_nodes: Vec<PublicKey> = Vec::new();
                known_nodes.push(peer);
                self.entries.push(RequestState { data, known_nodes });
                proof {
                    let after = self.entries@;
                    let last = before.len() as int;
                    assert(after[last].data@ == target);
                    assert(after[last].known_nodes@ =~= Seq::<PublicKey>::empty().push(peer));
                    assert forall|i: int, j: int| 0 <= i < j < after.len() implies (
                    #[trigger] after[i]).data@ != (#[trigger] after[j]).data@ by {
                        assert(after[i] == before[i]);
                        if j < last {
                            assert(after[j] == before[j]);
                        }
                    }
                    assert(request_index(after, target) == last) by {
                        let k = request_index(after, target);
                        if k < last {
                            assert(after[k] == before[k]);
                        }
                    }
                    assert forall|key: RequestKey| key != target implies in_flight(after, key)
                        == in_flight(before, key) && candidates(after, key) == candidates(
                        before,
                        key,
                    ) by {
                        if in_flight(after, key) {
                            let k = request_index(after, key);
                            assert(after[k] == before[k]);
                        }
                        if in_flight(before, key) {
                            let k = request_index(before, key);
                            assert(after[k] == before[k]);
                            let m = request_index(after, key);
                            assert(after[m] == before[m]);
                            if m < k {
                                assert(before[m].data@ != before[k].data@);
                            } else if m > k {
                                assert(before[k].data@ != before[m].data@);
                            }
                        }
                    }
                    assert forall|i: int| 0 <= i < after.len() implies (
                    #[trigger] after[i]).known_nodes@.len() > 0
                        && after[i].known_nodes@.no_duplicates() by {
                        if i < last {
                            assert(after[i] == before[i]);
                        }
                    }
                }
                true
            },
        }
    }

    /// Drops the request for `data`. Returns the peers that could be asked.
    pub fn remove_request(&mut self, data: &RequestData) -> (nodes: Vec<PublicKey>)
        requires
            old(self).wf(),
        ensures
            final(self).wf(),
            nodes@ == old(self).peers_for(data@),
            final(self)@ == old(self)@.remove(data@),
    {
        let ghost before = self.entries@;
        let ghost goal = self@.remove(data@);
        let ghost target = data@;
        let nodes = match self.position(data) {
            Some(i) => {
                let state = self.entries.remove(i);
                proof {
                    lemma_remove_entry(before, i as int);
                    assert(before[i as int].data@ == target);
                }
                state.known_nodes
            },
            None => Vec::new(),
        };
        proof {
            assert(!in_flight(self.entries@, target));
            assert forall|k: RequestKey| self@.contains_key(k) == goal.contains_key(k) by {
                if k != target {
                    assert(in_flight(self.entries@, k) == in_flight(before, k));
                }
            }
            assert forall|k: RequestKey| self@.contains_key(k) implies self@[k] == goal[k] by {
                assert(k != target);
                assert(candidates(self.entries@, k) == candidates(before, k));
            }
            assert(self@ =~= goal);
        }
        nodes
    }

    /// What to do when the wait for an answer to `data` is over. The peer
    /// that was asked, `peer`, leaves the candidates. Where a candidate is
    /// left, the first one is returned: it is the one to ask now. Where none
    /// is left, the request is dropped.
    pub fn retry(&mut self, data: &RequestData, peer: Option<PublicKey>) -> (next: Option<
        PublicKey,
    >)
        requires
            old(self).wf(),
        ensures
            final(self).wf(),
            final(self)@ == after_retry(old(self)@, data@, peer),
            next == next_peer(old(self)@, data@, peer),
    {
        let ghost goal = after_retry(self@, data@, peer);
        let ghost before = self.entries@;
        proof {
            if peer is Some {
                reveal(Seq::filter);
                assert(without_peer(Seq::<PublicKey>::empty(), peer->0)
                    =~= Seq::<PublicKey>::empty());
            }
        }
        let next = self.retry_inner(data, peer);
        proof {
            let now = *self;
            assert forall|k: RequestKey| self@.contains_key(k) == goal.contains_key(k) by {
                assert(now.asks(k) == in_flight(now.entries@, k));
                if k != data@ {
                    assert(now.asks(k) == in_flight(before, k));
                }
            }
            assert forall|k: RequestKey| self@.contains_key(k) implies self@[k] == goal[k] by {
                assert(now.asks(k) == in_flight(now.entries@, k));
                assert(now.peers_for(k) == candidates(now.entries@, k));
                if k != data@ {
                    assert(now.peers_for(k) == candidates(before, k));
                }
            }
            assert(self@ =~= goal);
        }
        next
    }

    /// Does what `retry` does.
    fn retry_inner(&mut self, data: &RequestData, peer: Option<PublicKey>) -> (next: Option<
        PublicKey,
    >)
        requires
            old(self).wf(),
        ensures
            final(self).wf(),
            forall|key: RequestKey|
                key != data@ ==> final(self).asks(key) == old(self).asks(key) && final(self).peers_for(key) == old(self).peers_for(key),
            ({
                let left = match peer {
                    Some(p) => without_peer(old(self).peers_for(data@), p),
                    None => old(self).peers_for(data@),
                };
                &&& final(self).peers_for(data@) == left
                &&& final(self).asks(data@) == (left.len() > 0)
                &&& next == if left.len() > 0 {
                    Some(left[0])
                } else {
                    None
                }
            }),
    {
        let ghost before = self.entries@;
        let ghost target = data@;
        match self.position(data) {
            None => {
                proof {
                    if peer is Some {
                        reveal(Seq::filter);
                        assert(without_peer(Seq::<PublicKey>::empty(), peer->0)
                            =~= Seq::<PublicKey>::empty());
                    }
                }
                None
            },
            Some(i) => {
                let ghost nodes = before[i as int].known_nodes@;
                match peer {
                    Some(p) => {
                        let found = peer_position(&self.entries[i].known_nodes, p);
                        match found {
                            Some(at) => {
                                self.entries[i].known_nodes.remove(at);
                                proof {
                                    lemma_without_peer_at(nodes, at as int);
                                }
                            },
                            None => {
                                proof {
                                    lemma_without_peer_absent(nodes, p);
                                }
                            },
                        }
                    },
                    None => {},
                }
                let ghost left = match peer {
                    Some(p) => without_peer(nodes, p),
                    None => nodes,
                };
                let ghost middle = self.entries@;
                proof {
                    assert(middle.len() == before.len());
                    assert(middle[i as int].known_nodes@ == left);
                    assert(middle[i as int].data == before[i as int].data);
                    assert forall|j: int| 0 <= j < middle.len() && j != i implies middle[j]
                        == before[j] by {}
                    lemma_same_keys(before, middle);
                    assert(request_index(middle, target) == i) by {
                        let m = request_index(middle, target);
                        assert(middle[i as int].data@ == target);
                        if m < i {
                            assert(before[m].data@ != before[i as int].data@);
                        } else if m > i {
                            assert(before[i as int].data@ != before[m].data@);
                        }
                    }
                    assert(left.no_duplicates()) by {
                        if peer is Some {
                            lemma_without_peer_unique(nodes, peer->0);
                        }
                    }
                    assert forall|key: RequestKey| key != target implies candidates(
                        middle,
                        key,
                    ) == candidates(before, key) by {
                        if in_flight(before, key) {
                            let a = request_index(before, key);
                            assert(middle[a].data@ == key);
                            let b = request_index(middle, key);
                            if b < a {
                                assert(before[b].data@ != before[a].data@);
                            } else if b > a {
                                assert(before[a].data@ != before[b].data@);
                            }
                        }
                    }
                }
                if self.entries[i].known_nodes.len() == 0 {
                    self.entries.remove(i);
                    proof {
                        lemma_remove_entry_loose(middle, i as int);
                        assert(candidates(self.entries@, target) =~= left);
                    }
                    None
                } else {
                    Some(self.entries[i].known_nodes[0])
                }
            },
        }
    }
}

/// Two lists of requests that ask for the same things at the same places
/// have the same things in flight.
proof fn lemma_same_keys(a: Seq<RequestState>, b: Seq<RequestState>)
    requires
        a.len() == b.len(),
        forall|i: int| 0 <= i < a.len() ==> (#[trigger] a[i]).data@ == b[i].data@,
    ensures
        forall|key: RequestKey| in_flight(a, key) == in_flight(b, key),
{
    assert forall|key: RequestKey| in_flight(a, key) == in_flight(b, key) by {
        if in_flight(a, key) {
            let i = request_index(a, key);
            assert(a[i].data@ == key);
            assert(b[i].data@ == key);
        }
        if in_flight(b, key) {
            let i = request_index(b, key);
            assert(a[i].data@ == b[i].data@);
        }
    }
}

/// Removing a request from a list with distinct keys leaves the others as
/// they were.
proof fn lemma_remove_entry_loose(entries: Seq<RequestState>, at: int)
    requires
        0 <= at < entries.len(),
        forall|i: int, j: int|
            0 <= i < j < entries.len() ==> (#[trigger] entries[i]).data@ != (
            #[trigger] entries[j]).data@,
    ensures
        !in_flight(entries.remove(at), entries[at].data@),
        forall|i: int, j: int|
            0 <= i < j < entries.remove(at).len() ==> (#[trigger] entries.remove(at)[i]).data@ != (
            #[trigger] entries.remove(at)[j]).data@,
        forall|key: RequestKey|
            key != entries[at].data@ ==> in_flight(entries.remove(at), key) == in_flight(
                entries,
                key,
            ) && candidates(entries.remove(at), key) == candidates(entries, key),
{
    let after = entries.remove(at);
    let gone = entries[at].data@;
    assert forall|i: int| 0 <= i < after.len() implies after[i] == entries[if i < at {
        i
    } else {
        i + 1
    }] by {}
    if in_flight(after, gone) {
        let i = request_index(after, gone);
        let bi = if i < at { i } else { i + 1 };
        assert(after[i] == entries[bi]);
        if bi < at {
            assert(entries[bi].data@ != entries[at].data@);
        } else {
            assert(entries[at].data@ != entries[bi].data@);
        }
    }
    assert forall|i: int, j: int| 0 <= i < j < after.len() implies (#[trigger] after[i]).data@ != (
    #[trigger] after[j]).data@ by {
        let bi = if i < at { i } else { i + 1 };
        let bj = if j < at { j } else { j + 1 };
        assert(after[i] == entries[bi]);
        assert(after[j] == entries[bj]);
    }
    assert forall|key: RequestKey| key != gone implies in_flight(after, key) == in_flight(
        entries,
        key,
    ) && candidates(after, key) == candidates(entries, key) by {
        if in_flight(after, key) {
            let i = request_index(after, key);
            let bi = if i < at { i } else { i + 1 };
            assert(entries[bi].data@ == key);
        }
        if in_flight(entries, key) {
            let k = request_index(entries, key);
            assert(entries[k].data@ == key);
            let ai = if k < at { k } else { k - 1 };
            assert(after[ai] == entries[k]);
            assert(after[ai].data@ == key);
            let m = request_index(after, key);
            let bm = if m < at { m } else { m + 1 };
            assert(after[m] == entries[bm]);
            if bm < k {
                assert(entries[bm].data@ != entries[k].data@);
            } else if bm > k {
                assert(entries[k].data@ != entries[bm].data@);
            }
        }
    }
}

/// Removing a request keeps the invariant of the list.
proof fn lemma_remove_entry(entries: Seq<RequestState>, at: int)
    requires
        0 <= at < entries.len(),
        forall|i: int, j: int|
            0 <= i < j < entries.len() ==> (#[trigger] entries[i]).data@ != (
            #[trigger] entries[j]).data@,
        forall|i: int| 0 <= i < entries.len() ==> (#[trigger] entries[i]).known_nodes@.len() > 0,
        forall|i: int|
            0 <= i < entries.len() ==> (#[trigger] entries[i]).known_nodes@.no_duplicates(),
    ensures
        !in_flight(entries.remove(at), entries[at].data@),
        forall|i: int, j: int|
            0 <= i < j < entries.remove(at).len() ==> (#[trigger] entries.remove(at)[i]).data@ != (
            #[trigger] entries.remove(at)[j]).data@,
        forall|i: int|
            0 <= i < entries.remove(at).len() ==> (#[trigger] entries.remove(
                at,
            )[i]).known_nodes@.len() > 0,
        forall|i: int|
            0 <= i < entries.remove(at).len() ==> (#[trigger] entries.remove(
                at,
            )[i]).known_nodes@.no_duplicates(),
        forall|key: RequestKey|
            key != entries[at].data@ ==> in_flight(entries.remove(at), key) == in_flight(
                entries,
                key,
            ) && candidates(entries.remove(at), key) == candidates(entries, key),
{
    lemma_remove_entry_loose(entries, at);
    let after = entries.remove(at);
    assert forall|i: int| 0 <= i < after.len() implies (#[trigger] after[i]).known_nodes@.len() > 0
        && after[i].known_nodes@.no_duplicates() by {
        let bi = if i < at { i } else { i + 1 };
        assert(after[i] == entries[bi]);
    }
}

/// In a list without repeats, dropping the peer at `at` is dropping the
/// peer by name.
proof fn lemma_without_peer_at(nodes: Seq<PublicKey>, at: int)
    requires
        0 <= at < nodes.len(),
        nodes.no_duplicates(),
    ensures
        nodes.remove(at) == without_peer(nodes, nodes[at]),
    decreases nodes.len(),
{
    reveal(Seq::filter);
    let p = nodes[at];
    let keep = |k: PublicKey| k != p;
    let rest = nodes.drop_last();
    if at == nodes.len() - 1 {
        lemma_without_peer_absent(rest, p);
        assert(nodes.remove(at) =~= rest);
    } else {
        assert(rest.no_duplicates());
        lemma_without_peer_at(rest, at);
        assert(rest[at] == p);
        assert(nodes.last() != p);
        assert(nodes.remove(at) =~= rest.remove(at).push(nodes.last()));
    }
}

/// Dropping a peer that is not in the list changes nothing.
proof fn lemma_without_peer_absent(nodes: Seq<PublicKey>, peer: PublicKey)
    requires
        forall|j: int| 0 <= j < nodes.len() ==> nodes[j] != peer,
    ensures
        without_peer(nodes, peer) == nodes,
    decreases nodes.len(),
{
    reveal(Seq::filter);
    if nodes.len() > 0 {
        lemma_without_peer_absent(nodes.drop_last(), peer);
        assert(nodes =~= nodes.drop_last().push(nodes.last()));
    }
}

/// Dropping a peer keeps a list free of repeats.
proof fn lemma_without_peer_unique(nodes: Seq<PublicKey>, peer: PublicKey)
    requires
        nodes.no_duplicates(),
    ensures
        without_peer(nodes, peer).no_duplicates(),
{
    if exists|j: int| 0 <= j < nodes.len() && nodes[j] == peer {
        let at = choose|j: int| 0 <= j < nodes.len() && nodes[j] == peer;
        lemma_without_peer_at(nodes, at);
        let after = nodes.remove(at);
        assert forall|a: int, b: int|
            0 <= a < after.len() && 0 <= b < after.len() && a != b implies after[a]
            != after[b] by {
            let ba = if a < at { a } else { a + 1 };
            let bb = if b < at { b } else { b + 1 };
            assert(after[a] == nodes[ba]);
            assert(after[b] == nodes[bb]);
        }
    } else {
        lemma_without_peer_absent(nodes, peer);
    }
}

} // verus!
