//! The list of peers that the node is allowed to talk to.

use vstd::prelude::*;
use crate::crypto::PublicKey;
use crate::node::{ConnectInfo, ConnectListConfig};

verus! {

/// Address of a peer.
#[derive(Debug)]
pub struct PeerAddress {
    /// Host and port, as written in the configuration.
    pub address: String,
}

impl PeerAddress {
    /// Wraps an address.
    pub fn new(address: String) -> (p: Self)
        ensures
            p.address == address,
    {
        PeerAddress { address }
    }
}

/// Peers that the node accepts, each public key once. A later entry for a
/// key replaces the earlier one and keeps its place.
#[derive(Debug)]
pub struct ConnectList {
    /// The accepted peers.
    pub peers: Vec<ConnectInfo>,
}

/// Whether some entry of `peers` has the public key `key`.
pub open spec fn has_key(peers: Seq<ConnectInfo>, key: PublicKey) -> bool {
    exists|i: int| 0 <= i < peers.len() && peers[i].public_key == key
}

/// Position of the entry of `peers` with the public key `key`.
pub open spec fn key_index(peers: Seq<ConnectInfo>, key: PublicKey) -> int {
    choose|i: int| 0 <= i < peers.len() && peers[i].public_key == key
}

/// The list `peers` after `peer` is added: in the place of the entry with its
/// key, or at the end where there is none.
pub open spec fn with_peer(peers: Seq<ConnectInfo>, peer: ConnectInfo) -> Seq<ConnectInfo> {
    if has_key(peers, peer.public_key) {
        peers.update(key_index(peers, peer.public_key), peer)
    } else {
        peers.push(peer)
    }
}

/// The list that holds the entries of `entries`, added in order.
pub open spec fn with_peers(entries: Seq<ConnectInfo>) -> Seq<ConnectInfo>
    decreases entries.len(),
{
    if entries.len() == 0 {
        Seq::<ConnectInfo>::empty()
    } else {
        with_peer(with_peers(entries.drop_last()), entries.last())
    }
}

/// No public key occurs twice in `peers`.
pub open spec fn keys_unique(peers: Seq<ConnectInfo>) -> bool {
    forall|i: int, j: int|
        0 <= i < j < peers.len() ==> peers[i].public_key != peers[j].public_key
}

/// Adding a peer keeps the keys unique, and the list then has exactly the
/// keys it had and the peer's.
pub proof fn lemma_with_peer(peers: Seq<ConnectInfo>, peer: ConnectInfo)
    requires
        keys_unique(peers),
    ensures
        keys_unique(with_peer(peers, peer)),
        forall|k: PublicKey|
            has_key(with_peer(peers, peer), k) <==> (k == peer.public_key || has_key(peers, k)),
{
    let out = with_peer(peers, peer);
    if has_key(peers, peer.public_key) {
        let at = key_index(peers, peer.public_key);
        assert forall|k: PublicKey| has_key(out, k) <==> (k == peer.public_key || has_key(
            peers,
            k,
        )) by {
            if has_key(out, k) {
                let i = choose|i: int| 0 <= i < out.len() && out[i].public_key == k;
                if i != at {
                    assert(peers[i].public_key == k);
                }
            }
            if k == peer.public_key {
                assert(out[at].public_key == k);
            } else if has_key(peers, k) {
                let i = choose|i: int| 0 <= i < peers.len() && peers[i].public_key == k;
                assert(out[i].public_key == k);
            }
        }
    } else {
        assert forall|k: PublicKey| has_key(out, k) <==> (k == peer.public_key || has_key(
            peers,
            k,
        )) by {
            if has_key(out, k) {
                let i = choose|i: int| 0 <= i < out.len() && out[i].public_key == k;
                if i < peers.len() {
                    assert(peers[i].public_key == k);
                }
            }
            if k == peer.public_key {
                assert(out[peers.len() as int].public_key == k);
            } else if has_key(peers, k) {
                let i = choose|i: int| 0 <= i < peers.len() && peers[i].public_key == k;
                assert(out[i].public_key == k);
            }
        }
    }
}

/// A list built by adding entries in order has unique keys.
pub proof fn lemma_with_peers_unique(entries: Seq<ConnectInfo>)
    ensures
        keys_unique(with_peers(entries)),
    decreases entries.len(),
{
    if entries.len() > 0 {
        lemma_with_peers_unique(entries.drop_last());
        lemma_with_peer(with_peers(entries.drop_last()), entries.last());
    }
}

impl ConnectList {
    /// The invariant of the list: no public key occurs twice.
    pub open spec fn wf(&self) -> bool {
        keys_unique(self.peers@)
    }

    /// An empty list.
    pub fn new() -> (l: Self)
        ensures
            l.peers@ == Seq::<ConnectInfo>::empty(),
            l.wf(),
    {
        ConnectList { peers: Vec::new() }
    }

    /// The list that a configuration describes: its entries, added in order.
    pub fn from_config(config: ConnectListConfig) -> (l: Self)
        ensures
            l.peers@ == with_peers(config.peers@),
            l.wf(),
    {
        let mut list = ConnectList::new();
        let mut i: usize = 0;
        while i < config.peers.len()
            invariant
                i <= config.peers.len(),
                list.wf(),
                list.peers@ == with_peers(config.peers@.subrange(0, i as int)),
            decreases config.peers.len() - i,
        {
            proof {
                assert(config.peers@.subrange(0, i + 1).drop_last() =~= config.peers@.subrange(
                    0,
                    i as int,
                ));
            }
            list.add(config.peers[i].clone());
            i = i + 1;
        }
        proof {
            assert(config.peers@.subrange(0, i as int) =~= config.peers@);
        }
        list
    }

    /// Whether the list has an entry for `key`.
    pub fn is_peer_allowed(&self, key: &PublicKey) -> (b: bool)
        ensures
            b == has_key(self.peers@, *key),
    {
        self.position(key).is_some()
    }

    /// Index of the entry for `key`.
    fn position(&self, key: &PublicKey) -> (r: Option<usize>)
        ensures
            match r {
                Some(i) => i < self.peers.len() && self.peers[i as int].public_key == *key
                    && forall|j: int| 0 <= j < i ==> self.peers[j].public_key != *key,
                None => !has_key(self.peers@, *key),
            },
    {
        let mut i: usize = 0;
        while i < self.peers.len()
            invariant
                i <= self.peers.len(),
                forall|j: int| 0 <= j < i ==> self.peers[j].public_key != *key,
            decreases self.peers.len() - i,
        {
            if self.peers[i].public_key == *key {
                return Some(i);
            }
            i = i + 1;
        }
        None
    }

    /// The entries, in the order of the list.
    pub fn peers(&self) -> (v: Vec<ConnectInfo>)
        ensures
            v@ == self.peers@,
    {
        let v = self.peers.clone();
        assert(v@ =~= self.peers@);
        v
    }

    /// Adds `peer`, in place of the entry with its key where there is one.
    pub fn add(&mut self, peer: ConnectInfo)
        requires
            old(self).wf(),
        ensures
            final(self).peers@ == with_peer(old(self).peers@, peer),
            final(self).wf(),
    {
        let found = self.position(&peer.public_key);
        proof {
            lemma_with_peer(self.peers@, peer);
        }
        match found {
            Some(i) => {
                assert(key_index(self.peers@, peer.public_key) == i);
                self.peers.set(i, peer);
            },
            None => {
                self.peers.push(peer);
            },
        }
    }

    /// Address of the peer with the key `key`.
    pub fn find_address_by_pubkey(&self, key: &PublicKey) -> (r: Option<PeerAddress>)
        ensures
            r is Some <==> has_key(self.peers@, *key),
            r matches Some(a) ==> exists|i: int|
                0 <= i < self.peers.len() && self.peers[i].public_key == *key && a.address
                    == self.peers[i].address,
    {
        match self.position(key) {
            Some(i) => Some(PeerAddress::new(self.peers[i].address.clone())),
            None => None,
        }
    }
}

/// The connect list as the node state holds it.
pub type SharedConnectList = ConnectList;

} // verus!
