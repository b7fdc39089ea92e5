//! Identifiers that the cryptographic layer produces: digests, keys and
//! signatures. The library compares and orders them and never computes one.

use vstd::prelude::*;

verus! {

/// A 256-bit digest, held as four 64-bit words. Digests are ordered by
/// their words, the first word counting most.
#[derive(Clone, Copy, Debug, PartialEq, Eq, Structural, Hash)]
pub struct Hash(pub u64, pub u64, pub u64, pub u64);

impl Hash {
    /// The all-zero digest, which stands for "no propose" in a vote.
    pub fn zero() -> (h: Hash)
        ensures
            h == Hash(0, 0, 0, 0),
    {
        Hash(0, 0, 0, 0)
    }

    /// Strict lexicographic order on the four words.
    pub open spec fn spec_lt(self, other: Hash) -> bool {
        self.0 < other.0 || (self.0 == other.0 && (self.1 < other.1 || (self.1 == other.1 && (
        self.2 < other.2 || (self.2 == other.2 && self.3 < other.3)))))
    }

    /// Whether `self` comes strictly before `other`.
    pub fn lt(&self, other: &Hash) -> (b: bool)
        ensures
            b == self.spec_lt(*other),
    {
        self.0 < other.0 || (self.0 == other.0 && (self.1 < other.1 || (self.1 == other.1 && (
        self.2 < other.2 || (self.2 == other.2 && self.3 < other.3)))))
    }
}

/// A public key, held as four 64-bit words like a [`Hash`].
#[derive(Clone, Copy, Debug, PartialEq, Eq, Structural, Hash)]
pub struct PublicKey(pub u64, pub u64, pub u64, pub u64);

impl PublicKey {
    /// The all-zero key.
    pub fn zero() -> (k: PublicKey)
        ensures
            k == PublicKey(0, 0, 0, 0),
    {
        PublicKey(0, 0, 0, 0)
    }
}

/// A secret key. The library carries it and never looks inside.
#[derive(Clone, Copy, Debug, PartialEq, Eq, Structural)]
pub struct SecretKey(pub u64, pub u64, pub u64, pub u64, pub u64, pub u64, pub u64, pub u64);

/// A signature. The library carries it and never looks inside.
#[derive(Clone, Copy, Debug, PartialEq, Eq, Structural)]
pub struct Signature(pub u64, pub u64, pub u64, pub u64, pub u64, pub u64, pub u64, pub u64);

} // verus!
