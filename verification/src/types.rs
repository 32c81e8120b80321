//! The data model: digests, LM-OTS signatures, LMS signatures, public keys
//! and the private tree state, with their views and well-formedness.

use vstd::prelude::*;
use crate::params::LmotsAlgorithmType;
use crate::params::LmsAlgorithmType;

verus! {

/// A hash digest: a fixed-width byte string. Equality is byte equality.
#[derive(Debug, Clone, PartialEq, Eq, Hash)]
pub struct HashValue {
    /// The digest bytes.
    pub value: Vec<u8>,
}

impl View for HashValue {
    type V = Seq<u8>;

    open spec fn view(&self) -> Seq<u8> {
        self.value@
    }
}

impl HashValue {
    /// Wraps digest bytes.
    pub fn new(value: Vec<u8>) -> (r: HashValue)
        ensures
            r@ == value@,
    {
        HashValue { value }
    }

    /// An exact copy.
    pub fn dup(&self) -> (r: HashValue)
        ensures
            r@ == self@,
    {
        HashValue { value: crate::bytes::clone_bytes(&self.value) }
    }

    /// Byte equality of two digests.
    pub fn equals(&self, other: &HashValue) -> (r: bool)
        ensures
            r == (self@ == other@),
    {
        crate::bytes::bytes_eq(&self.value, &other.value)
    }
}

/// The views of a sequence of digests, as a sequence of byte strings.
pub open spec fn digests_view(v: Seq<HashValue>) -> Seq<Seq<u8>> {
    Seq::new(v.len(), |i: int| v[i]@)
}

/// Every digest in the sequence has width n.
pub open spec fn digests_wf(v: Seq<HashValue>, n: int) -> bool {
    forall|i: int| 0 <= i < v.len() ==> (#[trigger] v[i]@).len() == n
}

/// Checks that every digest in the vector has width n.
pub fn check_digest_widths(v: &Vec<HashValue>, n: usize) -> (r: bool)
    ensures
        r == digests_wf(v@, n as int),
{
    let mut i: usize = 0;
    while i < v.len()
        invariant
            0 <= i <= v@.len(),
            forall|k: int| 0 <= k < i ==> (#[trigger] v@[k]@).len() == n,
        decreases v@.len() - i,
    {
        if v[i].value.len() != n {
            proof {
                assert(v@[i as int]@.len() != n);
            }
            return false;
        }
        i = i + 1;
    }
    true
}

/// An LM-OTS signature: the algorithm it was made under, the 32-byte
/// randomizer C, and the p chain values y.
#[derive(Debug, Clone, PartialEq, Eq)]
pub struct LmotsSignature {
    /// The LM-OTS algorithm the signature was made under.
    pub ots_type: LmotsAlgorithmType,
    /// The randomizer C drawn at signing time.
    pub nonce: Vec<u8>,
    /// The p chain values, each n bytes wide.
    pub y: Vec<HashValue>,
}

/// An LMS signature: leaf index, the one-time signature for that leaf, the
/// tree's algorithm, and the authentication path of h sibling digests.
#[derive(Debug, Clone, PartialEq, Eq)]
pub struct LmsSignature {
    /// The leaf index the message was signed with.
    pub q: u32,
    /// The one-time signature of the message under leaf q.
    pub lmots_signature: LmotsSignature,
    /// The LMS algorithm of the tree.
    pub sig_type: LmsAlgorithmType,
    /// The sibling digests from leaf to root, bottom-up.
    pub lms_path: Vec<HashValue>,
}

/// An LMS public key: the two algorithm identifiers, the 16-byte tree
/// identifier I, and the root digest T[1].
#[derive(Debug, Clone, PartialEq, Eq)]
pub struct LmsPublicKey {
    /// The LMS algorithm of the tree.
    pub lms_type: LmsAlgorithmType,
    /// The LM-OTS algorithm of the leaves.
    pub ots_type: LmotsAlgorithmType,
    /// The per-tree identifier I.
    pub lms_identifier: Vec<u8>,
    /// The tree root T[1].
    pub root: HashValue,
}

/// The private state of an LMS tree: identifiers, the next unused leaf index,
/// the full node array (index 1 is the root, index 0 unused), and the p chain
/// seeds of every leaf.
#[derive(Debug, Clone)]
pub struct LmsTree {
    /// The LMS algorithm of the tree.
    pub lms_type: LmsAlgorithmType,
    /// The LM-OTS algorithm of the leaves.
    pub ots_type: LmotsAlgorithmType,
    /// The per-tree identifier I.
    pub lms_identifier: Vec<u8>,
    /// The next unused leaf index.
    pub q: u32,
    /// All 2^(h+1) tree nodes; entry k has children 2k and 2k+1.
    pub t_tree: Vec<HashValue>,
    /// The p chain seeds of each of the 2^h leaves.
    pub private_keys: Vec<Vec<HashValue>>,
}

} // verus!
