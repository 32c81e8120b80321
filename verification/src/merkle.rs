//! The LMS Merkle tree (RFC 8554 §5): node hashing, the full node array, the
//! authentication path, and the climb that reconstructs a root from a leaf
//! and its path.

use vstd::prelude::*;
use vstd::arithmetic::power2::pow2;
use vstd::arithmetic::power2::lemma2_to64;
use vstd::arithmetic::power2::lemma_pow2_unfold;
use vstd::arithmetic::power2::lemma_pow2_pos;
use vstd::arithmetic::power2::lemma_pow2_strictly_increases;
use vstd::arithmetic::div_mod::lemma_div_denominator;
use crate::bytes::append_bytes;
use crate::bytes::be16;
use crate::bytes::be32;
use crate::hashes::digest;
use crate::hashes::digest_of;
use crate::hashes::valid_width;
use crate::hashes::D_INTR;
use crate::hashes::D_LEAF;
use crate::ots::tagged_prefix;

verus! {

/// The digest stored at a leaf position: Hash(I || u32(node) || D_LEAF ||
/// ots_pub).
pub open spec fn leaf_hash(n: int, id: Seq<u8>, node: int, ots_pub: Seq<u8>) -> Seq<u8> {
    digest_of(n, id + be32(node as u32) + be16(D_LEAF) + ots_pub)
}

/// The digest stored at an interior position: Hash(I || u32(node) || D_INTR
/// || left || right).
pub open spec fn intr_hash(n: int, id: Seq<u8>, node: int, left: Seq<u8>, right: Seq<u8>) -> Seq<
    u8,
> {
    digest_of(n, id + be32(node as u32) + be16(D_INTR) + left + right)
}

/// The node array is a well-formed LMS tree over the given leaf values:
/// 2 * 2^h entries, entry k for k in [2^h, 2^{h+1}) the hash of leaf k - 2^h,
/// entry k for k in [1, 2^h) the hash of its two children.
pub open spec fn tree_wf(n: int, h: int, id: Seq<u8>, leaves: Seq<Seq<u8>>, t: Seq<Seq<u8>>) -> bool {
    &&& t.len() == 2 * pow2(h as nat)
    &&& leaves.len() == pow2(h as nat)
    &&& forall|k: int|
        pow2(h as nat) <= k < 2 * pow2(h as nat) ==> #[trigger] t[k] == leaf_hash(
            n,
            id,
            k,
            leaves[k - pow2(h as nat)],
        )
    &&& forall|k: int|
        1 <= k < pow2(h as nat) ==> #[trigger] t[k] == intr_hash(n, id, k, t[2 * k], t[2 * k + 1])
}

/// The other child of a node's parent.
pub open spec fn sibling(m: int) -> int {
    if m % 2 == 0 {
        m + 1
    } else {
        m - 1
    }
}

/// The siblings passed while climbing `d` levels up from node `m`.
pub open spec fn path_at(t: Seq<Seq<u8>>, m: int, d: int) -> Seq<Seq<u8>> {
    Seq::new(d as nat, |lvl: int| t[sibling(m / (pow2(lvl as nat) as int))])
}

/// The authentication path of leaf q: the siblings from the leaf position up
/// to just below the root.
pub open spec fn auth_path(t: Seq<Seq<u8>>, h: int, q: int) -> Seq<Seq<u8>> {
    path_at(t, pow2(h as nat) + q, h)
}

/// Climbing: hash the current value with each path digest in turn, ordering
/// the pair by which child the current node is, halving the node each time.
pub open spec fn climb(n: int, id: Seq<u8>, node: int, cur: Seq<u8>, path: Seq<Seq<u8>>) -> Seq<u8>
    decreases path.len(),
{
    if path.len() == 0 {
        cur
    } else {
        let parent = node / 2;
        let next = if node % 2 == 1 {
            intr_hash(n, id, parent, path.first(), cur)
        } else {
            intr_hash(n, id, parent, cur, path.first())
        };
        climb(n, id, parent, next, path.drop_first())
    }
}

/// XOR with 1 names the sibling.
pub proof fn lemma_xor1_sibling(m: u32)
    ensures
        (m ^ 1) as int == sibling(m as int),
{
    assert((m % 2 == 0 ==> (m ^ 1) == m + 1) && (m % 2 == 1 ==> (m ^ 1) == m - 1)) by (bit_vector);
}

/// A shift right by one is a halving.
pub proof fn lemma_shr1_half(m: u32)
    ensures
        (m >> 1u32) as int == m as int / 2,
{
    assert(m >> 1u32 == m / 2) by (bit_vector);
}

/// Halving a node keeps it one level higher: from [2^d, 2^{d+1}) into
/// [2^{d-1}, 2^d).
pub proof fn lemma_parent_range(m: int, d: int)
    requires
        1 <= d,
        pow2(d as nat) <= m < 2 * pow2(d as nat),
    ensures
        pow2((d - 1) as nat) <= m / 2 < pow2(d as nat),
    decreases d,
{
    lemma_pow2_unfold(d as nat);
    let half = pow2((d - 1) as nat);
    assert(m / 2 >= half) by (nonlinear_arith)
        requires
            m >= 2 * half,
            0 <= half,
    ;
    assert(m / 2 < 2 * half) by (nonlinear_arith)
        requires
            m < 4 * half,
            0 < half,
    ;
}

/// A node's sibling sits in the same level range.
pub proof fn lemma_sibling_range(m: int, d: int)
    requires
        1 <= d,
        pow2(d as nat) <= m < 2 * pow2(d as nat),
    ensures
        pow2(d as nat) <= sibling(m) < 2 * pow2(d as nat),
{
    lemma_pow2_unfold(d as nat);
}

/// Climbing one level drops the first path entry and halves the node.
pub proof fn lemma_path_at_half(t: Seq<Seq<u8>>, m: int, d: int)
    requires
        1 <= d,
        0 <= m,
    ensures
        path_at(t, m, d).drop_first() =~= path_at(t, m / 2, d - 1),
{
    let a = path_at(t, m, d).drop_first();
    let b = path_at(t, m / 2, d - 1);
    assert forall|lvl: int| 0 <= lvl < d - 1 implies a[lvl] == b[lvl] by {
        lemma_pow2_unfold((lvl + 1) as nat);
        lemma_pow2_pos(lvl as nat);
        lemma_div_denominator(m, 2, pow2(lvl as nat) as int);
        assert(m / (pow2((lvl + 1) as nat) as int) == (m / 2) / (pow2(lvl as nat) as int));
    }
}

/// Climbing from any node of a well-formed tree with its sibling path ends
/// at the root.
pub proof fn lemma_climb_to_root(
    n: int,
    h: int,
    id: Seq<u8>,
    leaves: Seq<Seq<u8>>,
    t: Seq<Seq<u8>>,
    m: int,
    d: int,
)
    requires
        tree_wf(n, h, id, leaves, t),
        0 <= d <= h,
        pow2(d as nat) <= m < 2 * pow2(d as nat),
    ensures
        climb(n, id, m, t[m], path_at(t, m, d)) == t[1],
    decreases d,
{
    lemma2_to64();
    if d == 0 {
        assert(m == 1);
        assert(path_at(t, m, 0).len() == 0);
    } else {
        let parent = m / 2;
        let path = path_at(t, m, d);
        lemma_pow2_pos(0);
        assert(m / (pow2(0) as int) == m);
        assert(path.first() == t[sibling(m)]);
        lemma_parent_range(m, d);
        lemma_pow2_pos((d - 1) as nat);
        lemma_pow2_unfold(d as nat);
        if d < h {
            lemma_pow2_strictly_increases(d as nat, h as nat);
        }
        // The parent is interior: its stored value is the hash of its two
        // children, which are exactly m and its sibling.
        assert(1 <= parent < pow2(h as nat));
        assert(t[parent] == intr_hash(n, id, parent, t[2 * parent], t[2 * parent + 1]));
        let next = if m % 2 == 1 {
            intr_hash(n, id, parent, path.first(), t[m])
        } else {
            intr_hash(n, id, parent, t[m], path.first())
        };
        assert(next == t[parent]);
        lemma_path_at_half(t, m, d);
        lemma_climb_to_root(n, h, id, leaves, t, parent, d - 1);
    }
}

/// Computes 2^e.
pub(crate) fn pow2_usize(e: usize) -> (r: usize)
    requires
        e <= 30,
    ensures
        r as int == pow2(e as nat),
        r >= 1,
{
    proof {
        lemma2_to64();
    }
    let mut r: usize = 1;
    let mut k: usize = 0;
    while k < e
        invariant
            0 <= k <= e <= 30,
            r as int == pow2(k as nat),
        decreases e - k,
    {
        proof {
            lemma2_to64();
            lemma_pow2_strictly_increases((k + 1) as nat, 31nat);
            lemma_pow2_unfold((k + 1) as nat);
        }
        r = r * 2;
        k = k + 1;
    }
    r
}

/// Computes the digest stored at a leaf position.
pub(crate) fn leaf_hash_exec(n: usize, id: &Vec<u8>, node: u32, ots_pub: &Vec<u8>) -> (r: Vec<u8>)
    requires
        valid_width(n as int),
    ensures
        r@ == leaf_hash(n as int, id@, node as int, ots_pub@),
        r@.len() == n,
{
    let mut buf = tagged_prefix(id, node, D_LEAF);
    append_bytes(&mut buf, ots_pub.as_slice());
    proof {
        assert(buf@ =~= id@ + be32(node) + be16(D_LEAF) + ots_pub@);
    }
    digest(n, &buf)
}

/// Computes the digest stored at an interior position.
pub(crate) fn intr_hash_exec(
    n: usize,
    id: &Vec<u8>,
    node: u32,
    left: &Vec<u8>,
    right: &Vec<u8>,
) -> (r: Vec<u8>)
    requires
        valid_width(n as int),
    ensures
        r@ == intr_hash(n as int, id@, node as int, left@, right@),
        r@.len() == n,
{
    let mut buf = tagged_prefix(id, node, D_INTR);
    append_bytes(&mut buf, left.as_slice());
    append_bytes(&mut buf, right.as_slice());
    proof {
        assert(buf@ =~= id@ + be32(node) + be16(D_INTR) + left@ + right@);
    }
    digest(n, &buf)
}

} // verus!
