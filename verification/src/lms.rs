//! The LMS orchestrator (RFC 8554 §5): key generation builds the full tree,
//! signing binds a message to a leaf and its authentication path, and
//! verification reconstructs a candidate root and compares it with the
//! public key.

use vstd::prelude::*;
use vstd::arithmetic::power2::pow2;
use vstd::arithmetic::power2::lemma2_to64;
use vstd::arithmetic::power2::lemma_pow2_pos;
use vstd::arithmetic::power2::lemma_pow2_unfold;
use vstd::arithmetic::power2::lemma_pow2_strictly_increases;
use vstd::arithmetic::div_mod::lemma_div_denominator;
use crate::bytes::clone_bytes;
use crate::bytes::bytes_eq;
use crate::hashes::valid_width;
use crate::merkle::auth_path;
use crate::merkle::climb;
use crate::merkle::intr_hash;
use crate::merkle::intr_hash_exec;
use crate::merkle::leaf_hash;
use crate::merkle::leaf_hash_exec;
use crate::merkle::lemma_climb_to_root;
use crate::merkle::lemma_parent_range;
use crate::merkle::lemma_xor1_sibling;
use crate::merkle::path_at;
use crate::merkle::pow2_usize;
use crate::merkle::sibling;
use crate::merkle::tree_wf;
use crate::ots::calculate_ots_public_key;
use crate::ots::candidate_ots_signature;
use crate::ots::create_lmots_private_key;
use crate::ots::lemma_candidate_recovers_public_key;
use crate::ots::lmots_sign_message;
use crate::ots::ots_candidate;
use crate::ots::ots_public_key;
use crate::ots::ots_sign_y;
use crate::params::get_lmots_parameters;
use crate::params::get_lms_parameters;
use crate::params::lemma_lmots_parameter_facts;
use crate::params::lemma_lms_parameter_facts;
use crate::params::spec_lmots_parameter;
use crate::params::spec_lms_parameters;
use crate::params::LmotsAlgorithmType;
use crate::params::LmsAlgorithmType;
use crate::params::LmsError;
use crate::types::digests_view;
use crate::types::digests_wf;
use crate::types::HashValue;
use crate::types::LmsPublicKey;
use crate::types::LmsSignature;
use crate::types::LmsTree;

verus! {

/// The chain-seed views of every leaf.
pub open spec fn keys_view(ks: Seq<Vec<HashValue>>) -> Seq<Seq<Seq<u8>>> {
    Seq::new(ks.len(), |i: int| digests_view(ks[i]@))
}

/// The LM-OTS public key of every leaf, derived from the tree's stored chain
/// seeds.
pub open spec fn leaves_of(tree: LmsTree) -> Seq<Seq<u8>> {
    let n = spec_lms_parameters(tree.lms_type).0;
    let h = spec_lms_parameters(tree.lms_type).1;
    let param = spec_lmots_parameter(tree.ots_type);
    Seq::new(
        pow2(h as nat),
        |qi: int| ots_public_key(
            n as int,
            param.w as int,
            param.p as int,
            tree.lms_identifier@,
            qi as u32,
            keys_view(tree.private_keys@)[qi],
        ),
    )
}

/// A well-formed private tree: consistent algorithms, a 16-byte identifier,
/// p seeds of width n for each of the 2^h leaves, and a node array that is
/// the Merkle tree over the leaves' one-time public keys.
pub open spec fn tree_valid(tree: LmsTree) -> bool {
    let n = spec_lms_parameters(tree.lms_type).0;
    let h = spec_lms_parameters(tree.lms_type).1;
    let param = spec_lmots_parameter(tree.ots_type);
    &&& !(tree.lms_type is LmsReserved)
    &&& !(tree.ots_type is LmotsReserved)
    &&& param.n == n
    &&& tree.lms_identifier@.len() == 16
    &&& tree.private_keys@.len() == pow2(h as nat)
    &&& forall|qi: int|
        0 <= qi < pow2(h as nat) ==> (#[trigger] tree.private_keys@[qi])@.len() == param.p
    &&& forall|qi: int|
        0 <= qi < pow2(h as nat) ==> digests_wf((#[trigger] tree.private_keys@[qi])@, n as int)
    &&& digests_wf(tree.t_tree@, n as int)
    &&& tree_wf(
        n as int,
        h as int,
        tree.lms_identifier@,
        leaves_of(tree),
        digests_view(tree.t_tree@),
    )
}

/// Draws a fresh 16-byte tree identifier, the initial leaf index 0, and the
/// p chain seeds of each of the 2^h leaves (RFC 8554 §5.2).
pub(crate) fn create_lms_private_keys(tree_height: u8, ots_type: &LmotsAlgorithmType) -> (r: (
    Vec<u8>,
    u32,
    Vec<Vec<HashValue>>,
))
    requires
        !(*ots_type is LmotsReserved),
        tree_height <= 25,
    ensures
        r.0@.len() == 16,
        r.1 == 0,
        r.2@.len() == pow2(tree_height as nat),
        forall|j: int|
            0 <= j < r.2@.len() ==> (#[trigger] r.2@[j])@.len() == spec_lmots_parameter(
                *ots_type,
            ).p,
        forall|j: int|
            0 <= j < r.2@.len() ==> digests_wf(
                (#[trigger] r.2@[j])@,
                spec_lmots_parameter(*ots_type).n as int,
            ),
{
    let num_leaves = pow2_usize(tree_height as usize);
    let lms_identifier = crate::rng::random_bytes_16();
    let mut ots_private: Vec<Vec<HashValue>> = Vec::new();
    let mut qi: usize = 0;
    while qi < num_leaves
        invariant
            !(*ots_type is LmotsReserved),
            0 <= qi <= num_leaves,
            ots_private@.len() == qi,
            forall|j: int|
                0 <= j < qi ==> (#[trigger] ots_private@[j])@.len() == spec_lmots_parameter(
                    *ots_type,
                ).p,
            forall|j: int|
                0 <= j < qi ==> digests_wf(
                    (#[trigger] ots_private@[j])@,
                    spec_lmots_parameter(*ots_type).n as int,
                ),
        decreases num_leaves - qi,
    {
        ots_private.push(create_lmots_private_key(ots_type));
        qi = qi + 1;
    }
    (lms_identifier, 0, ots_private)
}

/// Builds a fresh LMS tree: draws the identifier and all chain seeds, derives
/// every leaf's one-time public key, and hashes the tree up to the root
/// (RFC 8554 §5.2, §5.3). The two algorithms must agree on the digest width.
pub fn create_lms_tree(lms_type: &LmsAlgorithmType, ots_type: &LmotsAlgorithmType) -> (r: Result<
    (LmsPublicKey, LmsTree),
    LmsError,
>)
    ensures
        ({
            let n = spec_lms_parameters(*lms_type).0;
            let param = spec_lmots_parameter(*ots_type);
            &&& (r is Ok <==> !(*lms_type is LmsReserved) && !(*ots_type is LmotsReserved)
                && param.n == n)
            &&& (*lms_type is LmsReserved ==> r == Result::<
                (LmsPublicKey, LmsTree),
                LmsError,
            >::Err(LmsError::InvalidLms))
            &&& (!(*lms_type is LmsReserved) && *ots_type is LmotsReserved ==> r == Result::<
                (LmsPublicKey, LmsTree),
                LmsError,
            >::Err(LmsError::InvalidOts))
            &&& (!(*lms_type is LmsReserved) && !(*ots_type is LmotsReserved) && param.n != n
                ==> r == Result::<(LmsPublicKey, LmsTree), LmsError>::Err(LmsError::AlgMismatch))
            &&& (r is Ok ==> {
                let pk = r->Ok_0.0;
                let tree = r->Ok_0.1;
                &&& tree_valid(tree)
                &&& tree.lms_type == *lms_type
                &&& tree.ots_type == *ots_type
                &&& tree.q == 0
                &&& pk.lms_type == *lms_type
                &&& pk.ots_type == *ots_type
                &&& pk.lms_identifier@ == tree.lms_identifier@
                &&& pk.lms_identifier@.len() == 16
                &&& pk.root@ == digests_view(tree.t_tree@)[1]
                &&& pk.root@.len() == n
            })
        }),
{
    let (n8, h8) = match get_lms_parameters(lms_type) {
        Ok(v) => v,
        Err(e) => {
            return Err(e);
        },
    };
    let param = match get_lmots_parameters(ots_type) {
        Ok(v) => v,
        Err(e) => {
            return Err(e);
        },
    };
    if param.n != n8 {
        return Err(LmsError::AlgMismatch);
    }
    proof {
        lemma_lms_parameter_facts(*lms_type);
        lemma_lmots_parameter_facts(*ots_type);
        lemma2_to64();
        lemma_pow2_strictly_increases(spec_lms_parameters(*lms_type).1 as nat, 26nat);
    }
    let n = n8 as usize;
    let h = h8 as usize;
    let num_leaves = pow2_usize(h);
    let (id, initial_q, private_keys) = create_lms_private_keys(h8, ots_type);
    let ghost leaves = Seq::new(
        num_leaves as nat,
        |j: int| ots_public_key(
            n as int,
            param.w as int,
            param.p as int,
            id@,
            j as u32,
            keys_view(private_keys@)[j],
        ),
    );
    // Allocate the node array; position 0 stays a placeholder.
    let mut t_tree: Vec<HashValue> = Vec::new();
    let num_nodes = 2 * num_leaves;
    let mut j: usize = 0;
    while j < num_nodes
        invariant
            valid_width(n as int),
            0 <= j <= num_nodes,
            t_tree@.len() == j,
            digests_wf(t_tree@, n as int),
        decreases num_nodes - j,
    {
        t_tree.push(HashValue::new(crate::bytes::zero_bytes(n)));
        j = j + 1;
    }
    // Fill the leaves.
    let mut qi: usize = 0;
    while qi < num_leaves
        invariant
            !(*ots_type is LmotsReserved),
            param == spec_lmots_parameter(*ots_type),
            valid_width(n as int),
            n == param.n,
            num_leaves as int == pow2(h as nat),
            num_leaves < 0x4000000,
            private_keys@.len() == num_leaves,
            forall|j: int|
                0 <= j < num_leaves ==> (#[trigger] private_keys@[j])@.len() == param.p,
            forall|j: int|
                0 <= j < num_leaves ==> digests_wf((#[trigger] private_keys@[j])@, n as int),
            leaves == Seq::new(
                num_leaves as nat,
                |j: int| ots_public_key(
                    n as int,
                    param.w as int,
                    param.p as int,
                    id@,
                    j as u32,
                    keys_view(private_keys@)[j],
                ),
            ),
            t_tree@.len() == 2 * num_leaves,
            digests_wf(t_tree@, n as int),
            0 <= qi <= num_leaves,
            forall|k: int|
                num_leaves <= k < num_leaves + qi ==> (#[trigger] t_tree@[k])@ == leaf_hash(
                    n as int,
                    id@,
                    k,
                    leaves[k - num_leaves],
                ),
        decreases num_leaves - qi,
    {
        let ots_pub = calculate_ots_public_key(ots_type, &id, qi as u32, &private_keys[qi]);
        let node = (num_leaves + qi) as u32;
        let leaf = leaf_hash_exec(n, &id, node, &ots_pub.value);
        t_tree.set(num_leaves + qi, HashValue::new(leaf));
        proof {
            assert(keys_view(private_keys@)[qi as int] == digests_view(
                private_keys@[qi as int]@,
            ));
            assert(t_tree@[num_leaves + qi]@ == leaf_hash(
                n as int,
                id@,
                num_leaves + qi,
                leaves[qi as int],
            ));
        }
        qi = qi + 1;
    }
    // Hash the interior nodes, children before parents.
    let mut k: usize = num_leaves;
    while k > 1
        invariant
            valid_width(n as int),
            num_leaves as int == pow2(h as nat),
            1 <= num_leaves < 0x4000000,
            t_tree@.len() == 2 * num_leaves,
            digests_wf(t_tree@, n as int),
            1 <= k <= num_leaves,
            forall|j: int|
                num_leaves <= j < 2 * num_leaves ==> (#[trigger] t_tree@[j])@ == leaf_hash(
                    n as int,
                    id@,
                    j,
                    leaves[j - num_leaves],
                ),
            forall|j: int|
                k <= j < num_leaves ==> (#[trigger] t_tree@[j])@ == intr_hash(
                    n as int,
                    id@,
                    j,
                    t_tree@[2 * j]@,
                    t_tree@[2 * j + 1]@,
                ),
        decreases k,
    {
        let k1 = k - 1;
        let v = intr_hash_exec(n, &id, k1 as u32, &t_tree[2 * k1].value, &t_tree[2 * k1 + 1].value);
        t_tree.set(k1, HashValue::new(v));
        k = k1;
    }
    let tree = LmsTree {
        lms_type: *lms_type,
        ots_type: *ots_type,
        lms_identifier: id,
        q: initial_q,
        t_tree,
        private_keys,
    };
    let root = tree.t_tree[1].dup();
    let pk = LmsPublicKey {
        lms_type: *lms_type,
        ots_type: *ots_type,
        lms_identifier: clone_bytes(&tree.lms_identifier),
        root,
    };
    proof {
        lemma_pow2_pos(h as nat);
        assert(leaves_of(tree) =~= leaves);
        let tv = digests_view(tree.t_tree@);
        assert forall|kk: int|
            pow2(h as nat) <= kk < 2 * pow2(h as nat) implies #[trigger] tv[kk] == leaf_hash(
            n as int,
            tree.lms_identifier@,
            kk,
            leaves_of(tree)[kk - pow2(h as nat)],
        ) by {
            assert(tv[kk] == tree.t_tree@[kk]@);
        }
        assert forall|kk: int| 1 <= kk < pow2(h as nat) implies #[trigger] tv[kk] == intr_hash(
            n as int,
            tree.lms_identifier@,
            kk,
            tv[2 * kk],
            tv[2 * kk + 1],
        ) by {
            assert(tv[kk] == tree.t_tree@[kk]@);
            assert(tv[2 * kk] == tree.t_tree@[2 * kk]@);
            assert(tv[2 * kk + 1] == tree.t_tree@[2 * kk + 1]@);
        }
        assert(tree_wf(
            n as int,
            h as int,
            tree.lms_identifier@,
            leaves_of(tree),
            digests_view(tree.t_tree@),
        ));
    }
    Ok((pk, tree))
}

/// Which error signing an LMS message gives, if any: reserved or disagreeing
/// algorithms, a leaf index outside the tree, or key and tree material whose
/// counts or widths do not fit the parameters.
pub open spec fn spec_sign_check(
    ots_type: LmotsAlgorithmType,
    lms_type: LmsAlgorithmType,
    private_key: Seq<HashValue>,
    q: u32,
    tree: LmsTree,
) -> Result<(), LmsError> {
    let n = spec_lms_parameters(lms_type).0;
    let h = spec_lms_parameters(lms_type).1;
    let param = spec_lmots_parameter(ots_type);
    if ots_type is LmotsReserved {
        Err(LmsError::InvalidOts)
    } else if lms_type is LmsReserved {
        Err(LmsError::InvalidLms)
    } else if param.n != n {
        Err(LmsError::AlgMismatch)
    } else if q as int >= pow2(h as nat) {
        Err(LmsError::QOutOfRange)
    } else if private_key.len() != param.p || !digests_wf(private_key, n as int) {
        Err(LmsError::BadLength)
    } else if tree.t_tree@.len() != 2 * pow2(h as nat) || !digests_wf(tree.t_tree@, n as int) {
        Err(LmsError::BadLength)
    } else {
        Ok(())
    }
}

/// Signs a message with leaf q of a tree (RFC 8554 §5.4): a one-time
/// signature under the leaf's chain seeds, plus the authentication path of q.
/// Both algorithm identifiers are echoed into the signature.
pub fn lms_sign_message(
    algo_type: &LmotsAlgorithmType,
    lms_type: &LmsAlgorithmType,
    input_string: &[u8],
    private_key: &Vec<HashValue>,
    q: u32,
    tree: &LmsTree,
) -> (r: Result<LmsSignature, LmsError>)
    ensures
        ({
            let n = spec_lms_parameters(*lms_type).0;
            let h = spec_lms_parameters(*lms_type).1;
            let param = spec_lmots_parameter(*algo_type);
            let check = spec_sign_check(*algo_type, *lms_type, private_key@, q, *tree);
            &&& (r is Ok <==> check is Ok)
            &&& (r is Err ==> check is Err && r->Err_0 == check->Err_0)
            &&& (r is Ok ==> {
                let sig = r->Ok_0;
                &&& sig.q == q
                &&& sig.sig_type == *lms_type
                &&& sig.lmots_signature.ots_type == *algo_type
                &&& sig.lmots_signature.nonce@.len() == 32
                &&& sig.lmots_signature.y@.len() == param.p
                &&& digests_wf(sig.lmots_signature.y@, n as int)
                &&& digests_view(sig.lmots_signature.y@) == ots_sign_y(
                    n as int,
                    param.w as int,
                    param.p as int,
                    param.ls as int,
                    tree.lms_identifier@,
                    q,
                    digests_view(private_key@),
                    sig.lmots_signature.nonce@,
                    input_string@,
                )
                &&& sig.lms_path@.len() == h
                &&& digests_wf(sig.lms_path@, n as int)
                &&& digests_view(sig.lms_path@) == auth_path(
                    digests_view(tree.t_tree@),
                    h as int,
                    q as int,
                )
            })
        }),
{
    if matches!(algo_type, LmotsAlgorithmType::LmotsReserved) {
        return Err(LmsError::InvalidOts);
    }
    let (n8, h8) = match get_lms_parameters(lms_type) {
        Ok(v) => v,
        Err(e) => {
            return Err(e);
        },
    };
    let param = match get_lmots_parameters(algo_type) {
        Ok(v) => v,
        Err(e) => {
            return Err(e);
        },
    };
    if param.n != n8 {
        return Err(LmsError::AlgMismatch);
    }
    proof {
        lemma_lms_parameter_facts(*lms_type);
        lemma_lmots_parameter_facts(*algo_type);
        lemma2_to64();
        lemma_pow2_strictly_increases(h8 as nat, 26nat);
    }
    let n = n8 as usize;
    let h = h8 as usize;
    let num_leaves = pow2_usize(h);
    if q as usize >= num_leaves {
        return Err(LmsError::QOutOfRange);
    }
    if private_key.len() != param.p as usize
        || !crate::types::check_digest_widths(private_key, n) {
        return Err(LmsError::BadLength);
    }
    if tree.t_tree.len() != 2 * num_leaves
        || !crate::types::check_digest_widths(&tree.t_tree, n) {
        return Err(LmsError::BadLength);
    }
    let lmots_sig = match lmots_sign_message(
        algo_type,
        input_string,
        private_key,
        &tree.lms_identifier,
        q,
    ) {
        Ok(s) => s,
        Err(e) => {
            proof {
                assert(false);
            }
            return Err(e);
        },
    };
    let ghost tview = digests_view(tree.t_tree@);
    let ghost ap = auth_path(tview, h as int, q as int);
    let ghost start = pow2(h as nat) + q;
    let mut path: Vec<HashValue> = Vec::new();
    let mut node: u32 = (num_leaves as u32) + q;
    let mut lvl: usize = 0;
    proof {
        lemma_pow2_pos(0);
        assert(start / (pow2(0) as int) == start);
    }
    while lvl < h
        invariant
            valid_width(n as int),
            tview == digests_view(tree.t_tree@),
            tree.t_tree@.len() == 2 * pow2(h as nat),
            digests_wf(tree.t_tree@, n as int),
            ap == auth_path(tview, h as int, q as int),
            ap == crate::merkle::path_at(tview, start, h as int),
            start == pow2(h as nat) + q,
            h <= 25,
            0 <= lvl <= h,
            node as int == start / (pow2(lvl as nat) as int),
            pow2((h - lvl) as nat) <= node as int,
            (node as int) < 2 * pow2((h - lvl) as nat),
            path@.len() == lvl,
            digests_wf(path@, n as int),
            forall|k: int| 0 <= k < lvl ==> (#[trigger] path@[k])@ == ap[k],
        decreases h - lvl,
    {
        let d = h - lvl;
        proof {
            lemma_xor1_sibling(node);
            crate::merkle::lemma_sibling_range(node as int, d as int);
            if d < h {
                lemma_pow2_strictly_increases(d as nat, h as nat);
            }
        }
        let sib = node ^ 1;
        path.push(tree.t_tree[sib as usize].dup());
        proof {
            assert(ap[lvl as int] == tview[sibling(start / (pow2(lvl as nat) as int))]);
            assert(tview[sib as int] == tree.t_tree@[sib as int]@);
        }
        let next = node >> 1;
        proof {
            crate::merkle::lemma_shr1_half(node);
            lemma_pow2_pos(lvl as nat);
            lemma_pow2_unfold((lvl + 1) as nat);
            lemma_pow2_unfold(d as nat);
            lemma_div_denominator(start, pow2(lvl as nat) as int, 2);
            lemma_parent_range(node as int, d as int);
        }
        node = next;
        lvl = lvl + 1;
    }
    Ok(
        LmsSignature {
            q,
            lmots_signature: lmots_sig,
            sig_type: *lms_type,
            lms_path: path,
        },
    )
}

/// Which error verifying an LMS signature gives, if any: reserved public-key
/// algorithms, identifiers on the signature that disagree with the public
/// key, a leaf index outside the tree, or counts and widths that do not fit
/// the parameters.
pub open spec fn spec_verify_check(pk: LmsPublicKey, sig: LmsSignature) -> Result<(), LmsError> {
    let n = spec_lms_parameters(pk.lms_type).0;
    let h = spec_lms_parameters(pk.lms_type).1;
    let param = spec_lmots_parameter(pk.ots_type);
    if pk.lms_type is LmsReserved {
        Err(LmsError::InvalidLms)
    } else if pk.ots_type is LmotsReserved {
        Err(LmsError::InvalidOts)
    } else if param.n != n {
        Err(LmsError::AlgMismatch)
    } else if sig.sig_type != pk.lms_type || sig.lmots_signature.ots_type != pk.ots_type {
        Err(LmsError::AlgMismatch)
    } else if sig.q as int >= pow2(h as nat) {
        Err(LmsError::QOutOfRange)
    } else if sig.lms_path@.len() != h || !digests_wf(sig.lms_path@, n as int)
        || sig.lmots_signature.y@.len() != param.p
        || !digests_wf(sig.lmots_signature.y@, n as int) {
        Err(LmsError::BadLength)
    } else {
        Ok(())
    }
}

/// Whether a well-formed signature is accepted: the candidate root, rebuilt
/// from the reconstructed one-time key and the authentication path, equals
/// the public key's root.
pub open spec fn spec_verify_result(pk: LmsPublicKey, sig: LmsSignature, msg: Seq<u8>) -> bool {
    let n = spec_lms_parameters(pk.lms_type).0 as int;
    let h = spec_lms_parameters(pk.lms_type).1;
    let param = spec_lmots_parameter(pk.ots_type);
    let node = pow2(h as nat) + sig.q;
    let cand = ots_candidate(
        n,
        param.w as int,
        param.p as int,
        param.ls as int,
        pk.lms_identifier@,
        sig.q,
        sig.lmots_signature.nonce@,
        digests_view(sig.lmots_signature.y@),
        msg,
    );
    climb(
        n,
        pk.lms_identifier@,
        node as int,
        leaf_hash(n, pk.lms_identifier@, node as int, cand),
        digests_view(sig.lms_path@),
    ) == pk.root@
}

/// Verifies an LMS signature against a public key (RFC 8554 §5.6): structural
/// errors surface as Err, and a well-formed but wrong signature as Ok(false).
pub fn verify_lms_signature(
    input_string: &[u8],
    lms_public_key: &LmsPublicKey,
    lms_sig: &LmsSignature,
) -> (r: Result<bool, LmsError>)
    ensures
        ({
            let check = spec_verify_check(*lms_public_key, *lms_sig);
            &&& (r is Ok <==> check is Ok)
            &&& (r is Err ==> check is Err && r->Err_0 == check->Err_0)
            &&& (r is Ok ==> r->Ok_0 == spec_verify_result(
                *lms_public_key,
                *lms_sig,
                input_string@,
            ))
        }),
{
    if matches!(lms_public_key.lms_type, LmsAlgorithmType::LmsReserved) {
        return Err(LmsError::InvalidLms);
    }
    let (n8, h8) = match get_lms_parameters(&lms_public_key.lms_type) {
        Ok(v) => v,
        Err(e) => {
            return Err(e);
        },
    };
    let param = match get_lmots_parameters(&lms_public_key.ots_type) {
        Ok(v) => v,
        Err(_) => {
            return Err(LmsError::InvalidOts);
        },
    };
    if param.n != n8 {
        return Err(LmsError::AlgMismatch);
    }
    if !(lms_sig.sig_type == lms_public_key.lms_type) || !(lms_sig.lmots_signature.ots_type
        == lms_public_key.ots_type) {
        return Err(LmsError::AlgMismatch);
    }
    proof {
        lemma_lms_parameter_facts(lms_public_key.lms_type);
        lemma_lmots_parameter_facts(lms_public_key.ots_type);
        lemma2_to64();
        lemma_pow2_strictly_increases(h8 as nat, 26nat);
    }
    let n = n8 as usize;
    let h = h8 as usize;
    let num_leaves = pow2_usize(h);
    if lms_sig.q as usize >= num_leaves {
        return Err(LmsError::QOutOfRange);
    }
    if lms_sig.lms_path.len() != h
        || !crate::types::check_digest_widths(&lms_sig.lms_path, n)
        || lms_sig.lmots_signature.y.len() != param.p as usize
        || !crate::types::check_digest_widths(&lms_sig.lmots_signature.y, n) {
        return Err(LmsError::BadLength);
    }
    let candidate = candidate_ots_signature(
        &lms_public_key.ots_type,
        &lms_public_key.lms_identifier,
        lms_sig.q,
        &lms_sig.lmots_signature,
        input_string,
    );
    let node0: u32 = (num_leaves as u32) + lms_sig.q;
    let mut cur = leaf_hash_exec(n, &lms_public_key.lms_identifier, node0, &candidate.value);
    let ghost pathv = digests_view(lms_sig.lms_path@);
    let ghost cur0 = cur@;
    let mut node: u32 = node0;
    let mut lvl: usize = 0;
    proof {
        assert(pathv.skip(0) =~= pathv);
    }
    while lvl < h
        invariant
            valid_width(n as int),
            pathv == digests_view(lms_sig.lms_path@),
            lms_sig.lms_path@.len() == h,
            digests_wf(lms_sig.lms_path@, n as int),
            0 <= lvl <= h,
            cur@.len() == n,
            climb(n as int, lms_public_key.lms_identifier@, node0 as int, cur0, pathv) == climb(
                n as int,
                lms_public_key.lms_identifier@,
                node as int,
                cur@,
                pathv.skip(lvl as int),
            ),
        decreases h - lvl,
    {
        let parent = node / 2;
        proof {
            assert(pathv.skip(lvl as int).first() == pathv[lvl as int]);
            assert(pathv[lvl as int] == lms_sig.lms_path@[lvl as int]@);
            assert(pathv.skip(lvl as int).drop_first() =~= pathv.skip(lvl as int + 1));
        }
        if node % 2 == 1 {
            cur = intr_hash_exec(
                n,
                &lms_public_key.lms_identifier,
                parent,
                &lms_sig.lms_path[lvl].value,
                &cur,
            );
        } else {
            cur = intr_hash_exec(
                n,
                &lms_public_key.lms_identifier,
                parent,
                &cur,
                &lms_sig.lms_path[lvl].value,
            );
        }
        node = parent;
        lvl = lvl + 1;
    }
    proof {
        assert(pathv.skip(h as int) =~= Seq::<Seq<u8>>::empty());
    }
    Ok(bytes_eq(&cur, &lms_public_key.root.value))
}

/// A signature that signing produced for an in-range leaf of a well-formed
/// tree verifies against the tree's public key: the structural checks pass
/// and the reconstructed root equals the stored root, whatever the message
/// and randomizer were.
pub proof fn lemma_sign_then_verify(
    tree: LmsTree,
    pk: LmsPublicKey,
    sig: LmsSignature,
    msg: Seq<u8>,
)
    requires
        tree_valid(tree),
        pk.lms_type == tree.lms_type,
        pk.ots_type == tree.ots_type,
        pk.lms_identifier@ == tree.lms_identifier@,
        pk.root@ == digests_view(tree.t_tree@)[1],
        (sig.q as int) < pow2(spec_lms_parameters(tree.lms_type).1 as nat),
        sig.sig_type == tree.lms_type,
        sig.lmots_signature.ots_type == tree.ots_type,
        sig.lmots_signature.y@.len() == spec_lmots_parameter(tree.ots_type).p,
        digests_wf(sig.lmots_signature.y@, spec_lms_parameters(tree.lms_type).0 as int),
        sig.lms_path@.len() == spec_lms_parameters(tree.lms_type).1,
        digests_wf(sig.lms_path@, spec_lms_parameters(tree.lms_type).0 as int),
        digests_view(sig.lmots_signature.y@) == ots_sign_y(
            spec_lms_parameters(tree.lms_type).0 as int,
            spec_lmots_parameter(tree.ots_type).w as int,
            spec_lmots_parameter(tree.ots_type).p as int,
            spec_lmots_parameter(tree.ots_type).ls as int,
            tree.lms_identifier@,
            sig.q,
            keys_view(tree.private_keys@)[sig.q as int],
            sig.lmots_signature.nonce@,
            msg,
        ),
        digests_view(sig.lms_path@) == auth_path(
            digests_view(tree.t_tree@),
            spec_lms_parameters(tree.lms_type).1 as int,
            sig.q as int,
        ),
    ensures
        spec_verify_check(pk, sig) is Ok,
        spec_verify_result(pk, sig, msg),
{
    let n = spec_lms_parameters(tree.lms_type).0 as int;
    let h = spec_lms_parameters(tree.lms_type).1;
    let param = spec_lmots_parameter(tree.ots_type);
    let id = tree.lms_identifier@;
    let tv = digests_view(tree.t_tree@);
    let x = keys_view(tree.private_keys@)[sig.q as int];
    lemma_lmots_parameter_facts(tree.ots_type);
    lemma_candidate_recovers_public_key(
        n,
        param.w as int,
        param.p as int,
        param.ls as int,
        id,
        sig.q,
        x,
        sig.lmots_signature.nonce@,
        msg,
    );
    let cand = ots_candidate(
        n,
        param.w as int,
        param.p as int,
        param.ls as int,
        id,
        sig.q,
        sig.lmots_signature.nonce@,
        digests_view(sig.lmots_signature.y@),
        msg,
    );
    assert(cand == ots_public_key(n, param.w as int, param.p as int, id, sig.q, x));
    assert(cand == leaves_of(tree)[sig.q as int]);
    let node = pow2(h as nat) + sig.q;
    lemma_pow2_pos(h as nat);
    assert(tv[node as int] == leaf_hash(n, id, node as int, leaves_of(tree)[sig.q as int]));
    lemma_climb_to_root(
        n,
        h as int,
        id,
        leaves_of(tree),
        tv,
        node as int,
        h as int,
    );
}

} // verus!
