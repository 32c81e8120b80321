//! The LM-OTS hash-chain engine (RFC 8554 §4): chain stepping, one-time
//! public-key derivation, message signing, and candidate-key reconstruction.

use vstd::prelude::*;
use vstd::arithmetic::power2::pow2;
use vstd::arithmetic::power2::lemma2_to64;
use crate::bytes::append_bytes;
use crate::bytes::be16;
use crate::bytes::be32;
use crate::bytes::clone_bytes;
use crate::bytes::u16str;
use crate::bytes::u32str;
use crate::bytes::u8str;
use crate::coefs::coef;
use crate::coefs::coefficient;
use crate::coefs::checksum;
use crate::coefs::lemma_coef_range;
use crate::coefs::spec_checksum;
use crate::coefs::valid_w;
use crate::hashes::digest;
use crate::hashes::digest_of;
use crate::hashes::valid_width;
use crate::hashes::D_MESG;
use crate::hashes::D_PBLC;
use crate::params::lemma_lmots_parameter_facts;
use crate::params::lmots_parameter_of;
use crate::params::spec_lmots_parameter;
use crate::params::LmotsAlgorithmType;
use crate::params::LmsError;
use crate::types::digests_view;
use crate::types::digests_wf;
use crate::types::HashValue;
use crate::types::LmotsSignature;

verus! {

/// One step of a Winternitz chain: hashing I, the leaf index, the chain
/// position i, the step number j, and the running value.
pub open spec fn chain_step(n: int, id: Seq<u8>, q: u32, i: u16, j: u8, cur: Seq<u8>) -> Seq<u8> {
    digest_of(n, id + be32(q) + be16(i) + seq![j] + cur)
}

/// The chain value after stepping from step `lo` up to (excluding) step `hi`.
pub open spec fn chain(n: int, id: Seq<u8>, q: u32, i: u16, lo: int, hi: int, cur: Seq<u8>) -> Seq<
    u8,
>
    decreases hi - lo,
{
    if hi <= lo {
        cur
    } else {
        chain(n, id, q, i, lo + 1, hi, chain_step(n, id, q, i, lo as u8, cur))
    }
}

/// Chains compose: stepping to `mid` and on to `hi` is stepping to `hi`.
pub proof fn lemma_chain_split(
    n: int,
    id: Seq<u8>,
    q: u32,
    i: u16,
    lo: int,
    mid: int,
    hi: int,
    cur: Seq<u8>,
)
    requires
        lo <= mid <= hi,
    ensures
        chain(n, id, q, i, mid, hi, chain(n, id, q, i, lo, mid, cur)) == chain(
            n,
            id,
            q,
            i,
            lo,
            hi,
            cur,
        ),
    decreases mid - lo,
{
    if lo < mid {
        lemma_chain_split(n, id, q, i, lo + 1, mid, hi, chain_step(n, id, q, i, lo as u8, cur));
    }
}

/// All the byte strings of a sequence, concatenated in order.
pub open spec fn concat_all(ys: Seq<Seq<u8>>) -> Seq<u8>
    decreases ys.len(),
{
    if ys.len() == 0 {
        Seq::empty()
    } else {
        concat_all(ys.drop_last()) + ys.last()
    }
}

/// Concatenating one more string extends the concatenation by it.
pub proof fn lemma_concat_all_take_step(ys: Seq<Seq<u8>>, i: int)
    requires
        0 <= i < ys.len(),
    ensures
        concat_all(ys.take(i + 1)) == concat_all(ys.take(i)) + ys[i],
{
    assert(ys.take(i + 1).drop_last() =~= ys.take(i));
    assert(ys.take(i + 1).last() == ys[i]);
}

/// The concatenation of `count` strings of width `n` has length `count * n`.
pub proof fn lemma_concat_all_len(ys: Seq<Seq<u8>>, n: int)
    requires
        forall|i: int| 0 <= i < ys.len() ==> (#[trigger] ys[i]).len() == n,
    ensures
        concat_all(ys).len() == ys.len() * n,
    decreases ys.len(),
{
    if ys.len() > 0 {
        lemma_concat_all_len(ys.drop_last(), n);
        assert((ys.len() - 1) * n + n == ys.len() as int * n) by (nonlinear_arith);
    }
}

/// Two sequences of strings of one width with the same concatenation are the
/// same sequence.
pub proof fn lemma_concat_all_injective(ys: Seq<Seq<u8>>, zs: Seq<Seq<u8>>, n: int)
    requires
        ys.len() == zs.len(),
        forall|i: int| 0 <= i < ys.len() ==> (#[trigger] ys[i]).len() == n,
        forall|i: int| 0 <= i < zs.len() ==> (#[trigger] zs[i]).len() == n,
        concat_all(ys) == concat_all(zs),
    ensures
        ys =~= zs,
    decreases ys.len(),
{
    if ys.len() > 0 {
        lemma_concat_all_len(ys.drop_last(), n);
        lemma_concat_all_len(zs.drop_last(), n);
        assert(ys.last() =~= zs.last()) by {
            let a = concat_all(ys.drop_last());
            let b = concat_all(zs.drop_last());
            assert(a.len() == b.len());
            assert forall|k: int| 0 <= k < n implies ys.last()[k] == zs.last()[k] by {
                assert(concat_all(ys)[a.len() + k] == ys.last()[k]);
                assert(concat_all(zs)[b.len() + k] == zs.last()[k]);
            }
        }
        assert(concat_all(ys.drop_last()) =~= concat_all(zs.drop_last())) by {
            let a = concat_all(ys.drop_last());
            let b = concat_all(zs.drop_last());
            assert forall|k: int| 0 <= k < a.len() implies a[k] == b[k] by {
                assert(concat_all(ys)[k] == a[k]);
                assert(concat_all(zs)[k] == b[k]);
            }
        }
        lemma_concat_all_injective(ys.drop_last(), zs.drop_last(), n);
        assert(ys =~= zs) by {
            assert(forall|i: int|
                0 <= i < ys.len() - 1 ==> #[trigger] ys[i] == ys.drop_last()[i]
                    && zs[i] == zs.drop_last()[i]);
        }
    }
}

/// The end of each of the p chains, stepped all the way from its seed.
pub open spec fn ots_chain_ends(
    n: int,
    w: int,
    p: int,
    id: Seq<u8>,
    q: u32,
    x: Seq<Seq<u8>>,
) -> Seq<Seq<u8>> {
    Seq::new(p as nat, |i: int| chain(n, id, q, i as u16, 0, pow2(w as nat) - 1, x[i]))
}

/// The LM-OTS public key derived from the chain seeds of one leaf
/// (RFC 8554 §4.3).
pub open spec fn ots_public_key(
    n: int,
    w: int,
    p: int,
    id: Seq<u8>,
    q: u32,
    x: Seq<Seq<u8>>,
) -> Seq<u8> {
    digest_of(n, id + be32(q) + be16(D_PBLC) + concat_all(ots_chain_ends(n, w, p, id, q, x)))
}

/// The randomized message hash Q (RFC 8554 §4.5).
pub open spec fn msg_hash(n: int, id: Seq<u8>, q: u32, c: Seq<u8>, msg: Seq<u8>) -> Seq<u8> {
    digest_of(n, id + be32(q) + be16(D_MESG) + c + msg)
}

/// Q with its two checksum bytes appended: the n+2 byte string whose w-bit
/// coefficients select the chain lengths.
pub open spec fn msg_hash_with_checksum(
    n: int,
    w: int,
    ls: int,
    id: Seq<u8>,
    q: u32,
    c: Seq<u8>,
    msg: Seq<u8>,
) -> Seq<u8> {
    let qh = msg_hash(n, id, q, c, msg);
    qh + be16(spec_checksum(n, w, ls, qh))
}

/// The y values of an LM-OTS signature: chain i stepped from its seed up to
/// the i-th coefficient of the checksummed message hash.
pub open spec fn ots_sign_y(
    n: int,
    w: int,
    p: int,
    ls: int,
    id: Seq<u8>,
    q: u32,
    x: Seq<Seq<u8>>,
    c: Seq<u8>,
    msg: Seq<u8>,
) -> Seq<Seq<u8>> {
    let qc = msg_hash_with_checksum(n, w, ls, id, q, c, msg);
    Seq::new(p as nat, |i: int| chain(n, id, q, i as u16, 0, coef(qc, i, w) as int, x[i]))
}

/// The candidate public key reconstructed from a signature and a message:
/// each chain is stepped from its coefficient on to the top, and the ends are
/// hashed as in key derivation (RFC 8554 §4.6).
pub open spec fn ots_candidate(
    n: int,
    w: int,
    p: int,
    ls: int,
    id: Seq<u8>,
    q: u32,
    c: Seq<u8>,
    y: Seq<Seq<u8>>,
    msg: Seq<u8>,
) -> Seq<u8> {
    let qc = msg_hash_with_checksum(n, w, ls, id, q, c, msg);
    digest_of(
        n,
        id + be32(q) + be16(D_PBLC) + concat_all(
            Seq::new(
                p as nat,
                |i: int| chain(n, id, q, i as u16, coef(qc, i, w) as int, pow2(w as nat) - 1, y[i]),
            ),
        ),
    )
}

/// Reconstruction inverts signing: the candidate key computed from a
/// signature made with the seeds `x` is the public key of `x`, whatever the
/// message and randomizer were.
pub proof fn lemma_candidate_recovers_public_key(
    n: int,
    w: int,
    p: int,
    ls: int,
    id: Seq<u8>,
    q: u32,
    x: Seq<Seq<u8>>,
    c: Seq<u8>,
    msg: Seq<u8>,
)
    requires
        valid_w(w),
        0 <= p,
    ensures
        ots_candidate(n, w, p, ls, id, q, c, ots_sign_y(n, w, p, ls, id, q, x, c, msg), msg)
            == ots_public_key(n, w, p, id, q, x),
{
    let qc = msg_hash_with_checksum(n, w, ls, id, q, c, msg);
    let ys = ots_sign_y(n, w, p, ls, id, q, x, c, msg);
    let zs = Seq::new(
        p as nat,
        |i: int| chain(n, id, q, i as u16, coef(qc, i, w) as int, pow2(w as nat) - 1, ys[i]),
    );
    let ends = ots_chain_ends(n, w, p, id, q, x);
    assert forall|i: int| 0 <= i < p implies zs[i] == ends[i] by {
        lemma_coef_range(qc, i, w);
        lemma_chain_split(
            n,
            id,
            q,
            i as u16,
            0,
            coef(qc, i, w) as int,
            pow2(w as nat) - 1,
            x[i],
        );
    }
    assert(zs =~= ends);
}

/// 2^w - 1 as a byte: the top coefficient value and chain length.
pub(crate) fn pow2w_minus_1(w: usize) -> (r: u8)
    requires
        valid_w(w as int),
    ensures
        r as int == pow2(w as nat) - 1,
{
    proof {
        lemma2_to64();
    }
    if w == 1 {
        1
    } else if w == 2 {
        3
    } else if w == 4 {
        15
    } else {
        255
    }
}

/// Computes one chain step: Hash(I || u32(q) || u16(i) || u8(j) || cur).
fn chain_step_hash(n: usize, id: &Vec<u8>, q: u32, i: u16, j: u8, cur: &Vec<u8>) -> (r: Vec<u8>)
    requires
        valid_width(n as int),
    ensures
        r@ == chain_step(n as int, id@, q, i, j, cur@),
        r@.len() == n,
{
    let mut buf: Vec<u8> = Vec::new();
    append_bytes(&mut buf, id.as_slice());
    let qb = u32str(q);
    append_bytes(&mut buf, qb.as_slice());
    let ib = u16str(i);
    append_bytes(&mut buf, ib.as_slice());
    let jb = u8str(j);
    append_bytes(&mut buf, jb.as_slice());
    append_bytes(&mut buf, cur.as_slice());
    proof {
        assert(buf@ =~= id@ + be32(q) + be16(i) + seq![j] + cur@);
    }
    digest(n, &buf)
}

/// Steps chain i from step `lo` up to (excluding) step `hi`, starting from
/// `start`.
fn apply_chain(n: usize, id: &Vec<u8>, q: u32, i: u16, lo: u8, hi: u8, start: Vec<u8>) -> (r: Vec<
    u8,
>)
    requires
        valid_width(n as int),
        lo <= hi,
        start@.len() == n,
    ensures
        r@ == chain(n as int, id@, q, i, lo as int, hi as int, start@),
        r@.len() == n,
{
    let ghost start_view = start@;
    let mut cur = start;
    let mut j = lo;
    while j < hi
        invariant
            valid_width(n as int),
            lo <= j <= hi,
            cur@.len() == n,
            chain(n as int, id@, q, i, j as int, hi as int, cur@) == chain(
                n as int,
                id@,
                q,
                i,
                lo as int,
                hi as int,
                start_view,
            ),
        decreases hi - j,
    {
        cur = chain_step_hash(n, id, q, i, j, &cur);
        j = j + 1;
    }
    cur
}

/// The shared prefix I || u32(q) || u16(tag) of every hash in this scheme.
pub(crate) fn tagged_prefix(id: &Vec<u8>, q: u32, tag: u16) -> (r: Vec<u8>)
    ensures
        r@ == id@ + be32(q) + be16(tag),
{
    let mut buf: Vec<u8> = Vec::new();
    append_bytes(&mut buf, id.as_slice());
    let qb = u32str(q);
    append_bytes(&mut buf, qb.as_slice());
    let tb = u16str(tag);
    append_bytes(&mut buf, tb.as_slice());
    proof {
        assert(buf@ =~= id@ + be32(q) + be16(tag));
    }
    buf
}

/// Draws the p random chain seeds of one leaf.
pub(crate) fn create_lmots_private_key(algo_type: &LmotsAlgorithmType) -> (r: Vec<HashValue>)
    requires
        !(*algo_type is LmotsReserved),
    ensures
        r@.len() == spec_lmots_parameter(*algo_type).p,
        digests_wf(r@, spec_lmots_parameter(*algo_type).n as int),
{
    proof {
        lemma_lmots_parameter_facts(*algo_type);
    }
    let param = lmots_parameter_of(algo_type);
    let p = param.p as usize;
    let n = param.n as usize;
    let mut x: Vec<HashValue> = Vec::new();
    let mut i: usize = 0;
    while i < p
        invariant
            n == spec_lmots_parameter(*algo_type).n,
            crate::hashes::valid_width(n as int),
            0 <= i <= p,
            x@.len() == i,
            digests_wf(x@, n as int),
        decreases p - i,
    {
        x.push(HashValue::new(crate::rng::random_digest(n)));
        i = i + 1;
    }
    x
}

/// Derives the LM-OTS public key of one leaf from its chain seeds
/// (RFC 8554 §4.3).
pub(crate) fn calculate_ots_public_key(
    algo_type: &LmotsAlgorithmType,
    lms_identifier: &Vec<u8>,
    q: u32,
    x: &Vec<HashValue>,
) -> (r: HashValue)
    requires
        !(*algo_type is LmotsReserved),
        x@.len() == spec_lmots_parameter(*algo_type).p,
        digests_wf(x@, spec_lmots_parameter(*algo_type).n as int),
    ensures
        ({
            let param = spec_lmots_parameter(*algo_type);
            &&& r@ == ots_public_key(
                param.n as int,
                param.w as int,
                param.p as int,
                lms_identifier@,
                q,
                digests_view(x@),
            )
            &&& r@.len() == param.n
        }),
{
    proof {
        lemma_lmots_parameter_facts(*algo_type);
    }
    let param = lmots_parameter_of(algo_type);
    let n = param.n as usize;
    let w = param.w as usize;
    let p = param.p as usize;
    let steps = pow2w_minus_1(w);
    let ghost ends = ots_chain_ends(
        n as int,
        w as int,
        p as int,
        lms_identifier@,
        q,
        digests_view(x@),
    );
    let mut buf = tagged_prefix(lms_identifier, q, D_PBLC);
    let ghost prefix = buf@;
    let mut i: usize = 0;
    while i < p
        invariant
            valid_width(n as int),
            valid_w(w as int),
            p <= 300,
            steps as int == pow2(w as nat) - 1,
            x@.len() == p,
            digests_wf(x@, n as int),
            ends == ots_chain_ends(
                n as int,
                w as int,
                p as int,
                lms_identifier@,
                q,
                digests_view(x@),
            ),
            0 <= i <= p,
            buf@ == prefix + concat_all(ends.take(i as int)),
        decreases p - i,
    {
        proof {
            assert(x@[i as int]@.len() == n);
        }
        let cur = clone_bytes(&x[i].value);
        let end = apply_chain(n, lms_identifier, q, i as u16, 0, steps, cur);
        proof {
            assert(ends[i as int] == end@);
            lemma_concat_all_take_step(ends, i as int);
        }
        append_bytes(&mut buf, end.as_slice());
        i = i + 1;
    }
    proof {
        assert(ends.take(p as int) =~= ends);
    }
    HashValue::new(digest(n, &buf))
}

/// Computes Q for a message and randomizer and appends the two checksum
/// bytes (RFC 8554 §4.5, steps 1 and 2).
fn checksummed_message_hash(
    algo_type: &LmotsAlgorithmType,
    lms_identifier: &Vec<u8>,
    q: u32,
    nonce: &Vec<u8>,
    message: &[u8],
) -> (r: Vec<u8>)
    requires
        !(*algo_type is LmotsReserved),
    ensures
        ({
            let param = spec_lmots_parameter(*algo_type);
            &&& r@ == msg_hash_with_checksum(
                param.n as int,
                param.w as int,
                param.ls as int,
                lms_identifier@,
                q,
                nonce@,
                message@,
            )
            &&& r@.len() == param.n + 2
        }),
{
    proof {
        lemma_lmots_parameter_facts(*algo_type);
    }
    let param = lmots_parameter_of(algo_type);
    let n = param.n as usize;
    let mut mbuf = tagged_prefix(lms_identifier, q, D_MESG);
    append_bytes(&mut mbuf, nonce.as_slice());
    append_bytes(&mut mbuf, message);
    proof {
        assert(mbuf@ =~= lms_identifier@ + be32(q) + be16(D_MESG) + nonce@ + message@);
    }
    let mut qc = digest(n, &mbuf);
    let cks = checksum(algo_type, qc.as_slice());
    let cb = u16str(cks);
    append_bytes(&mut qc, cb.as_slice());
    qc
}

/// Signs a message with the chain seeds of one leaf (RFC 8554 §4.5). The
/// randomizer C is drawn fresh; the produced y values step each chain from
/// its seed up to the matching coefficient of the checksummed message hash.
pub(crate) fn lmots_sign_message(
    algo_type: &LmotsAlgorithmType,
    input_string: &[u8],
    private_key: &Vec<HashValue>,
    lms_identifier: &Vec<u8>,
    q: u32,
) -> (r: Result<LmotsSignature, LmsError>)
    requires
        !(*algo_type is LmotsReserved),
        digests_wf(private_key@, spec_lmots_parameter(*algo_type).n as int),
    ensures
        ({
            let param = spec_lmots_parameter(*algo_type);
            &&& (r is Ok <==> private_key@.len() == param.p)
            &&& (r is Err ==> r == Result::<LmotsSignature, LmsError>::Err(LmsError::BadLength))
            &&& (r is Ok ==> {
                let sig = r->Ok_0;
                &&& sig.ots_type == *algo_type
                &&& sig.nonce@.len() == 32
                &&& sig.y@.len() == param.p
                &&& digests_wf(sig.y@, param.n as int)
                &&& digests_view(sig.y@) == ots_sign_y(
                    param.n as int,
                    param.w as int,
                    param.p as int,
                    param.ls as int,
                    lms_identifier@,
                    q,
                    digests_view(private_key@),
                    sig.nonce@,
                    input_string@,
                )
            })
        }),
{
    proof {
        lemma_lmots_parameter_facts(*algo_type);
    }
    let param = lmots_parameter_of(algo_type);
    let n = param.n as usize;
    let w = param.w as usize;
    let p = param.p as usize;
    if private_key.len() != p {
        return Err(LmsError::BadLength);
    }
    let nonce = crate::rng::random_bytes_32();
    let qc = checksummed_message_hash(algo_type, lms_identifier, q, &nonce, input_string);
    let ghost ys = ots_sign_y(
        n as int,
        w as int,
        p as int,
        param.ls as int,
        lms_identifier@,
        q,
        digests_view(private_key@),
        nonce@,
        input_string@,
    );
    let mut y: Vec<HashValue> = Vec::new();
    let mut i: usize = 0;
    while i < p
        invariant
            valid_width(n as int),
            valid_w(w as int),
            p <= 300,
            (p as int) * (w as int) <= 8 * (n as int) + 16,
            qc@ == msg_hash_with_checksum(
                n as int,
                w as int,
                param.ls as int,
                lms_identifier@,
                q,
                nonce@,
                input_string@,
            ),
            qc@.len() == n + 2,
            private_key@.len() == p,
            digests_wf(private_key@, n as int),
            ys == ots_sign_y(
                n as int,
                w as int,
                p as int,
                param.ls as int,
                lms_identifier@,
                q,
                digests_view(private_key@),
                nonce@,
                input_string@,
            ),
            0 <= i <= p,
            y@.len() == i,
            digests_wf(y@, n as int),
            forall|k: int| 0 <= k < i ==> (#[trigger] y@[k])@ == ys[k],
        decreases p - i,
    {
        proof {
            assert((i as int) * (w as int) < (p as int) * (w as int)) by (nonlinear_arith)
                requires
                    i < p,
                    0 < w,
            ;
            assert(private_key@[i as int]@.len() == n);
        }
        let a = coefficient(qc.as_slice(), i, w);
        let cur = clone_bytes(&private_key[i].value);
        let end = apply_chain(n, lms_identifier, q, i as u16, 0, a, cur);
        proof {
            assert(end@ == ys[i as int]);
        }
        y.push(HashValue::new(end));
        i = i + 1;
    }
    proof {
        assert(digests_view(y@) =~= ys);
    }
    Ok(LmotsSignature { ots_type: *algo_type, nonce, y })
}

/// Reconstructs the candidate public key from a signature and a message
/// (RFC 8554 §4.6): each chain is stepped from its coefficient to the top.
pub(crate) fn candidate_ots_signature(
    algo_type: &LmotsAlgorithmType,
    lms_identifier: &Vec<u8>,
    q: u32,
    signature: &LmotsSignature,
    message: &[u8],
) -> (r: HashValue)
    requires
        !(*algo_type is LmotsReserved),
        signature.y@.len() == spec_lmots_parameter(*algo_type).p,
        digests_wf(signature.y@, spec_lmots_parameter(*algo_type).n as int),
    ensures
        ({
            let param = spec_lmots_parameter(*algo_type);
            &&& r@ == ots_candidate(
                param.n as int,
                param.w as int,
                param.p as int,
                param.ls as int,
                lms_identifier@,
                q,
                signature.nonce@,
                digests_view(signature.y@),
                message@,
            )
            &&& r@.len() == param.n
        }),
{
    proof {
        lemma_lmots_parameter_facts(*algo_type);
    }
    let param = lmots_parameter_of(algo_type);
    let n = param.n as usize;
    let w = param.w as usize;
    let p = param.p as usize;
    let qc = checksummed_message_hash(algo_type, lms_identifier, q, &signature.nonce, message);
    let steps = pow2w_minus_1(w);
    let ghost zs = Seq::new(
        p as nat,
        |i: int| chain(
            n as int,
            lms_identifier@,
            q,
            i as u16,
            coef(qc@, i, w as int) as int,
            pow2(w as nat) - 1,
            digests_view(signature.y@)[i],
        ),
    );
    let mut buf = tagged_prefix(lms_identifier, q, D_PBLC);
    let ghost prefix = buf@;
    let mut i: usize = 0;
    while i < p
        invariant
            valid_width(n as int),
            valid_w(w as int),
            p <= 300,
            (p as int) * (w as int) <= 8 * (n as int) + 16,
            steps as int == pow2(w as nat) - 1,
            qc@.len() == n + 2,
            signature.y@.len() == p,
            digests_wf(signature.y@, n as int),
            zs == Seq::new(
                p as nat,
                |k: int| chain(
                    n as int,
                    lms_identifier@,
                    q,
                    k as u16,
                    coef(qc@, k, w as int) as int,
                    pow2(w as nat) - 1,
                    digests_view(signature.y@)[k],
                ),
            ),
            0 <= i <= p,
            buf@ == prefix + concat_all(zs.take(i as int)),
        decreases p - i,
    {
        proof {
            assert((i as int) * (w as int) < (p as int) * (w as int)) by (nonlinear_arith)
                requires
                    i < p,
                    0 < w,
            ;
            assert(signature.y@[i as int]@.len() == n);
        }
        let a = coefficient(qc.as_slice(), i, w);
        let cur = clone_bytes(&signature.y[i].value);
        let end = apply_chain(n, lms_identifier, q, i as u16, a, steps, cur);
        proof {
            assert(end@ == zs[i as int]);
            lemma_concat_all_take_step(zs, i as int);
        }
        append_bytes(&mut buf, end.as_slice());
        i = i + 1;
    }
    proof {
        assert(zs.take(p as int) =~= zs);
    }
    HashValue::new(digest(n, &buf))
}

/// Checks an LM-OTS signature by comparing the reconstructed candidate key
/// with the given one-time public key.
pub fn verify_ots_signature(
    algo_type: &LmotsAlgorithmType,
    lms_identifier: &Vec<u8>,
    q: u32,
    public_key: &HashValue,
    signature: &LmotsSignature,
    message: &[u8],
) -> (r: bool)
    requires
        !(*algo_type is LmotsReserved),
        signature.y@.len() == spec_lmots_parameter(*algo_type).p,
        digests_wf(signature.y@, spec_lmots_parameter(*algo_type).n as int),
    ensures
        ({
            let param = spec_lmots_parameter(*algo_type);
            r == (ots_candidate(
                param.n as int,
                param.w as int,
                param.p as int,
                param.ls as int,
                lms_identifier@,
                q,
                signature.nonce@,
                digests_view(signature.y@),
                message@,
            ) == public_key@)
        }),
{
    let final_result = candidate_ots_signature(algo_type, lms_identifier, q, signature, message);
    final_result.equals(public_key)
}

} // verus!
