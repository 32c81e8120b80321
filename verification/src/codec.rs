//! The wire codec (RFC 8554 §5.3, §5.6): fixed-layout serialization and
//! total parsing of public keys and signatures, with round-trip laws.

use vstd::prelude::*;
use crate::bytes::append_bytes;
use crate::bytes::be32;
use crate::bytes::be32_value;
use crate::bytes::copy_range;
use crate::bytes::lemma_be32_value;
use crate::bytes::read_u32;
use crate::bytes::u32str;
use crate::ots::concat_all;
use crate::ots::lemma_concat_all_injective;
use crate::ots::lemma_concat_all_len;
use crate::ots::lemma_concat_all_take_step;
use crate::params::lemma_codes_invert;
use crate::params::lemma_lmots_parameter_facts;
use crate::params::lemma_lms_parameter_facts;
use crate::params::lookup_lmots_algorithm_type;
use crate::params::lookup_lms_algorithm_type;
use crate::params::lmots_code;
use crate::params::lms_code;
use crate::params::get_lmots_parameters;
use crate::params::get_lms_parameters;
use crate::params::spec_lmots_code;
use crate::params::spec_lmots_parameter;
use crate::params::spec_lmots_type_of;
use crate::params::spec_lms_code;
use crate::params::spec_lms_parameters;
use crate::params::spec_lms_type_of;
use crate::params::LmsError;
use crate::types::digests_view;
use crate::types::digests_wf;
use crate::types::HashValue;
use crate::types::LmsPublicKey;
use crate::types::LmsSignature;
use crate::types::LmotsSignature;

verus! {

/// The wire form of a public key: lms code, ots code, I, root
/// (RFC 8554 §5.3).
pub open spec fn spec_serialize_pk(pk: LmsPublicKey) -> Seq<u8> {
    be32(spec_lms_code(pk.lms_type)) + be32(spec_lmots_code(pk.ots_type)) + pk.lms_identifier@
        + pk.root@
}

/// A public key the wire format can carry faithfully: known algorithms that
/// agree on the width, a 16-byte identifier, a root of width n.
pub open spec fn pk_wf(pk: LmsPublicKey) -> bool {
    let n = spec_lms_parameters(pk.lms_type).0;
    &&& !(pk.lms_type is LmsReserved)
    &&& !(pk.ots_type is LmotsReserved)
    &&& spec_lmots_parameter(pk.ots_type).n == n
    &&& pk.lms_identifier@.len() == 16
    &&& pk.root@.len() == n
}

/// A byte string that parses as a public key: two known codes of one width,
/// and exactly 24 + n bytes.
pub open spec fn spec_pk_bytes_ok(b: Seq<u8>) -> bool {
    &&& b.len() >= 8
    &&& 5 <= be32_value(b.subrange(0, 4)) <= 14
    &&& 1 <= be32_value(b.subrange(4, 8)) <= 8
    &&& ({
        let lt = spec_lms_type_of(be32_value(b.subrange(0, 4)));
        let ot = spec_lmots_type_of(be32_value(b.subrange(4, 8)));
        let n = spec_lms_parameters(lt).0;
        &&& spec_lmots_parameter(ot).n == n
        &&& b.len() == 24 + n
    })
}

/// The error parsing a public key gives when the byte string is not one.
pub open spec fn spec_pk_parse_err(b: Seq<u8>) -> LmsError {
    if b.len() < 8 {
        LmsError::Truncated
    } else if !(5 <= be32_value(b.subrange(0, 4)) <= 14) {
        LmsError::UnknownAlgId
    } else if !(1 <= be32_value(b.subrange(4, 8)) <= 8) {
        LmsError::UnknownAlgId
    } else {
        let lt = spec_lms_type_of(be32_value(b.subrange(0, 4)));
        let ot = spec_lmots_type_of(be32_value(b.subrange(4, 8)));
        let n = spec_lms_parameters(lt).0;
        if spec_lmots_parameter(ot).n != n {
            LmsError::LengthMismatch
        } else if b.len() < 24 + n {
            LmsError::Truncated
        } else {
            LmsError::TrailingBytes
        }
    }
}

/// Serializes a public key into its RFC 8554 §5.3 byte layout.
pub fn serialize_public_key(public_key: &LmsPublicKey) -> (r: Vec<u8>)
    ensures
        r@ == spec_serialize_pk(*public_key),
        pk_wf(*public_key) ==> r@.len() == 24 + spec_lms_parameters(public_key.lms_type).0,
{
    let mut buf: Vec<u8> = Vec::new();
    let lb = u32str(lms_code(&public_key.lms_type));
    append_bytes(&mut buf, lb.as_slice());
    let ob = u32str(lmots_code(&public_key.ots_type));
    append_bytes(&mut buf, ob.as_slice());
    append_bytes(&mut buf, public_key.lms_identifier.as_slice());
    append_bytes(&mut buf, public_key.root.value.as_slice());
    proof {
        assert(buf@ =~= spec_serialize_pk(*public_key));
    }
    buf
}

/// Parses a public key from its RFC 8554 §5.3 byte layout. Total: every
/// byte string either parses, or gives the one error the layout dictates.
pub fn parse_public_contents(bytes: &[u8]) -> (r: Result<LmsPublicKey, LmsError>)
    ensures
        r is Ok <==> spec_pk_bytes_ok(bytes@),
        r is Ok ==> pk_wf(r->Ok_0) && spec_serialize_pk(r->Ok_0) == bytes@,
        r is Err ==> r->Err_0 == spec_pk_parse_err(bytes@),
{
    if bytes.len() < 8 {
        return Err(LmsError::Truncated);
    }
    let lms_val = read_u32(bytes, 0);
    let ots_val = read_u32(bytes, 4);
    let lms_type = match lookup_lms_algorithm_type(lms_val) {
        Ok(t) => t,
        Err(e) => {
            return Err(e);
        },
    };
    let ots_type = match lookup_lmots_algorithm_type(ots_val) {
        Ok(t) => t,
        Err(e) => {
            return Err(e);
        },
    };
    let (n8, _h8) = match get_lms_parameters(&lms_type) {
        Ok(v) => v,
        Err(_) => {
            proof {
                assert(false);
            }
            return Err(LmsError::InvalidLms);
        },
    };
    let param = match get_lmots_parameters(&ots_type) {
        Ok(v) => v,
        Err(_) => {
            proof {
                assert(false);
            }
            return Err(LmsError::InvalidOts);
        },
    };
    if param.n != n8 {
        return Err(LmsError::LengthMismatch);
    }
    let n = n8 as usize;
    if bytes.len() < 24 + n {
        return Err(LmsError::Truncated);
    }
    if bytes.len() > 24 + n {
        return Err(LmsError::TrailingBytes);
    }
    let lms_identifier = copy_range(bytes, 8, 24);
    let root = HashValue::new(copy_range(bytes, 24, 24 + n));
    let pk = LmsPublicKey { lms_type, ots_type, lms_identifier, root };
    proof {
        assert(spec_serialize_pk(pk) =~= bytes@);
    }
    Ok(pk)
}

/// A well-formed public key's serialization parses.
pub proof fn lemma_pk_serialize_parses(pk: LmsPublicKey)
    requires
        pk_wf(pk),
    ensures
        spec_pk_bytes_ok(spec_serialize_pk(pk)),
{
    let b = spec_serialize_pk(pk);
    lemma_codes_invert();
    lemma_be32_value(spec_lms_code(pk.lms_type));
    lemma_be32_value(spec_lmots_code(pk.ots_type));
    lemma_lms_code_bounds(pk);
    assert(b.subrange(0, 4) =~= be32(spec_lms_code(pk.lms_type)));
    assert(b.subrange(4, 8) =~= be32(spec_lmots_code(pk.ots_type)));
}

/// Every non-reserved code sits in the known range.
proof fn lemma_lms_code_bounds(pk: LmsPublicKey)
    requires
        !(pk.lms_type is LmsReserved),
        !(pk.ots_type is LmotsReserved),
    ensures
        5 <= spec_lms_code(pk.lms_type) <= 14,
        1 <= spec_lmots_code(pk.ots_type) <= 8,
{
}

/// The public-key wire format is faithful: two well-formed keys with one
/// serialization agree in every observable field. Together with
/// `parse_public_contents`'s contract this says that parsing a serialized
/// key gives the key back.
pub proof fn lemma_pk_codec_injective(a: LmsPublicKey, b: LmsPublicKey)
    requires
        pk_wf(a),
        pk_wf(b),
        spec_serialize_pk(a) == spec_serialize_pk(b),
    ensures
        a.lms_type == b.lms_type,
        a.ots_type == b.ots_type,
        a.lms_identifier@ == b.lms_identifier@,
        a.root@ == b.root@,
{
    let sa = spec_serialize_pk(a);
    let sb = spec_serialize_pk(b);
    lemma_codes_invert();
    lemma_be32_value(spec_lms_code(a.lms_type));
    lemma_be32_value(spec_lmots_code(a.ots_type));
    lemma_be32_value(spec_lms_code(b.lms_type));
    lemma_be32_value(spec_lmots_code(b.ots_type));
    assert(sa.subrange(0, 4) =~= be32(spec_lms_code(a.lms_type)));
    assert(sb.subrange(0, 4) =~= be32(spec_lms_code(b.lms_type)));
    assert(be32_value(sa.subrange(0, 4)) == spec_lms_code(a.lms_type));
    assert(be32_value(sb.subrange(0, 4)) == spec_lms_code(b.lms_type));
    assert(a.lms_type == b.lms_type) by {
        assert(spec_lms_code(a.lms_type) == spec_lms_code(b.lms_type));
        assert(spec_lms_type_of(spec_lms_code(a.lms_type)) == a.lms_type);
        assert(spec_lms_type_of(spec_lms_code(b.lms_type)) == b.lms_type);
    }
    assert(sa.subrange(4, 8) =~= be32(spec_lmots_code(a.ots_type)));
    assert(sb.subrange(4, 8) =~= be32(spec_lmots_code(b.ots_type)));
    assert(a.ots_type == b.ots_type) by {
        assert(spec_lmots_code(a.ots_type) == spec_lmots_code(b.ots_type));
        assert(spec_lmots_type_of(spec_lmots_code(a.ots_type)) == a.ots_type);
        assert(spec_lmots_type_of(spec_lmots_code(b.ots_type)) == b.ots_type);
    }
    let n = spec_lms_parameters(a.lms_type).0 as int;
    assert(a.lms_identifier@ =~= sa.subrange(8, 24));
    assert(b.lms_identifier@ =~= sb.subrange(8, 24));
    assert(a.root@ =~= sa.subrange(24, 24 + n));
    assert(b.root@ =~= sb.subrange(24, 24 + n));
}

/// The wire form of a signature: q, ots code, C, the p chain values, lms
/// code, the h path digests (RFC 8554 §5.6).
pub open spec fn spec_serialize_sig(sig: LmsSignature) -> Seq<u8> {
    be32(sig.q) + be32(spec_lmots_code(sig.lmots_signature.ots_type))
        + sig.lmots_signature.nonce@ + concat_all(digests_view(sig.lmots_signature.y@)) + be32(
        spec_lms_code(sig.sig_type),
    ) + concat_all(digests_view(sig.lms_path@))
}

/// A signature the wire format can carry faithfully: known algorithms of one
/// width, a 32-byte randomizer, p chain values and h path digests of width n.
pub open spec fn sig_wf(sig: LmsSignature) -> bool {
    let n = spec_lms_parameters(sig.sig_type).0;
    let h = spec_lms_parameters(sig.sig_type).1;
    let param = spec_lmots_parameter(sig.lmots_signature.ots_type);
    &&& !(sig.sig_type is LmsReserved)
    &&& !(sig.lmots_signature.ots_type is LmotsReserved)
    &&& param.n == n
    &&& sig.lmots_signature.nonce@.len() == 32
    &&& sig.lmots_signature.y@.len() == param.p
    &&& digests_wf(sig.lmots_signature.y@, n as int)
    &&& sig.lms_path@.len() == h
    &&& digests_wf(sig.lms_path@, n as int)
}

/// A byte string that parses as a signature: a known ots code, room for C
/// and the p chain values, a known lms code of the same width, and exactly
/// h more digests.
pub open spec fn spec_sig_bytes_ok(b: Seq<u8>) -> bool {
    &&& b.len() >= 8
    &&& 1 <= be32_value(b.subrange(4, 8)) <= 8
    &&& ({
        let param = spec_lmots_parameter(spec_lmots_type_of(be32_value(b.subrange(4, 8))));
        let yoff = 40 + (param.p as int) * (param.n as int);
        &&& b.len() >= yoff + 4
        &&& 5 <= be32_value(b.subrange(yoff, yoff + 4)) <= 14
        &&& ({
            let lt = spec_lms_type_of(be32_value(b.subrange(yoff, yoff + 4)));
            let n = spec_lms_parameters(lt).0;
            let h = spec_lms_parameters(lt).1;
            &&& n == param.n
            &&& b.len() == yoff + 4 + (h as int) * (n as int)
        })
    })
}

/// The error parsing a signature gives when the byte string is not one.
pub open spec fn spec_sig_parse_err(b: Seq<u8>) -> LmsError {
    if b.len() < 8 {
        LmsError::Truncated
    } else if !(1 <= be32_value(b.subrange(4, 8)) <= 8) {
        LmsError::UnknownAlgId
    } else {
        let param = spec_lmots_parameter(spec_lmots_type_of(be32_value(b.subrange(4, 8))));
        let yoff = 40 + (param.p as int) * (param.n as int);
        if b.len() < yoff + 4 {
            LmsError::Truncated
        } else if !(5 <= be32_value(b.subrange(yoff, yoff + 4)) <= 14) {
            LmsError::UnknownAlgId
        } else {
            let lt = spec_lms_type_of(be32_value(b.subrange(yoff, yoff + 4)));
            let n = spec_lms_parameters(lt).0;
            let h = spec_lms_parameters(lt).1;
            if n != param.n {
                LmsError::LengthMismatch
            } else if b.len() < yoff + 4 + (h as int) * (n as int) {
                LmsError::Truncated
            } else {
                LmsError::TrailingBytes
            }
        }
    }
}

/// Appends every digest of a vector to the buffer.
fn append_digests(buf: &mut Vec<u8>, v: &Vec<HashValue>)
    ensures
        final(buf)@ == old(buf)@ + concat_all(digests_view(v@)),
{
    let ghost dv = digests_view(v@);
    let mut i: usize = 0;
    while i < v.len()
        invariant
            dv == digests_view(v@),
            0 <= i <= v@.len(),
            buf@ == old(buf)@ + concat_all(dv.take(i as int)),
        decreases v@.len() - i,
    {
        proof {
            lemma_concat_all_take_step(dv, i as int);
        }
        append_bytes(buf, v[i].value.as_slice());
        i = i + 1;
    }
    proof {
        assert(dv.take(v@.len() as int) =~= dv);
    }
}

/// Serializes a signature into its RFC 8554 §5.6 byte layout.
pub fn serialize_signature(signature: &LmsSignature) -> (r: Vec<u8>)
    ensures
        r@ == spec_serialize_sig(*signature),
        sig_wf(*signature) ==> r@.len() == 44 + (
        spec_lmots_parameter(signature.lmots_signature.ots_type).p as int) * (
        spec_lms_parameters(signature.sig_type).0 as int) + (
        spec_lms_parameters(signature.sig_type).1 as int) * (
        spec_lms_parameters(signature.sig_type).0 as int),
{
    let mut buf: Vec<u8> = Vec::new();
    let qb = u32str(signature.q);
    append_bytes(&mut buf, qb.as_slice());
    let ob = u32str(lmots_code(&signature.lmots_signature.ots_type));
    append_bytes(&mut buf, ob.as_slice());
    append_bytes(&mut buf, signature.lmots_signature.nonce.as_slice());
    append_digests(&mut buf, &signature.lmots_signature.y);
    let lb = u32str(lms_code(&signature.sig_type));
    append_bytes(&mut buf, lb.as_slice());
    append_digests(&mut buf, &signature.lms_path);
    proof {
        assert(buf@ =~= spec_serialize_sig(*signature));
        if sig_wf(*signature) {
            let n = spec_lms_parameters(signature.sig_type).0 as int;
            lemma_concat_all_len(digests_view(signature.lmots_signature.y@), n);
            lemma_concat_all_len(digests_view(signature.lms_path@), n);
        }
    }
    buf
}

/// Parses a signature from its RFC 8554 §5.6 byte layout. Total: every byte
/// string either parses, or gives the one error the layout dictates.
pub fn parse_signature_contents(bytes: &[u8]) -> (r: Result<LmsSignature, LmsError>)
    ensures
        r is Ok <==> spec_sig_bytes_ok(bytes@),
        r is Ok ==> sig_wf(r->Ok_0) && spec_serialize_sig(r->Ok_0) == bytes@,
        r is Err ==> r->Err_0 == spec_sig_parse_err(bytes@),
{
    if bytes.len() < 8 {
        return Err(LmsError::Truncated);
    }
    let q = read_u32(bytes, 0);
    let ots_val = read_u32(bytes, 4);
    let ots_type = match lookup_lmots_algorithm_type(ots_val) {
        Ok(t) => t,
        Err(e) => {
            return Err(e);
        },
    };
    let param = match get_lmots_parameters(&ots_type) {
        Ok(v) => v,
        Err(_) => {
            proof {
                assert(false);
            }
            return Err(LmsError::InvalidOts);
        },
    };
    proof {
        lemma_lmots_parameter_facts(ots_type);
        assert((param.p as int) * (param.n as int) <= 9600) by (nonlinear_arith)
            requires
                param.p <= 300,
                param.n <= 32,
        ;
    }
    let n = param.n as usize;
    let p = param.p as usize;
    let yoff = 40 + p * n;
    if bytes.len() < yoff + 4 {
        return Err(LmsError::Truncated);
    }
    let nonce = copy_range(bytes, 8, 40);
    let mut y: Vec<HashValue> = Vec::new();
    let mut off: usize = 40;
    let mut i: usize = 0;
    while i < p
        invariant
            0 < n <= 32,
            0 <= i <= p,
            p <= 300,
            yoff == 40 + p * n,
            yoff + 4 <= bytes@.len(),
            off == 40 + i * n,
            off <= yoff,
            y@.len() == i,
            digests_wf(y@, n as int),
            concat_all(digests_view(y@)) == bytes@.subrange(40, off as int),
        decreases p - i,
    {
        proof {
            assert((i + 1) * n <= p * n) by (nonlinear_arith)
                requires
                    i + 1 <= p,
                    0 <= n,
            ;
            assert(i * n + n == (i + 1) * n) by (nonlinear_arith);
        }
        let item = copy_range(bytes, off, off + n);
        let ghost pre = digests_view(y@);
        y.push(HashValue::new(item));
        proof {
            assert(digests_view(y@) =~= pre.push(bytes@.subrange(off as int, off + n)));
            assert(digests_view(y@).drop_last() =~= pre);
            assert(bytes@.subrange(40, off + n) =~= bytes@.subrange(40, off as int) + bytes@
                .subrange(off as int, off + n));
        }
        off = off + n;
        i = i + 1;
    }
    let lms_val = read_u32(bytes, yoff);
    let lms_type = match lookup_lms_algorithm_type(lms_val) {
        Ok(t) => t,
        Err(e) => {
            return Err(e);
        },
    };
    let (n8b, h8) = match get_lms_parameters(&lms_type) {
        Ok(v) => v,
        Err(_) => {
            proof {
                assert(false);
            }
            return Err(LmsError::InvalidLms);
        },
    };
    if n8b != param.n {
        return Err(LmsError::LengthMismatch);
    }
    proof {
        lemma_lms_parameter_facts(lms_type);
        assert((h8 as int) * (n as int) <= 800) by (nonlinear_arith)
            requires
                h8 <= 25,
                n <= 32,
        ;
    }
    let h = h8 as usize;
    let total = yoff + 4 + h * n;
    if bytes.len() < total {
        return Err(LmsError::Truncated);
    }
    if bytes.len() > total {
        return Err(LmsError::TrailingBytes);
    }
    let mut path: Vec<HashValue> = Vec::new();
    let poff = yoff + 4;
    let mut off: usize = poff;
    let mut i: usize = 0;
    while i < h
        invariant
            0 < n <= 32,
            0 <= i <= h,
            h <= 25,
            total == poff + h * n,
            total <= bytes@.len(),
            off == poff + i * n,
            off <= total,
            path@.len() == i,
            digests_wf(path@, n as int),
            concat_all(digests_view(path@)) == bytes@.subrange(poff as int, off as int),
        decreases h - i,
    {
        proof {
            assert((i + 1) * n <= h * n) by (nonlinear_arith)
                requires
                    i + 1 <= h,
                    0 <= n,
            ;
            assert(i * n + n == (i + 1) * n) by (nonlinear_arith);
        }
        let item = copy_range(bytes, off, off + n);
        let ghost pre = digests_view(path@);
        path.push(HashValue::new(item));
        proof {
            assert(digests_view(path@) =~= pre.push(bytes@.subrange(off as int, off + n)));
            assert(digests_view(path@).drop_last() =~= pre);
            assert(bytes@.subrange(poff as int, off + n) =~= bytes@.subrange(
                poff as int,
                off as int,
            ) + bytes@.subrange(off as int, off + n));
        }
        off = off + n;
        i = i + 1;
    }
    let sig = LmsSignature {
        q,
        lmots_signature: LmotsSignature { ots_type, nonce, y },
        sig_type: lms_type,
        lms_path: path,
    };
    proof {
        assert(spec_serialize_sig(sig) =~= bytes@);
    }
    Ok(sig)
}

/// A well-formed signature's serialization parses.
pub proof fn lemma_sig_serialize_parses(sig: LmsSignature)
    requires
        sig_wf(sig),
    ensures
        spec_sig_bytes_ok(spec_serialize_sig(sig)),
{
    let b = spec_serialize_sig(sig);
    let n = spec_lms_parameters(sig.sig_type).0 as int;
    let h = spec_lms_parameters(sig.sig_type).1 as int;
    let param = spec_lmots_parameter(sig.lmots_signature.ots_type);
    let p = param.p as int;
    lemma_codes_invert();
    lemma_be32_value(spec_lmots_code(sig.lmots_signature.ots_type));
    lemma_be32_value(spec_lms_code(sig.sig_type));
    lemma_concat_all_len(digests_view(sig.lmots_signature.y@), n);
    lemma_concat_all_len(digests_view(sig.lms_path@), n);
    assert(b.subrange(4, 8) =~= be32(spec_lmots_code(sig.lmots_signature.ots_type)));
    let yoff = 40 + p * n;
    assert(b.subrange(yoff, yoff + 4) =~= be32(spec_lms_code(sig.sig_type)));
}

/// The signature wire format is faithful: two well-formed signatures with
/// one serialization agree in every observable field. Together with
/// `parse_signature_contents`'s contract this says that parsing a
/// serialized signature gives the signature back.
pub proof fn lemma_sig_codec_injective(a: LmsSignature, b: LmsSignature)
    requires
        sig_wf(a),
        sig_wf(b),
        spec_serialize_sig(a) == spec_serialize_sig(b),
    ensures
        a.q == b.q,
        a.sig_type == b.sig_type,
        a.lmots_signature.ots_type == b.lmots_signature.ots_type,
        a.lmots_signature.nonce@ == b.lmots_signature.nonce@,
        digests_view(a.lmots_signature.y@) == digests_view(b.lmots_signature.y@),
        digests_view(a.lms_path@) == digests_view(b.lms_path@),
{
    let sa = spec_serialize_sig(a);
    let sb = spec_serialize_sig(b);
    let na = spec_lms_parameters(a.sig_type).0 as int;
    let nb = spec_lms_parameters(b.sig_type).0 as int;
    let pa = spec_lmots_parameter(a.lmots_signature.ots_type).p as int;
    let pb = spec_lmots_parameter(b.lmots_signature.ots_type).p as int;
    let ha = spec_lms_parameters(a.sig_type).1 as int;
    let hb = spec_lms_parameters(b.sig_type).1 as int;
    lemma_codes_invert();
    lemma_be32_value(a.q);
    lemma_be32_value(b.q);
    lemma_be32_value(spec_lmots_code(a.lmots_signature.ots_type));
    lemma_be32_value(spec_lmots_code(b.lmots_signature.ots_type));
    lemma_be32_value(spec_lms_code(a.sig_type));
    lemma_be32_value(spec_lms_code(b.sig_type));
    lemma_concat_all_len(digests_view(a.lmots_signature.y@), na);
    lemma_concat_all_len(digests_view(b.lmots_signature.y@), nb);
    lemma_concat_all_len(digests_view(a.lms_path@), na);
    lemma_concat_all_len(digests_view(b.lms_path@), nb);
    assert(sa.subrange(0, 4) =~= be32(a.q));
    assert(sb.subrange(0, 4) =~= be32(b.q));
    assert(a.q == b.q);
    assert(sa.subrange(4, 8) =~= be32(spec_lmots_code(a.lmots_signature.ots_type)));
    assert(sb.subrange(4, 8) =~= be32(spec_lmots_code(b.lmots_signature.ots_type)));
    assert(a.lmots_signature.ots_type == b.lmots_signature.ots_type) by {
        assert(spec_lmots_code(a.lmots_signature.ots_type) == spec_lmots_code(
            b.lmots_signature.ots_type,
        ));
        assert(spec_lmots_type_of(spec_lmots_code(a.lmots_signature.ots_type))
            == a.lmots_signature.ots_type);
        assert(spec_lmots_type_of(spec_lmots_code(b.lmots_signature.ots_type))
            == b.lmots_signature.ots_type);
    }
    assert(pa == pb && na == nb);
    let yoff = 40 + pa * na;
    assert(sa.subrange(yoff, yoff + 4) =~= be32(spec_lms_code(a.sig_type)));
    assert(sb.subrange(yoff, yoff + 4) =~= be32(spec_lms_code(b.sig_type)));
    assert(a.sig_type == b.sig_type) by {
        assert(spec_lms_code(a.sig_type) == spec_lms_code(b.sig_type));
        assert(spec_lms_type_of(spec_lms_code(a.sig_type)) == a.sig_type);
        assert(spec_lms_type_of(spec_lms_code(b.sig_type)) == b.sig_type);
    }
    assert(a.lmots_signature.nonce@ =~= sa.subrange(8, 40));
    assert(b.lmots_signature.nonce@ =~= sb.subrange(8, 40));
    assert(concat_all(digests_view(a.lmots_signature.y@)) =~= sa.subrange(40, yoff));
    assert(concat_all(digests_view(b.lmots_signature.y@)) =~= sb.subrange(40, yoff));
    lemma_concat_all_injective(
        digests_view(a.lmots_signature.y@),
        digests_view(b.lmots_signature.y@),
        na,
    );
    assert(concat_all(digests_view(a.lms_path@)) =~= sa.subrange(
        yoff + 4,
        yoff + 4 + ha * na,
    ));
    assert(concat_all(digests_view(b.lms_path@)) =~= sb.subrange(
        yoff + 4,
        yoff + 4 + hb * nb,
    ));
    lemma_concat_all_injective(digests_view(a.lms_path@), digests_view(b.lms_path@), na);
}

} // verus!
