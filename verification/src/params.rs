//! Parameter registry: algorithm identifiers of RFC 8554 and the parameter
//! bundles they resolve to — {n, w, p, ls, sig_len} for LM-OTS and {n, h} for
//! LMS. Unknown or reserved identifiers are typed errors, never defaults.

use vstd::prelude::*;
use vstd::arithmetic::power2::pow2;
use vstd::arithmetic::power2::lemma2_to64;

verus! {

/// LM-OTS algorithm identifiers (RFC 8554 §4.1, plus the 24-byte variants).
#[derive(Debug, Clone, Copy, PartialEq, Eq, Structural, Hash)]
pub enum LmotsAlgorithmType {
    LmotsReserved,
    LmotsSha256N32W1,
    LmotsSha256N32W2,
    LmotsSha256N32W4,
    LmotsSha256N32W8,
    LmotsSha256N24W1,
    LmotsSha256N24W2,
    LmotsSha256N24W4,
    LmotsSha256N24W8,
}

/// LMS algorithm identifiers (RFC 8554 §5.1, plus the 24-byte variants).
#[derive(Debug, Clone, Copy, PartialEq, Eq, Structural, Hash)]
pub enum LmsAlgorithmType {
    LmsReserved,
    LmsSha256N32H5,
    LmsSha256N32H10,
    LmsSha256N32H15,
    LmsSha256N32H20,
    LmsSha256N32H25,
    LmsSha256N24H5,
    LmsSha256N24H10,
    LmsSha256N24H15,
    LmsSha256N24H20,
    LmsSha256N24H25,
}

/// Everything that can go wrong in this library. Lookup and codec errors
/// surface immediately; a cryptographically invalid but well-formed signature
/// is reported as `Ok(false)` by verification, not as an error.
#[derive(Debug, Clone, Copy, PartialEq, Eq, Structural, Hash)]
pub enum LmsError {
    InvalidOts,
    InvalidLms,
    AlgMismatch,
    QOutOfRange,
    BadLength,
    Truncated,
    TrailingBytes,
    UnknownAlgId,
    LengthMismatch,
    SignatureInvalid,
    Rng,
}

/// The LM-OTS parameter bundle for one algorithm identifier.
#[derive(Debug, Clone, Copy, PartialEq, Eq, Structural)]
pub struct LmotsParameter {
    /// The identifier this bundle belongs to.
    pub algorithm_name: LmotsAlgorithmType,
    /// Digest width in bytes: 24 or 32.
    pub n: u8,
    /// Winternitz width in bits: 1, 2, 4 or 8.
    pub w: u8,
    /// Number of hash chains.
    pub p: u16,
    /// Left shift applied to the checksum.
    pub ls: u8,
    /// Byte length of a serialized LM-OTS signature: 4 + 32 + p * n.
    pub sig_len: u16,
}

/// The numeric code of an LM-OTS identifier on the wire.
pub open spec fn spec_lmots_code(t: LmotsAlgorithmType) -> u32 {
    match t {
        LmotsAlgorithmType::LmotsReserved => 0,
        LmotsAlgorithmType::LmotsSha256N32W1 => 1,
        LmotsAlgorithmType::LmotsSha256N32W2 => 2,
        LmotsAlgorithmType::LmotsSha256N32W4 => 3,
        LmotsAlgorithmType::LmotsSha256N32W8 => 4,
        LmotsAlgorithmType::LmotsSha256N24W1 => 5,
        LmotsAlgorithmType::LmotsSha256N24W2 => 6,
        LmotsAlgorithmType::LmotsSha256N24W4 => 7,
        LmotsAlgorithmType::LmotsSha256N24W8 => 8,
    }
}

/// The numeric code of an LMS identifier on the wire.
pub open spec fn spec_lms_code(t: LmsAlgorithmType) -> u32 {
    match t {
        LmsAlgorithmType::LmsReserved => 0,
        LmsAlgorithmType::LmsSha256N32H5 => 5,
        LmsAlgorithmType::LmsSha256N32H10 => 6,
        LmsAlgorithmType::LmsSha256N32H15 => 7,
        LmsAlgorithmType::LmsSha256N32H20 => 8,
        LmsAlgorithmType::LmsSha256N32H25 => 9,
        LmsAlgorithmType::LmsSha256N24H5 => 10,
        LmsAlgorithmType::LmsSha256N24H10 => 11,
        LmsAlgorithmType::LmsSha256N24H15 => 12,
        LmsAlgorithmType::LmsSha256N24H20 => 13,
        LmsAlgorithmType::LmsSha256N24H25 => 14,
    }
}

/// The parameter bundle of an LM-OTS identifier, as a spec-level record.
pub open spec fn spec_lmots_parameter(t: LmotsAlgorithmType) -> LmotsParameter {
    match t {
        LmotsAlgorithmType::LmotsReserved => LmotsParameter {
            algorithm_name: t, n: 0, w: 0, p: 0, ls: 0, sig_len: 0,
        },
        LmotsAlgorithmType::LmotsSha256N32W1 => LmotsParameter {
            algorithm_name: t, n: 32, w: 1, p: 265, ls: 7, sig_len: 8516,
        },
        LmotsAlgorithmType::LmotsSha256N32W2 => LmotsParameter {
            algorithm_name: t, n: 32, w: 2, p: 133, ls: 6, sig_len: 4292,
        },
        LmotsAlgorithmType::LmotsSha256N32W4 => LmotsParameter {
            algorithm_name: t, n: 32, w: 4, p: 67, ls: 4, sig_len: 2180,
        },
        LmotsAlgorithmType::LmotsSha256N32W8 => LmotsParameter {
            algorithm_name: t, n: 32, w: 8, p: 34, ls: 0, sig_len: 1124,
        },
        LmotsAlgorithmType::LmotsSha256N24W1 => LmotsParameter {
            algorithm_name: t, n: 24, w: 1, p: 200, ls: 8, sig_len: 4828,
        },
        LmotsAlgorithmType::LmotsSha256N24W2 => LmotsParameter {
            algorithm_name: t, n: 24, w: 2, p: 101, ls: 6, sig_len: 2452,
        },
        LmotsAlgorithmType::LmotsSha256N24W4 => LmotsParameter {
            algorithm_name: t, n: 24, w: 4, p: 51, ls: 4, sig_len: 1252,
        },
        LmotsAlgorithmType::LmotsSha256N24W8 => LmotsParameter {
            algorithm_name: t, n: 24, w: 8, p: 26, ls: 0, sig_len: 652,
        },
    }
}

/// The digest width and tree height of an LMS identifier; (0, 0) for the
/// reserved identifier, which every lookup rejects.
pub open spec fn spec_lms_parameters(t: LmsAlgorithmType) -> (u8, u8) {
    match t {
        LmsAlgorithmType::LmsReserved => (0, 0),
        LmsAlgorithmType::LmsSha256N32H5 => (32, 5),
        LmsAlgorithmType::LmsSha256N32H10 => (32, 10),
        LmsAlgorithmType::LmsSha256N32H15 => (32, 15),
        LmsAlgorithmType::LmsSha256N32H20 => (32, 20),
        LmsAlgorithmType::LmsSha256N32H25 => (32, 25),
        LmsAlgorithmType::LmsSha256N24H5 => (24, 5),
        LmsAlgorithmType::LmsSha256N24H10 => (24, 10),
        LmsAlgorithmType::LmsSha256N24H15 => (24, 15),
        LmsAlgorithmType::LmsSha256N24H20 => (24, 20),
        LmsAlgorithmType::LmsSha256N24H25 => (24, 25),
    }
}

/// Resolves an LM-OTS identifier to its parameter bundle; the reserved
/// identifier is the one invalid input.
pub fn get_lmots_parameters(algo_type: &LmotsAlgorithmType) -> (r: Result<
    LmotsParameter,
    LmsError,
>)
    ensures
        *algo_type is LmotsReserved <==> r is Err,
        r is Err ==> r == Result::<LmotsParameter, LmsError>::Err(LmsError::InvalidOts),
        r is Ok ==> r == Result::<LmotsParameter, LmsError>::Ok(spec_lmots_parameter(*algo_type)),
{
    match algo_type {
        LmotsAlgorithmType::LmotsReserved => Err(LmsError::InvalidOts),
        _ => Ok(lmots_parameter_of(algo_type)),
    }
}

/// The parameter bundle of any LM-OTS identifier, reserved included.
pub(crate) fn lmots_parameter_of(algo_type: &LmotsAlgorithmType) -> (r: LmotsParameter)
    ensures
        r == spec_lmots_parameter(*algo_type),
{
    match algo_type {
        LmotsAlgorithmType::LmotsReserved => LmotsParameter {
            algorithm_name: *algo_type, n: 0, w: 0, p: 0, ls: 0, sig_len: 0,
        },
        LmotsAlgorithmType::LmotsSha256N32W1 => LmotsParameter {
            algorithm_name: *algo_type, n: 32, w: 1, p: 265, ls: 7, sig_len: 8516,
        },
        LmotsAlgorithmType::LmotsSha256N32W2 => LmotsParameter {
            algorithm_name: *algo_type, n: 32, w: 2, p: 133, ls: 6, sig_len: 4292,
        },
        LmotsAlgorithmType::LmotsSha256N32W4 => LmotsParameter {
            algorithm_name: *algo_type, n: 32, w: 4, p: 67, ls: 4, sig_len: 2180,
        },
        LmotsAlgorithmType::LmotsSha256N32W8 => LmotsParameter {
            algorithm_name: *algo_type, n: 32, w: 8, p: 34, ls: 0, sig_len: 1124,
        },
        LmotsAlgorithmType::LmotsSha256N24W1 => LmotsParameter {
            algorithm_name: *algo_type, n: 24, w: 1, p: 200, ls: 8, sig_len: 4828,
        },
        LmotsAlgorithmType::LmotsSha256N24W2 => LmotsParameter {
            algorithm_name: *algo_type, n: 24, w: 2, p: 101, ls: 6, sig_len: 2452,
        },
        LmotsAlgorithmType::LmotsSha256N24W4 => LmotsParameter {
            algorithm_name: *algo_type, n: 24, w: 4, p: 51, ls: 4, sig_len: 1252,
        },
        LmotsAlgorithmType::LmotsSha256N24W8 => LmotsParameter {
            algorithm_name: *algo_type, n: 24, w: 8, p: 26, ls: 0, sig_len: 652,
        },
    }
}

/// Arithmetic facts about every non-reserved LM-OTS parameter bundle that the
/// chain engine and the codec lean on; each follows by computing the table row.
pub proof fn lemma_lmots_parameter_facts(t: LmotsAlgorithmType)
    requires
        !(t is LmotsReserved),
    ensures
        ({
            let param = spec_lmots_parameter(t);
            &&& crate::hashes::valid_width(param.n as int)
            &&& crate::coefs::valid_w(param.w as int)
            &&& param.ls <= 8
            &&& 1 <= param.p <= 300
            &&& 8 * (param.n as int) / (param.w as int) <= param.p as int
            &&& (param.p as int) * (param.w as int) <= 8 * (param.n as int) + 16
            &&& (param.n as int) * (8int / (param.w as int)) == 8 * (param.n as int) / (
            param.w as int)
            &&& (8 * (param.n as int) / (param.w as int)) * (param.w as int) <= 8 * (
            param.n as int)
            &&& 8 * (param.n as int) / (param.w as int) <= 256
            &&& pow2(param.w as nat) <= 256
        }),
{
    lemma2_to64();
    match t {
        LmotsAlgorithmType::LmotsReserved => {
        },
        LmotsAlgorithmType::LmotsSha256N32W1 => {
            assert(8 * 32 / 1 == 256);
        },
        LmotsAlgorithmType::LmotsSha256N32W2 => {
            assert(8 * 32 / 2 == 128);
        },
        LmotsAlgorithmType::LmotsSha256N32W4 => {
            assert(8 * 32 / 4 == 64);
        },
        LmotsAlgorithmType::LmotsSha256N32W8 => {
            assert(8 * 32 / 8 == 32);
        },
        LmotsAlgorithmType::LmotsSha256N24W1 => {
            assert(8 * 24 / 1 == 192);
        },
        LmotsAlgorithmType::LmotsSha256N24W2 => {
            assert(8 * 24 / 2 == 96);
        },
        LmotsAlgorithmType::LmotsSha256N24W4 => {
            assert(8 * 24 / 4 == 48);
        },
        LmotsAlgorithmType::LmotsSha256N24W8 => {
            assert(8 * 24 / 8 == 24);
        },
    }
}

/// Resolves an LMS identifier to (digest width, tree height); the reserved
/// identifier is the one invalid input.
pub fn get_lms_parameters(algo_type: &LmsAlgorithmType) -> (r: Result<(u8, u8), LmsError>)
    ensures
        *algo_type is LmsReserved <==> r is Err,
        r is Err ==> r == Result::<(u8, u8), LmsError>::Err(LmsError::InvalidLms),
        r is Ok ==> r == Result::<(u8, u8), LmsError>::Ok(spec_lms_parameters(*algo_type)),
{
    match algo_type {
        LmsAlgorithmType::LmsReserved => Err(LmsError::InvalidLms),
        LmsAlgorithmType::LmsSha256N32H5 => Ok((32, 5)),
        LmsAlgorithmType::LmsSha256N32H10 => Ok((32, 10)),
        LmsAlgorithmType::LmsSha256N32H15 => Ok((32, 15)),
        LmsAlgorithmType::LmsSha256N32H20 => Ok((32, 20)),
        LmsAlgorithmType::LmsSha256N32H25 => Ok((32, 25)),
        LmsAlgorithmType::LmsSha256N24H5 => Ok((24, 5)),
        LmsAlgorithmType::LmsSha256N24H10 => Ok((24, 10)),
        LmsAlgorithmType::LmsSha256N24H15 => Ok((24, 15)),
        LmsAlgorithmType::LmsSha256N24H20 => Ok((24, 20)),
        LmsAlgorithmType::LmsSha256N24H25 => Ok((24, 25)),
    }
}

/// Facts about every non-reserved LMS parameter pair: the width is one this
/// library supports and the height is between 5 and 25.
pub proof fn lemma_lms_parameter_facts(t: LmsAlgorithmType)
    requires
        !(t is LmsReserved),
    ensures
        ({
            let (n, h) = spec_lms_parameters(t);
            &&& crate::hashes::valid_width(n as int)
            &&& 5 <= h <= 25
        }),
{
}

/// The wire code of an LM-OTS identifier.
pub fn lmots_code(t: &LmotsAlgorithmType) -> (r: u32)
    ensures
        r == spec_lmots_code(*t),
{
    match t {
        LmotsAlgorithmType::LmotsReserved => 0,
        LmotsAlgorithmType::LmotsSha256N32W1 => 1,
        LmotsAlgorithmType::LmotsSha256N32W2 => 2,
        LmotsAlgorithmType::LmotsSha256N32W4 => 3,
        LmotsAlgorithmType::LmotsSha256N32W8 => 4,
        LmotsAlgorithmType::LmotsSha256N24W1 => 5,
        LmotsAlgorithmType::LmotsSha256N24W2 => 6,
        LmotsAlgorithmType::LmotsSha256N24W4 => 7,
        LmotsAlgorithmType::LmotsSha256N24W8 => 8,
    }
}

/// The wire code of an LMS identifier.
pub fn lms_code(t: &LmsAlgorithmType) -> (r: u32)
    ensures
        r == spec_lms_code(*t),
{
    match t {
        LmsAlgorithmType::LmsReserved => 0,
        LmsAlgorithmType::LmsSha256N32H5 => 5,
        LmsAlgorithmType::LmsSha256N32H10 => 6,
        LmsAlgorithmType::LmsSha256N32H15 => 7,
        LmsAlgorithmType::LmsSha256N32H20 => 8,
        LmsAlgorithmType::LmsSha256N32H25 => 9,
        LmsAlgorithmType::LmsSha256N24H5 => 10,
        LmsAlgorithmType::LmsSha256N24H10 => 11,
        LmsAlgorithmType::LmsSha256N24H15 => 12,
        LmsAlgorithmType::LmsSha256N24H20 => 13,
        LmsAlgorithmType::LmsSha256N24H25 => 14,
    }
}

/// The LM-OTS identifier of a wire code, with the reserved identifier
/// standing for every unknown code.
pub open spec fn spec_lmots_type_of(val: u32) -> LmotsAlgorithmType {
    if val == 1 {
        LmotsAlgorithmType::LmotsSha256N32W1
    } else if val == 2 {
        LmotsAlgorithmType::LmotsSha256N32W2
    } else if val == 3 {
        LmotsAlgorithmType::LmotsSha256N32W4
    } else if val == 4 {
        LmotsAlgorithmType::LmotsSha256N32W8
    } else if val == 5 {
        LmotsAlgorithmType::LmotsSha256N24W1
    } else if val == 6 {
        LmotsAlgorithmType::LmotsSha256N24W2
    } else if val == 7 {
        LmotsAlgorithmType::LmotsSha256N24W4
    } else if val == 8 {
        LmotsAlgorithmType::LmotsSha256N24W8
    } else {
        LmotsAlgorithmType::LmotsReserved
    }
}

/// The LMS identifier of a wire code, with the reserved identifier standing
/// for every unknown code.
pub open spec fn spec_lms_type_of(val: u32) -> LmsAlgorithmType {
    if val == 5 {
        LmsAlgorithmType::LmsSha256N32H5
    } else if val == 6 {
        LmsAlgorithmType::LmsSha256N32H10
    } else if val == 7 {
        LmsAlgorithmType::LmsSha256N32H15
    } else if val == 8 {
        LmsAlgorithmType::LmsSha256N32H20
    } else if val == 9 {
        LmsAlgorithmType::LmsSha256N32H25
    } else if val == 10 {
        LmsAlgorithmType::LmsSha256N24H5
    } else if val == 11 {
        LmsAlgorithmType::LmsSha256N24H10
    } else if val == 12 {
        LmsAlgorithmType::LmsSha256N24H15
    } else if val == 13 {
        LmsAlgorithmType::LmsSha256N24H20
    } else if val == 14 {
        LmsAlgorithmType::LmsSha256N24H25
    } else {
        LmsAlgorithmType::LmsReserved
    }
}

/// Each non-reserved identifier is named by its own code and by no other.
pub proof fn lemma_codes_invert()
    ensures
        forall|t: LmotsAlgorithmType|
            !(t is LmotsReserved) ==> spec_lmots_type_of(#[trigger] spec_lmots_code(t)) == t,
        forall|t: LmsAlgorithmType|
            !(t is LmsReserved) ==> spec_lms_type_of(#[trigger] spec_lms_code(t)) == t,
        forall|val: u32|
            1 <= val <= 8 ==> spec_lmots_code(#[trigger] spec_lmots_type_of(val)) == val,
        forall|val: u32| 5 <= val <= 14 ==> spec_lms_code(#[trigger] spec_lms_type_of(val)) == val,
{
}

/// The LM-OTS identifier of a wire code: exactly the codes 1 through 8 are
/// known, and the reserved code 0 is rejected like any unknown one.
pub fn lookup_lmots_algorithm_type(val: u32) -> (r: Result<LmotsAlgorithmType, LmsError>)
    ensures
        1 <= val <= 8 <==> r is Ok,
        r is Ok ==> r == Result::<LmotsAlgorithmType, LmsError>::Ok(spec_lmots_type_of(val)),
        r is Ok ==> spec_lmots_code(r->Ok_0) == val && !(r->Ok_0 is LmotsReserved),
        r is Err ==> r == Result::<LmotsAlgorithmType, LmsError>::Err(LmsError::UnknownAlgId),
{
    match val {
        1 => Ok(LmotsAlgorithmType::LmotsSha256N32W1),
        2 => Ok(LmotsAlgorithmType::LmotsSha256N32W2),
        3 => Ok(LmotsAlgorithmType::LmotsSha256N32W4),
        4 => Ok(LmotsAlgorithmType::LmotsSha256N32W8),
        5 => Ok(LmotsAlgorithmType::LmotsSha256N24W1),
        6 => Ok(LmotsAlgorithmType::LmotsSha256N24W2),
        7 => Ok(LmotsAlgorithmType::LmotsSha256N24W4),
        8 => Ok(LmotsAlgorithmType::LmotsSha256N24W8),
        _ => Err(LmsError::UnknownAlgId),
    }
}

/// The LMS identifier of a wire code: exactly the codes 5 through 14 are
/// known, and the reserved code 0 is rejected like any unknown one.
pub fn lookup_lms_algorithm_type(val: u32) -> (r: Result<LmsAlgorithmType, LmsError>)
    ensures
        5 <= val <= 14 <==> r is Ok,
        r is Ok ==> r == Result::<LmsAlgorithmType, LmsError>::Ok(spec_lms_type_of(val)),
        r is Ok ==> spec_lms_code(r->Ok_0) == val && !(r->Ok_0 is LmsReserved),
        r is Err ==> r == Result::<LmsAlgorithmType, LmsError>::Err(LmsError::UnknownAlgId),
{
    match val {
        5 => Ok(LmsAlgorithmType::LmsSha256N32H5),
        6 => Ok(LmsAlgorithmType::LmsSha256N32H10),
        7 => Ok(LmsAlgorithmType::LmsSha256N32H15),
        8 => Ok(LmsAlgorithmType::LmsSha256N32H20),
        9 => Ok(LmsAlgorithmType::LmsSha256N32H25),
        10 => Ok(LmsAlgorithmType::LmsSha256N24H5),
        11 => Ok(LmsAlgorithmType::LmsSha256N24H10),
        12 => Ok(LmsAlgorithmType::LmsSha256N24H15),
        13 => Ok(LmsAlgorithmType::LmsSha256N24H20),
        14 => Ok(LmsAlgorithmType::LmsSha256N24H25),
        _ => Err(LmsError::UnknownAlgId),
    }
}

} // verus!
