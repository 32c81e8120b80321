//! Winternitz coefficient extraction and checksum (RFC 8554 §3.1.3, §4.4):
//! the w-bit windows of a byte string, and the checksum that rides in the two
//! bytes appended to the message hash.

use vstd::prelude::*;
use vstd::arithmetic::power2::pow2;
use vstd::arithmetic::power2::lemma2_to64;

verus! {

/// A Winternitz width this library supports.
pub open spec fn valid_w(w: int) -> bool {
    w == 1 || w == 2 || w == 4 || w == 8
}

/// The w-bit window of `s` at bit position `i * w`, counted from the most
/// significant bit of each byte and masked to w bits.
pub open spec fn coef(s: Seq<u8>, i: int, w: int) -> u8
    recommends
        valid_w(w),
        0 <= i,
{
    let shift = 8 - (w * (i % (8int / w)) + w);
    let mask = (pow2(w as nat) - 1) as u8;
    (s[i * w / 8] >> (shift as u8)) & mask
}

/// Every coefficient is below 2^w, whatever the byte string holds.
pub proof fn lemma_coef_range(s: Seq<u8>, i: int, w: int)
    requires
        valid_w(w),
        0 <= i,
    ensures
        coef(s, i, w) < pow2(w as nat),
{
    lemma2_to64();
    let b = s[i * w / 8];
    let shift = (8 - (w * (i % (8int / w)) + w)) as u8;
    if w == 1 {
        assert((b >> shift) & 1u8 < 2) by (bit_vector);
    } else if w == 2 {
        assert((b >> shift) & 3u8 < 4) by (bit_vector);
    } else if w == 4 {
        assert((b >> shift) & 15u8 < 16) by (bit_vector);
    } else {
        assert((b >> shift) & 255u8 < 256) by (bit_vector);
    }
}

/// A quotient by 8 stays below m when the dividend is below 8 m.
pub proof fn lemma_div8_bound(a: int, m: int)
    requires
        0 <= a,
        a < 8 * m,
    ensures
        a / 8 < m,
{
    assert(a / 8 < m) by (nonlinear_arith)
        requires
            0 <= a,
            a < 8 * m,
    ;
}

/// Dividing the bit position by 8 and dividing the index by the coefficients
/// per byte name the same byte.
proof fn lemma_coef_index(i: int, w: int)
    requires
        valid_w(w),
        0 <= i,
    ensures
        i * w / 8 == i / (8int / w),
{
    if w == 1 {
        assert(i * 1 == i);
    } else if w == 2 {
        assert(i * 2 / 8 == i / 4) by (nonlinear_arith);
    } else if w == 4 {
        assert(i * 4 / 8 == i / 2) by (nonlinear_arith);
    } else {
        assert(i * 8 / 8 == i / 1) by (nonlinear_arith);
    }
}

/// Extracts the i-th w-bit coefficient of `s` (RFC 8554 §3.1.3).
pub fn coefficient(s: &[u8], i: usize, w: usize) -> (r: u8)
    requires
        valid_w(w as int),
        (i as int) * (w as int) < 8 * s@.len(),
    ensures
        r == coef(s@, i as int, w as int),
        r < pow2(w as nat),
{
    proof {
        lemma2_to64();
        lemma_coef_index(i as int, w as int);
        lemma_div8_bound((i as int) * (w as int), s@.len() as int);
    }
    let d = 8 / w;
    let index = i / d;
    let b = s[index];
    let rem = i % d;
    proof {
        assert((w as int) * (rem as int) + (w as int) <= 8) by (nonlinear_arith)
            requires
                rem < d,
                0 < w,
                (w as int) * (d as int) == 8,
        ;
    }
    let shift = (8 - (w * rem + w)) as u8;
    let mask: u8 = if w == 1 {
        1
    } else if w == 2 {
        3
    } else if w == 4 {
        15
    } else {
        255
    };
    let r = (b >> shift) & mask;
    proof {
        lemma_coef_range(s@, i as int, w as int);
    }
    r
}

/// The running checksum total over the first `count` coefficients:
/// each term is (2^w - 1) minus the coefficient.
pub open spec fn coef_sum(s: Seq<u8>, w: int, count: int) -> int
    decreases count,
{
    if count <= 0 {
        0
    } else {
        coef_sum(s, w, count - 1) + (pow2(w as nat) - 1) - coef(s, count - 1, w)
    }
}

/// The total stays between 0 and count * (2^w - 1).
pub proof fn lemma_coef_sum_bound(s: Seq<u8>, w: int, count: int)
    requires
        valid_w(w),
        0 <= count,
    ensures
        0 <= coef_sum(s, w, count) <= count * (pow2(w as nat) - 1),
    decreases count,
{
    if count > 0 {
        lemma_coef_sum_bound(s, w, count - 1);
        lemma_coef_range(s, count - 1, w);
        let top = pow2(w as nat) - 1;
        assert((count - 1) * top + top == count * top) by (nonlinear_arith);
    }
}

/// The Winternitz checksum: the coefficient total over all 8n/w coefficients
/// of the n-byte string, shifted left by ls into checksum position.
pub open spec fn spec_checksum(n: int, w: int, ls: int, s: Seq<u8>) -> u16 {
    (coef_sum(s, w, 8 * n / w) as u16) << (ls as u16)
}

/// Computes the checksum of `input_string` under the given LM-OTS parameters
/// (RFC 8554 §4.4).
pub fn checksum(algo_type: &crate::params::LmotsAlgorithmType, input_string: &[u8]) -> (r: u16)
    requires
        !(*algo_type is LmotsReserved),
        crate::params::spec_lmots_parameter(*algo_type).n as int <= input_string@.len(),
    ensures
        ({
            let param = crate::params::spec_lmots_parameter(*algo_type);
            r == spec_checksum(param.n as int, param.w as int, param.ls as int, input_string@)
        }),
{
    proof {
        crate::params::lemma_lmots_parameter_facts(*algo_type);
        lemma2_to64();
        let param = crate::params::spec_lmots_parameter(*algo_type);
        let scount = 8 * (param.n as int) / (param.w as int);
        let stop = pow2(param.w as nat) - 1;
        assert(scount * stop < 0x10000) by (nonlinear_arith)
            requires
                0 <= scount <= 256,
                0 <= stop <= 255,
        ;
    }
    let param = crate::params::lmots_parameter_of(algo_type);
    let n = param.n as usize;
    let w = param.w as usize;
    let count = n * (8 / w);
    let max_coef: u16 = if w == 1 {
        1
    } else if w == 2 {
        3
    } else if w == 4 {
        15
    } else {
        255
    };
    let mut sum: u16 = 0;
    let mut i: usize = 0;
    while i < count
        invariant
            valid_w(w as int),
            count as int == 8 * (n as int) / (w as int),
            max_coef as int == pow2(w as nat) - 1,
            n <= input_string@.len(),
            (count as int) * (pow2(w as nat) - 1) < 0x10000,
            (count as int) * (w as int) <= 8 * (n as int),
            0 <= i <= count,
            sum == coef_sum(input_string@, w as int, i as int),
            sum as int <= (i as int) * (pow2(w as nat) - 1),
        decreases count - i,
    {
        proof {
            let top = pow2(w as nat) - 1;
            assert((i as int) * (w as int) < (count as int) * (w as int)) by (nonlinear_arith)
                requires
                    i < count,
                    0 < w,
            ;
            lemma_coef_sum_bound(input_string@, w as int, i as int);
            assert((i as int) * top + top == (i + 1) * top) by (nonlinear_arith);
            assert((i + 1) * top <= (count as int) * top) by (nonlinear_arith)
                requires
                    i + 1 <= count,
                    0 <= top,
            ;
        }
        let c = coefficient(input_string, i, w);
        sum = sum + (max_coef - c as u16);
        i = i + 1;
    }
    sum << (param.ls as u16)
}

} // verus!
