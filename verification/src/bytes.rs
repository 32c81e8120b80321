//! Big-endian encodings of the fixed-width integers that appear inside hash
//! inputs and in the wire format.

use vstd::prelude::*;

verus! {

/// The four bytes of `x`, most significant first.
pub open spec fn be32(x: u32) -> Seq<u8> {
    seq![(x >> 24) as u8, (x >> 16) as u8, (x >> 8) as u8, x as u8]
}

/// The two bytes of `x`, most significant first.
pub open spec fn be16(x: u16) -> Seq<u8> {
    seq![(x >> 8) as u8, x as u8]
}

/// Big-endian encoding of a `u32`.
pub fn u32str(x: u32) -> (r: Vec<u8>)
    ensures
        r@ == be32(x),
{
    let mut r: Vec<u8> = Vec::new();
    r.push((x >> 24) as u8);
    r.push((x >> 16) as u8);
    r.push((x >> 8) as u8);
    r.push(x as u8);
    proof {
        assert(r@ =~= be32(x));
    }
    r
}

/// Big-endian encoding of a `u16`.
pub fn u16str(x: u16) -> (r: Vec<u8>)
    ensures
        r@ == be16(x),
{
    let mut r: Vec<u8> = Vec::new();
    r.push((x >> 8) as u8);
    r.push(x as u8);
    proof {
        assert(r@ =~= be16(x));
    }
    r
}

/// A single byte as a one-byte string.
pub fn u8str(x: u8) -> (r: Vec<u8>)
    ensures
        r@ == seq![x],
{
    let mut r: Vec<u8> = Vec::new();
    r.push(x);
    proof {
        assert(r@ =~= seq![x]);
    }
    r
}

/// Appends a byte slice to a buffer.
pub fn append_bytes(buf: &mut Vec<u8>, other: &[u8])
    ensures
        final(buf)@ == old(buf)@ + other@,
{
    buf.extend_from_slice(other);
    proof {
        assert(buf@ =~= old(buf)@ + other@);
    }
}

/// A vector of `n` zero bytes.
pub fn zero_bytes(n: usize) -> (r: Vec<u8>)
    ensures
        r@.len() == n,
{
    let mut r: Vec<u8> = Vec::new();
    let mut i: usize = 0;
    while i < n
        invariant
            0 <= i <= n,
            r@.len() == i,
        decreases n - i,
    {
        r.push(0);
        i = i + 1;
    }
    r
}

/// Byte equality of two byte vectors.
pub fn bytes_eq(a: &Vec<u8>, b: &Vec<u8>) -> (r: bool)
    ensures
        r == (a@ == b@),
{
    if a.len() != b.len() {
        return false;
    }
    let mut i: usize = 0;
    while i < a.len()
        invariant
            a@.len() == b@.len(),
            0 <= i <= a@.len(),
            forall|k: int| 0 <= k < i ==> a@[k] == b@[k],
        decreases a@.len() - i,
    {
        if a[i] != b[i] {
            return false;
        }
        i = i + 1;
    }
    proof {
        assert(a@ =~= b@);
    }
    true
}

/// An exact copy of a byte vector.
pub fn clone_bytes(v: &Vec<u8>) -> (r: Vec<u8>)
    ensures
        r@ == v@,
{
    let r = v.clone();
    proof {
        assert(r@ =~= v@);
    }
    r
}

/// Copies `bytes[from .. to]` into a fresh vector.
pub fn copy_range(bytes: &[u8], from: usize, to: usize) -> (r: Vec<u8>)
    requires
        from <= to <= bytes@.len(),
    ensures
        r@ == bytes@.subrange(from as int, to as int),
{
    let mut r: Vec<u8> = Vec::new();
    let mut i: usize = from;
    while i < to
        invariant
            from <= i <= to <= bytes@.len(),
            r@.len() == i - from,
            forall|k: int| 0 <= k < i - from ==> r@[k] == bytes@[from + k],
        decreases to - i,
    {
        r.push(bytes[i]);
        i = i + 1;
    }
    proof {
        assert(r@ =~= bytes@.subrange(from as int, to as int));
    }
    r
}

/// Reads the big-endian `u32` at `bytes[at .. at + 4]`.
pub fn read_u32(bytes: &[u8], at: usize) -> (r: u32)
    requires
        at + 4 <= bytes@.len(),
    ensures
        be32(r) == bytes@.subrange(at as int, at + 4),
        r == be32_value(bytes@.subrange(at as int, at + 4)),
{
    let r = ((bytes[at] as u32) << 24) | ((bytes[at + 1] as u32) << 16)
        | ((bytes[at + 2] as u32) << 8) | (bytes[at + 3] as u32);
    proof {
        let b0 = bytes@[at as int];
        let b1 = bytes@[at as int + 1];
        let b2 = bytes@[at as int + 2];
        let b3 = bytes@[at as int + 3];
        assert({
            let v = ((b0 as u32) << 24) | ((b1 as u32) << 16) | ((b2 as u32) << 8) | (b3 as u32);
            (v >> 24) as u8 == b0 && (v >> 16) as u8 == b1 && (v >> 8) as u8 == b2 && v as u8 == b3
        }) by (bit_vector);
        assert(be32(r) =~= bytes@.subrange(at as int, at + 4));
        lemma_be32_value(r);
    }
    r
}

/// The `u32` whose big-endian encoding a four-byte string is.
pub open spec fn be32_value(s: Seq<u8>) -> u32 {
    (((s[0] as u32) << 24) | ((s[1] as u32) << 16) | ((s[2] as u32) << 8) | (s[3] as u32)) as u32
}

/// `be32` and `be32_value` invert each other.
pub proof fn lemma_be32_value(x: u32)
    ensures
        be32_value(be32(x)) == x,
{
    let b0 = (x >> 24) as u8;
    let b1 = (x >> 16) as u8;
    let b2 = (x >> 8) as u8;
    let b3 = x as u8;
    assert(
        (((b0 as u32) << 24) | ((b1 as u32) << 16) | ((b2 as u32) << 8) | (b3 as u32)) as u32 == x
    ) by (bit_vector)
        requires
            b0 == (x >> 24) as u8 && b1 == (x >> 16) as u8 && b2 == (x >> 8) as u8 && b3 == x as u8,
    ;
}

} // verus!
