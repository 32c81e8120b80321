//! The digest primitive: SHA-256 for the 32-byte width, SHA-256 truncated to
//! its leading bytes for the 24-byte width. The compression function itself is
//! an outside call; everything layered on it is verified against its name.

use vstd::prelude::*;

verus! {

/// Domain separation tag hashed into every OTS public-key derivation.
pub const D_PBLC: u16 = 0x8080;

/// Domain separation tag hashed into every message hash.
pub const D_MESG: u16 = 0x8181;

/// Domain separation tag hashed into every tree leaf.
pub const D_LEAF: u16 = 0x8282;

/// Domain separation tag hashed into every interior tree node.
pub const D_INTR: u16 = 0x8383;

/// The SHA-256 digest of a byte string: a name for what the outside hash
/// returns, fixed by the input alone.
pub uninterp spec fn sha256_of(input: Seq<u8>) -> Seq<u8>;

/// Relies on openssl::sha::sha256: the 32-byte SHA-256 digest of the input,
/// a function of the input bytes alone.
#[verifier::external_body]
fn sha256(input: &Vec<u8>) -> (r: Vec<u8>)
    ensures
        r@ == sha256_of(input@),
        r@.len() == 32,
{
    openssl::sha::sha256(input.as_slice()).to_vec()
}

/// A digest width this library supports: 24 or 32 bytes.
pub open spec fn valid_width(n: int) -> bool {
    n == 24 || n == 32
}

/// The n-byte digest of a byte string: SHA-256, truncated to its first n
/// bytes when n is 24.
pub open spec fn digest_of(n: int, input: Seq<u8>) -> Seq<u8> {
    if n == 32 {
        sha256_of(input)
    } else {
        sha256_of(input).subrange(0, n)
    }
}

/// Computes the n-byte digest of `input`.
pub fn digest(n: usize, input: &Vec<u8>) -> (r: Vec<u8>)
    requires
        valid_width(n as int),
    ensures
        r@ == digest_of(n as int, input@),
        r@.len() == n,
{
    let mut full = sha256(input);
    if n == 24 {
        full.truncate(24);
    }
    full
}

} // verus!
