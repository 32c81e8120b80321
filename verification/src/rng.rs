//! The random source: fresh bytes for the per-tree identifier, the chain
//! seeds, and the per-signature nonce. Nothing is promised of the values
//! beyond their length; every consumer is verified for every outcome.

use vstd::prelude::*;

verus! {

/// Relies on rand::random over [u8; 32]: 32 bytes from the thread-local
/// cryptographically secure generator. Nothing holds of their values.
#[verifier::external_body]
pub(crate) fn random_bytes_32() -> (r: Vec<u8>)
    ensures
        r@.len() == 32,
{
    let data: [u8; 32] = rand::random();
    data.to_vec()
}

/// Relies on rand::random over [u8; 16]: 16 bytes from the thread-local
/// cryptographically secure generator. Nothing holds of their values.
#[verifier::external_body]
pub(crate) fn random_bytes_16() -> (r: Vec<u8>)
    ensures
        r@.len() == 16,
{
    let data: [u8; 16] = rand::random();
    data.to_vec()
}

/// Fresh random bytes of a supported digest width.
pub(crate) fn random_digest(n: usize) -> (r: Vec<u8>)
    requires
        n == 24 || n == 32,
    ensures
        r@.len() == n,
{
    let mut r = random_bytes_32();
    if n == 24 {
        r.truncate(24);
    }
    r
}

} // verus!
