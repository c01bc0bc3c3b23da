//! The challenge of a signature: the hash of the commitment and the
//! message, read as a scalar.

use vstd::prelude::*;
use crate::ristretto::RistrettoPoint;
use crate::scalar::{group_order, le_value, Scalar};

verus! {

/// A hash function with a 64-byte digest, chosen by the caller. Nothing is
/// taken for granted of an implementation: what is proved of a challenge
/// is proved for whatever digest came back.
pub trait WideHash {
    /// Hashes `input`.
    fn digest(input: &[u8]) -> [u8; 64];
}

/// `digest` is what the hash `H` may give for `input`.
pub open spec fn is_digest_of<H: WideHash>(input: Seq<u8>, digest: Seq<u8>) -> bool {
    exists|i: &[u8], d: [u8; 64]| i@ == input && d@ == digest && call_ensures(H::digest, (i,), d)
}

/// The hash `H` is a function of its input: one input has one digest.
pub open spec fn is_deterministic<H: WideHash>() -> bool {
    forall|input: Seq<u8>, d1: Seq<u8>, d2: Seq<u8>|
        is_digest_of::<H>(input, d1) && is_digest_of::<H>(input, d2) ==> d1 == d2
}

/// The scalar that a digest stands for: its first 32 bytes, read least
/// significant byte first and reduced modulo the order of the group. The
/// other 32 bytes of the digest are not used.
pub open spec fn challenge_of_digest(digest: Seq<u8>) -> nat {
    le_value(digest.subrange(0, 32)) % group_order()
}

/// `e` is the challenge `H(R ‖ m)` for the commitment with encoding `r`
/// and the message `m`: the scalar that a digest of `r` followed by `m`
/// stands for.
pub open spec fn is_challenge_of<H: WideHash>(r: Seq<u8>, m: Seq<u8>, e: nat) -> bool {
    exists|digest: Seq<u8>| is_digest_of::<H>(r + m, digest) && e == challenge_of_digest(digest)
}

/// Where the hash is a function of its input, the challenge is a function
/// of the commitment and the message: hashing the same pair twice gives
/// the same challenge.
pub proof fn lemma_challenge_is_deterministic<H: WideHash>(
    r: Seq<u8>,
    m: Seq<u8>,
    e1: nat,
    e2: nat,
)
    requires
        is_deterministic::<H>(),
        is_challenge_of::<H>(r, m, e1),
        is_challenge_of::<H>(r, m, e2),
    ensures
        e1 == e2,
{
    let d1 = choose|d: Seq<u8>| is_digest_of::<H>(r + m, d) && e1 == challenge_of_digest(d);
    let d2 = choose|d: Seq<u8>| is_digest_of::<H>(r + m, d) && e2 == challenge_of_digest(d);
    assert(d1 == d2);
}

/// Reads a 64-byte digest as a challenge.
pub fn challenge_from_digest(digest: &[u8; 64]) -> (e: Scalar)
    ensures
        e@ == challenge_of_digest(digest@),
{
    let mut low: [u8; 32] = [0u8; 32];
    let mut i: usize = 0;
    while i < 32
        invariant
            i <= 32,
            forall|j: int| 0 <= j < i ==> low@[j] == digest@[j],
        decreases 32 - i,
    {
        low[i] = digest[i];
        i += 1;
    }
    assert(low@ =~= digest@.subrange(0, 32));
    Scalar::from_bytes_mod_order(low)
}

/// Computes the challenge `e = H(R ‖ m)`.
pub fn generate_e<H: WideHash>(r: &RistrettoPoint, m: &[u8]) -> (e: Scalar)
    ensures
        is_challenge_of::<H>(r@, m@, e@),
{
    let encoding = r.compress();
    let mut input: Vec<u8> = Vec::new();
    let mut i: usize = 0;
    while i < 32
        invariant
            i <= 32,
            input@ == encoding@.subrange(0, i as int),
        decreases 32 - i,
    {
        input.push(encoding[i]);
        i += 1;
    }
    assert(input@ == encoding@);
    let mut j: usize = 0;
    while j < m.len()
        invariant
            j <= m.len(),
            input@ == encoding@ + m@.subrange(0, j as int),
        decreases m.len() - j,
    {
        input.push(m[j]);
        j += 1;
    }
    assert(input@ == r@ + m@);
    let digest = H::digest(input.as_slice());
    assert(is_digest_of::<H>(r@ + m@, digest@));
    challenge_from_digest(&digest)
}

} // verus!
