//! The signature that the exchange ends in.

use vstd::prelude::*;
use crate::ristretto::RistrettoPoint;
use crate::scalar::Scalar;

verus! {

/// A Schnorr signature `(e, s, R)` on the client's message, which anyone
/// who knows the signer's public key `X` can check: `s·B = R + e·X`.
#[derive(Clone, Copy, Debug)]
pub struct UnblindedSigData {
    /// The challenge `e = H(R ‖ m)`.
    pub e: Scalar,
    /// The signature scalar `s`.
    pub s: Scalar,
    /// The commitment `R`.
    pub r: RistrettoPoint,
}

impl UnblindedSigData {
    /// The signature with these three parts.
    pub fn new(e: Scalar, s: Scalar, r: RistrettoPoint) -> (sig: UnblindedSigData)
        ensures
            sig.e == e,
            sig.s == s,
            sig.r == r,
    {
        UnblindedSigData { e, s, r }
    }
}

} // verus!
