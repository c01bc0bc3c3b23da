//! The signer's side of the exchange.

use vstd::prelude::*;
use crate::error::Error;
use crate::Result;
use crate::protocol::blind_signature;
use crate::ristretto::{is_base_multiple, RistrettoPoint};
use crate::scalar::{group_order, le_value, Scalar};

verus! {

/// One signing session: the nonce `k` behind the commitment `R' = k·B`
/// that went to the client. `sign` takes the session by value, so a nonce
/// answers one challenge and no more.
pub struct BlindSigner {
    k: Scalar,
}

impl BlindSigner {
    /// The nonce of the session.
    pub closed spec fn nonce(&self) -> nat {
        self.k@
    }

    /// Opens a session on a nonce drawn from the secure random source.
    /// Gives the commitment `R'` to send to the client, and the session.
    pub fn new() -> (opened: Result<([u8; 32], BlindSigner)>)
        ensures
            opened matches Ok((rp, signer)) ==> is_base_multiple(rp@, signer.nonce()),
            opened matches Err(e) ==> e == Error::RngInitFailed,
    {
        match Scalar::random() {
            Ok(k) => Ok(BlindSigner::with_nonce(k)),
            Err(e) => Err(e),
        }
    }

    /// Opens a session on the nonce `k`. A nonce must never serve twice,
    /// nor be known to anyone but the signer.
    pub fn with_nonce(k: Scalar) -> (opened: ([u8; 32], BlindSigner))
        ensures
            opened.1.nonce() == k@,
            is_base_multiple(opened.0@, k@),
    {
        let rp = RistrettoPoint::base_mul(&k).compress();
        (rp, BlindSigner { k })
    }

    /// Answers the blinded challenge `ep` with the blinded signature
    /// `s' = xs·e' + k` under the secret key `xs`, and ends the session.
    /// A challenge that is not the canonical encoding of a scalar is
    /// refused.
    pub fn sign(self, ep: &[u8; 32], xs: Scalar) -> (answer: Result<[u8; 32]>)
        ensures
            answer is Ok <==> le_value(ep@) < group_order(),
            answer matches Ok(sp) ==> le_value(sp@) == blind_signature(
                xs@,
                le_value(ep@),
                self.nonce(),
            ) && le_value(sp@) < group_order(),
            answer matches Err(e) ==> e == Error::WiredScalarMalformed,
    {
        let ep_scalar = match Scalar::from_canonical_bytes(*ep) {
            Some(scalar) => scalar,
            None => {
                return Err(Error::WiredScalarMalformed);
            },
        };
        let sp = xs.mul(&ep_scalar).add(&self.k);
        proof {
            vstd::arithmetic::div_mod::lemma_add_mod_noop_right(
                self.k@ as int,
                (xs@ * ep_scalar@) as int,
                group_order() as int,
            );
        }
        Ok(sp.to_bytes())
    }
}

} // verus!
