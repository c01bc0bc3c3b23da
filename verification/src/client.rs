//! The client's side of the exchange.

use vstd::prelude::*;
use crate::challenge::{generate_e, is_challenge_of, WideHash};
use crate::error::Error;
use crate::Result;
use crate::protocol::{
    blind_signature,
    blinded_challenge,
    blinded_commitment,
    lemma_honest_signature_verifies,
    unblinded_signature,
    verifies,
};
use crate::ristretto::{is_base_multiple, is_ristretto_encoding, RistrettoPoint};
use crate::scalar::{group_order, is_invertible, le_value, Scalar};
use crate::signature::UnblindedSigData;

verus! {

/// One session of a client: the blinding factors `u` and `v`, the blinded
/// commitment `R = u·R' + v·B` and the challenge `e = H(R ‖ m)`.
/// `finalize` takes the session by value, so it unblinds one answer and no
/// more.
pub struct BlindClient {
    u: Scalar,
    v: Scalar,
    r: RistrettoPoint,
    e: Scalar,
}

impl BlindClient {
    /// The blinding factor `u`.
    pub closed spec fn u(&self) -> nat {
        self.u@
    }

    /// The blinding factor `v`.
    pub closed spec fn v(&self) -> nat {
        self.v@
    }

    /// The encoding of the blinded commitment `R`.
    pub closed spec fn commitment(&self) -> Seq<u8> {
        self.r@
    }

    /// The challenge `e`.
    pub closed spec fn challenge(&self) -> nat {
        self.e@
    }

    /// The session was opened on the signer's commitment `rp` for the
    /// message `m`, and `ep` is the blinded challenge that belongs to it.
    pub open spec fn opened_on<H: WideHash>(&self, rp: Seq<u8>, m: Seq<u8>, ep: Seq<u8>) -> bool {
        &&& forall|k: nat| #[trigger]
            is_base_multiple(rp, k) ==> is_base_multiple(
                self.commitment(),
                blinded_commitment(self.u(), self.v(), k),
            )
        &&& is_challenge_of::<H>(self.commitment(), m, self.challenge())
        &&& le_value(ep) == blinded_challenge(self.u(), self.challenge())
        &&& le_value(ep) < group_order()
        &&& self.u() != 0 ==> is_invertible(self.u())
    }

    /// An honest exchange ends in a signature that verifies. The client
    /// opened its session on the commitment `rp = k·B` of a signer with
    /// nonce `k`, with a factor `u` other than zero, and sent `ep`; the
    /// signer answered under its key `xs`. Then the commitment of the
    /// session is `R = r·B` for an `r` with which the unblinded scalar `s`
    /// and the challenge `e` satisfy `s·B = R + e·(xs·B)`.
    pub proof fn lemma_exchange_verifies<H: WideHash>(
        &self,
        rp: Seq<u8>,
        m: Seq<u8>,
        ep: Seq<u8>,
        k: nat,
        xs: nat,
    )
        requires
            self.opened_on::<H>(rp, m, ep),
            is_base_multiple(rp, k),
            self.u() != 0,
        ensures
            is_base_multiple(self.commitment(), blinded_commitment(self.u(), self.v(), k)),
            verifies(
                unblinded_signature(blind_signature(xs, le_value(ep), k), self.u(), self.v()),
                blinded_commitment(self.u(), self.v(), k),
                self.challenge(),
                xs,
            ),
    {
        lemma_honest_signature_verifies(xs, k, self.u(), self.v(), self.challenge());
    }

    /// Opens a session for `message` on the signer's commitment `rp`, with
    /// blinding factors drawn from the secure random source. Gives the
    /// blinded challenge `e' = u⁻¹·e` to send to the signer, and the
    /// session. A commitment that does not encode a group element is
    /// refused before anything is drawn.
    pub fn initiate<H: WideHash>(rp: &[u8; 32], message: &[u8]) -> (opened: Result<
        ([u8; 32], BlindClient),
    >)
        ensures
            !is_ristretto_encoding(rp@) ==> opened is Err,
            opened matches Err(e) ==> e == if is_ristretto_encoding(rp@) {
                Error::RngInitFailed
            } else {
                Error::WiredRistrettoPointMalformed
            },
            opened matches Ok((ep, client)) ==> client.opened_on::<H>(rp@, message@, ep@),
    {
        let point = match RistrettoPoint::decompress(rp) {
            Some(point) => point,
            None => {
                return Err(Error::WiredRistrettoPointMalformed);
            },
        };
        let u = match Scalar::random() {
            Ok(u) => u,
            Err(e) => {
                return Err(e);
            },
        };
        let v = match Scalar::random() {
            Ok(v) => v,
            Err(e) => {
                return Err(e);
            },
        };
        Ok(BlindClient::blind::<H>(&point, message, u, v))
    }

    /// Opens a session as `initiate` does, with the blinding factors `u`
    /// and `v`. A pair of factors must never serve for two messages.
    pub fn initiate_with_blinding<H: WideHash>(
        rp: &[u8; 32],
        message: &[u8],
        u: Scalar,
        v: Scalar,
    ) -> (opened: Result<([u8; 32], BlindClient)>)
        ensures
            opened is Ok <==> is_ristretto_encoding(rp@),
            opened matches Err(e) ==> e == Error::WiredRistrettoPointMalformed,
            opened matches Ok((ep, client)) ==> client.u() == u@ && client.v() == v@
                && client.opened_on::<H>(rp@, message@, ep@),
    {
        match RistrettoPoint::decompress(rp) {
            Some(point) => Ok(BlindClient::blind::<H>(&point, message, u, v)),
            None => Err(Error::WiredRistrettoPointMalformed),
        }
    }

    /// Blinds the commitment `rp` with `u` and `v` and derives the two
    /// challenges from it.
    fn blind<H: WideHash>(rp: &RistrettoPoint, message: &[u8], u: Scalar, v: Scalar) -> (opened: (
        [u8; 32],
        BlindClient,
    ))
        ensures
            opened.1.u() == u@,
            opened.1.v() == v@,
            opened.1.opened_on::<H>(rp@, message@, opened.0@),
    {
        let blinded = rp.mul(&u);
        let offset = RistrettoPoint::base_mul(&v);
        let r = blinded.add(&offset);
        let e = generate_e::<H>(&r, message);
        let ep = u.invert().mul(&e);
        assert forall|k: nat| #[trigger] is_base_multiple(rp@, k) implies is_base_multiple(
            r@,
            blinded_commitment(u@, v@, k),
        ) by {
            let uk = (u@ * k) % group_order();
            assert(is_base_multiple(blinded@, uk));
            assert(is_base_multiple(offset@, v@));
            assert(is_base_multiple(r@, (uk + v@) % group_order()));
            vstd::arithmetic::div_mod::lemma_add_mod_noop(
                (u@ * k) as int,
                v@ as int,
                group_order() as int,
            );
            vstd::arithmetic::div_mod::lemma_small_mod(v@, group_order());
        }
        (ep.to_bytes(), BlindClient { u, v, r, e })
    }

    /// Unblinds the signer's answer `sp` into the signature `(e, s, R)`
    /// with `s = s'·u + v`, and ends the session. An answer that is not the
    /// canonical encoding of a scalar is refused.
    pub fn finalize(self, sp: &[u8; 32]) -> (signature: Result<UnblindedSigData>)
        ensures
            signature is Ok <==> le_value(sp@) < group_order(),
            signature matches Ok(sig) ==> sig.e@ == self.challenge() && sig.s@
                == unblinded_signature(le_value(sp@), self.u(), self.v()) && sig.r@
                == self.commitment(),
            signature matches Err(e) ==> e == Error::WiredScalarMalformed,
    {
        let sp_scalar = match Scalar::from_canonical_bytes(*sp) {
            Some(scalar) => scalar,
            None => {
                return Err(Error::WiredScalarMalformed);
            },
        };
        let s = sp_scalar.mul(&self.u).add(&self.v);
        proof {
            vstd::arithmetic::div_mod::lemma_add_mod_noop_right(
                self.v@ as int,
                (sp_scalar@ * self.u@) as int,
                group_order() as int,
            );
        }
        Ok(UnblindedSigData::new(self.e, s, self.r))
    }
}

} // verus!
