//! Elements of the Ristretto group, held as their 32-byte encodings.
//!
//! The group has prime order ℓ, so it is cyclic and the base point `B`
//! generates it: every element is a multiple `k·B` with `k` below ℓ, and
//! the group law is addition of these multipliers modulo ℓ. The encoding is
//! canonical: an element has one encoding. The contracts of this module
//! speak of an element through the multipliers that give it. The arithmetic
//! itself is `curve25519_dalek`'s, and what is stated of it here is taken
//! on trust.

use vstd::prelude::*;
use crate::scalar::{group_order, Scalar};

verus! {

/// The 32-byte encoding of `k·B`, the base point of the Ristretto group
/// taken `k` times.
pub uninterp spec fn ristretto_base_mul(k: nat) -> Seq<u8>;

/// `encoding` is the encoding of `k·B`, and `k` is a scalar.
pub open spec fn is_base_multiple(encoding: Seq<u8>, k: nat) -> bool {
    k < group_order() && encoding == ristretto_base_mul(k)
}

/// `bytes` is the encoding of an element of the group.
pub open spec fn is_ristretto_encoding(bytes: Seq<u8>) -> bool {
    exists|k: nat| is_base_multiple(bytes, k)
}

/// `curve25519_dalek::ristretto::CompressedRistretto::decompress` gives a
/// point exactly when the buffer is the canonical encoding of an element of
/// the group. The elements are the multiples of the base point, so this is
/// stated as: the buffer is the encoding of `k·B` for some scalar `k`.
#[verifier::external_body]
fn dalek_decompresses(bytes: &[u8; 32]) -> (ok: bool)
    ensures
        ok == is_ristretto_encoding(bytes@),
{
    curve25519_dalek::ristretto::CompressedRistretto(*bytes).decompress().is_some()
}

/// A `curve25519_dalek::scalar::Scalar` times
/// `curve25519_dalek::constants::RISTRETTO_BASEPOINT_POINT`, compressed by
/// `RistrettoPoint::compress`: the encoding of `k·B` for the canonical
/// scalar `k` that the buffer holds. The contract gives this value its
/// name and claims nothing else.
#[verifier::external_body]
fn dalek_base_mul(k: &[u8; 32]) -> (out: [u8; 32])
    requires
        crate::scalar::le_value(k@) < group_order(),
    ensures
        out@ == ristretto_base_mul(crate::scalar::le_value(k@)),
{
    let k = curve25519_dalek::scalar::Scalar::from_bits(*k);
    (k * curve25519_dalek::constants::RISTRETTO_BASEPOINT_POINT).compress().to_bytes()
}

/// A `curve25519_dalek::scalar::Scalar` times a
/// `curve25519_dalek::ristretto::RistrettoPoint` (their `Mul`), from
/// encoding to encoding. The contract states the law of scalar
/// multiplication in a group of order ℓ: `s` times `k·B` is `(s·k mod ℓ)·B`.
/// The buffer `p` must hold the encoding of an element, which is
/// decompressed here.
#[verifier::external_body]
fn dalek_point_mul(s: &[u8; 32], p: &[u8; 32]) -> (out: [u8; 32])
    requires
        crate::scalar::le_value(s@) < group_order(),
        is_ristretto_encoding(p@),
    ensures
        forall|k: nat| #[trigger]
            is_base_multiple(p@, k) ==> is_base_multiple(
                out@,
                (crate::scalar::le_value(s@) * k) % group_order(),
            ),
{
    let s = curve25519_dalek::scalar::Scalar::from_bits(*s);
    let p = curve25519_dalek::ristretto::CompressedRistretto(*p).decompress().unwrap();
    (s * p).compress().to_bytes()
}

/// The sum of two `curve25519_dalek::ristretto::RistrettoPoint`s (their
/// `Add`), from encodings to encoding. The contract states the group law on
/// the multiples of the base point: `a·B` plus `b·B` is `(a + b mod ℓ)·B`.
/// Both buffers must hold encodings of elements, which are decompressed
/// here.
#[verifier::external_body]
fn dalek_point_add(p: &[u8; 32], q: &[u8; 32]) -> (out: [u8; 32])
    requires
        is_ristretto_encoding(p@),
        is_ristretto_encoding(q@),
    ensures
        forall|a: nat, b: nat|
            #[trigger] is_base_multiple(p@, a) && #[trigger] is_base_multiple(q@, b)
                ==> is_base_multiple(out@, (a + b) % group_order()),
{
    let p = curve25519_dalek::ristretto::CompressedRistretto(*p).decompress().unwrap();
    let q = curve25519_dalek::ristretto::CompressedRistretto(*q).decompress().unwrap();
    (p + q).compress().to_bytes()
}

/// An element of the Ristretto group. Its view is its encoding.
#[derive(Clone, Copy, Debug)]
pub struct RistrettoPoint {
    bytes: [u8; 32],
}

impl View for RistrettoPoint {
    type V = Seq<u8>;

    closed spec fn view(&self) -> Seq<u8> {
        self.bytes@
    }
}

impl RistrettoPoint {
    #[verifier::type_invariant]
    closed spec fn is_element(&self) -> bool {
        is_ristretto_encoding(self.bytes@)
    }

    /// The element that `bytes` encodes, if it encodes one.
    pub fn decompress(bytes: &[u8; 32]) -> (decoded: Option<RistrettoPoint>)
        ensures
            decoded is Some <==> is_ristretto_encoding(bytes@),
            decoded matches Some(p) ==> p@ == bytes@,
    {
        if dalek_decompresses(bytes) {
            Some(RistrettoPoint { bytes: *bytes })
        } else {
            None
        }
    }

    /// The encoding of the element.
    pub fn compress(&self) -> (bytes: [u8; 32])
        ensures
            bytes@ == self@,
            is_ristretto_encoding(self@),
    {
        proof {
            use_type_invariant(self);
        }
        self.bytes
    }

    /// The base point taken `k` times.
    pub fn base_mul(k: &Scalar) -> (p: RistrettoPoint)
        ensures
            is_base_multiple(p@, k@),
    {
        let out = dalek_base_mul(&k.to_bytes());
        assert(is_base_multiple(out@, k@));
        RistrettoPoint { bytes: out }
    }

    /// The element taken `s` times.
    pub fn mul(&self, s: &Scalar) -> (p: RistrettoPoint)
        ensures
            is_ristretto_encoding(p@),
            forall|k: nat| #[trigger]
                is_base_multiple(self@, k) ==> is_base_multiple(p@, (s@ * k) % group_order()),
    {
        proof {
            use_type_invariant(self);
        }
        let out = dalek_point_mul(&s.to_bytes(), &self.bytes);
        proof {
            let k = choose|k: nat| is_base_multiple(self.bytes@, k);
            assert(is_base_multiple(out@, (s@ * k) % group_order()));
        }
        RistrettoPoint { bytes: out }
    }

    /// The sum of two elements.
    pub fn add(&self, rhs: &RistrettoPoint) -> (p: RistrettoPoint)
        ensures
            is_ristretto_encoding(p@),
            forall|a: nat, b: nat|
                #[trigger] is_base_multiple(self@, a) && #[trigger] is_base_multiple(rhs@, b)
                    ==> is_base_multiple(p@, (a + b) % group_order()),
    {
        proof {
            use_type_invariant(self);
            use_type_invariant(rhs);
        }
        let out = dalek_point_add(&self.bytes, &rhs.bytes);
        proof {
            let a = choose|a: nat| is_base_multiple(self.bytes@, a);
            let b = choose|b: nat| is_base_multiple(rhs.bytes@, b);
            assert(is_base_multiple(out@, (a + b) % group_order()));
        }
        RistrettoPoint { bytes: out }
    }
}

} // verus!
