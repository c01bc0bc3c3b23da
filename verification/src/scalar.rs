//! Scalars: the integers modulo the order of the group.

use vstd::prelude::*;
use crate::error::Error;
use crate::Result;

verus! {

/// The order ℓ = 2^252 + 27742317777372353535851937790883648493 of the
/// Ristretto group.
pub open spec fn group_order() -> nat {
    7237005577332262213973186563042994240857116359379907606001950938285454250989nat
}

/// The integer that a byte string encodes, least significant byte first.
pub open spec fn le_value(bytes: Seq<u8>) -> nat
    decreases bytes.len(),
{
    if bytes.len() == 0 {
        0
    } else {
        bytes[0] as nat + 256 * le_value(bytes.drop_first())
    }
}

/// `w` is the inverse of `a` among the scalars.
pub open spec fn is_inverse(w: nat, a: nat) -> bool {
    w < group_order() && (w * a) % group_order() == 1
}

/// `a` has an inverse among the scalars. The order of the group is prime,
/// so these are the scalars other than zero; `Scalar::invert` finds the
/// inverse of each of them.
pub open spec fn is_invertible(a: nat) -> bool {
    exists|w: nat| is_inverse(w, a)
}

/// The inverse of `a` among the scalars, and zero where `a` has none.
pub open spec fn scalar_inverse(a: nat) -> nat {
    if is_invertible(a) {
        choose|w: nat| is_inverse(w, a)
    } else {
        0
    }
}

/// Two byte strings of one length that encode the same integer are equal.
pub proof fn lemma_le_value_injective(a: Seq<u8>, b: Seq<u8>)
    requires
        a.len() == b.len(),
        le_value(a) == le_value(b),
    ensures
        a == b,
    decreases a.len(),
{
    if a.len() > 0 {
        let x = le_value(a.drop_first());
        let y = le_value(b.drop_first());
        assert(a[0] as nat + 256 * x == b[0] as nat + 256 * y);
        assert(x == y);
        lemma_le_value_injective(a.drop_first(), b.drop_first());
        assert(a =~= seq![a[0]] + a.drop_first());
        assert(b =~= seq![b[0]] + b.drop_first());
    }
    assert(a =~= b);
}

/// A scalar has at most one inverse.
pub proof fn lemma_inverse_unique(w1: nat, w2: nat, a: nat)
    requires
        is_inverse(w1, a),
        is_inverse(w2, a),
    ensures
        w1 == w2,
{
    let l = group_order() as int;
    let (x, y, z) = (w1 as int, w2 as int, a as int);
    // x = x * (z * y) = (x * z) * y = y, all modulo the order
    vstd::arithmetic::div_mod::lemma_mul_mod_noop_general(x, y * z, l);
    vstd::arithmetic::div_mod::lemma_mul_mod_noop_general(x * z, y, l);
    assert(x * (y * z) == (x * z) * y) by (nonlinear_arith);
    assert((x * 1) % l == (1 * y) % l);
    vstd::arithmetic::div_mod::lemma_small_mod(w1, group_order());
    vstd::arithmetic::div_mod::lemma_small_mod(w2, group_order());
}

/// A canonical `w` that inverts `a`, or is zero with `a`, is
/// `scalar_inverse(a)`.
pub proof fn lemma_scalar_inverse_is(w: nat, a: nat)
    requires
        w < group_order(),
        a < group_order(),
        a != 0 ==> (w * a) % group_order() == 1,
        a == 0 ==> w == 0,
    ensures
        w == scalar_inverse(a),
        a != 0 ==> is_invertible(a),
{
    if a != 0 {
        assert(is_inverse(w, a));
        lemma_inverse_unique(w, scalar_inverse(a), a);
    } else {
        assert forall|x: nat| !is_inverse(x, 0) by {
            assert(x * 0 == 0) by (nonlinear_arith);
        }
    }
}

/// `curve25519_dalek::scalar::Scalar::from_canonical_bytes` accepts a
/// buffer exactly when the integer it encodes, least significant byte
/// first, is below the order of the group.
#[verifier::external_body]
fn dalek_is_canonical(bytes: &[u8; 32]) -> (ok: bool)
    ensures
        ok == (le_value(bytes@) < group_order()),
{
    curve25519_dalek::scalar::Scalar::from_canonical_bytes(*bytes).is_some()
}

/// `curve25519_dalek::scalar::Scalar::from_bytes_mod_order` reduces the
/// 256-bit integer in the buffer modulo the order of the group; the result
/// is handed back as its canonical encoding.
#[verifier::external_body]
fn dalek_reduce(bytes: &[u8; 32]) -> (out: [u8; 32])
    ensures
        le_value(out@) == le_value(bytes@) % group_order(),
{
    curve25519_dalek::scalar::Scalar::from_bytes_mod_order(*bytes).to_bytes()
}

/// The product of two `curve25519_dalek::scalar::Scalar`s (their `Mul`) is
/// the product of the two integers modulo the order of the group. Both
/// buffers hold canonical encodings, and so does the result.
#[verifier::external_body]
fn dalek_mul(a: &[u8; 32], b: &[u8; 32]) -> (out: [u8; 32])
    requires
        le_value(a@) < group_order(),
        le_value(b@) < group_order(),
    ensures
        le_value(out@) == (le_value(a@) * le_value(b@)) % group_order(),
{
    let x = curve25519_dalek::scalar::Scalar::from_bits(*a);
    let y = curve25519_dalek::scalar::Scalar::from_bits(*b);
    (x * y).to_bytes()
}

/// The sum of two `curve25519_dalek::scalar::Scalar`s (their `Add`) is the
/// sum of the two integers modulo the order of the group. Both buffers hold
/// canonical encodings, and so does the result.
#[verifier::external_body]
fn dalek_add(a: &[u8; 32], b: &[u8; 32]) -> (out: [u8; 32])
    requires
        le_value(a@) < group_order(),
        le_value(b@) < group_order(),
    ensures
        le_value(out@) == (le_value(a@) + le_value(b@)) % group_order(),
{
    let x = curve25519_dalek::scalar::Scalar::from_bits(*a);
    let y = curve25519_dalek::scalar::Scalar::from_bits(*b);
    (x + y).to_bytes()
}

/// `curve25519_dalek::scalar::Scalar::invert` raises its argument to the
/// power ℓ - 2 by a fixed chain of multiplications: for a scalar other than
/// zero this is its multiplicative inverse, and zero stays zero. The result
/// is canonical.
#[verifier::external_body]
fn dalek_invert(a: &[u8; 32]) -> (out: [u8; 32])
    requires
        le_value(a@) < group_order(),
    ensures
        le_value(out@) < group_order(),
        le_value(a@) != 0 ==> (le_value(out@) * le_value(a@)) % group_order() == 1,
        le_value(a@) == 0 ==> le_value(out@) == 0,
{
    curve25519_dalek::scalar::Scalar::from_bits(*a).invert().to_bytes()
}

/// Asks `rand::rngs::OsRng`, through `rand::RngCore::try_fill_bytes`, for 32
/// bytes of the operating system's randomness. Nothing is known of the
/// bytes; there are none where the source fails.
#[verifier::external_body]
fn os_random_bytes() -> (bytes: Option<[u8; 32]>) {
    let mut buffer = [0u8; 32];
    match rand::RngCore::try_fill_bytes(&mut rand::rngs::OsRng, &mut buffer) {
        Ok(()) => Some(buffer),
        Err(_) => None,
    }
}

/// An integer modulo the order of the group, held as its canonical 32-byte
/// encoding. Its view is the integer.
#[derive(Clone, Copy, Debug)]
pub struct Scalar {
    bytes: [u8; 32],
}

impl View for Scalar {
    type V = nat;

    closed spec fn view(&self) -> nat {
        le_value(self.bytes@)
    }
}

impl Scalar {
    #[verifier::type_invariant]
    closed spec fn is_reduced(&self) -> bool {
        le_value(self.bytes@) < group_order()
    }

    /// The scalar that `bytes` encodes, if `bytes` is canonical: the
    /// integer it holds, least significant byte first, is below the order.
    /// Nothing is reduced silently.
    pub fn from_canonical_bytes(bytes: [u8; 32]) -> (decoded: Option<Scalar>)
        ensures
            decoded is Some <==> le_value(bytes@) < group_order(),
            decoded matches Some(s) ==> s@ == le_value(bytes@),
    {
        if dalek_is_canonical(&bytes) {
            Some(Scalar { bytes })
        } else {
            None
        }
    }

    /// The scalar that the 256-bit integer in `bytes` reduces to.
    pub fn from_bytes_mod_order(bytes: [u8; 32]) -> (s: Scalar)
        ensures
            s@ == le_value(bytes@) % group_order(),
            s@ < group_order(),
    {
        let reduced = dalek_reduce(&bytes);
        proof {
            vstd::arithmetic::div_mod::lemma_mod_bound(
                le_value(bytes@) as int,
                group_order() as int,
            );
        }
        Scalar { bytes: reduced }
    }

    /// A scalar drawn from the secure random source: 256 random bits,
    /// reduced modulo the order.
    pub fn random() -> (drawn: Result<Scalar>)
        ensures
            drawn matches Ok(s) ==> s@ < group_order(),
            drawn matches Err(e) ==> e == Error::RngInitFailed,
    {
        match os_random_bytes() {
            Some(bytes) => Ok(Scalar::from_bytes_mod_order(bytes)),
            None => Err(Error::RngInitFailed),
        }
    }

    /// The canonical encoding of the scalar.
    pub fn to_bytes(&self) -> (bytes: [u8; 32])
        ensures
            le_value(bytes@) == self@,
            self@ < group_order(),
    {
        proof {
            use_type_invariant(self);
        }
        self.bytes
    }

    /// The product of two scalars.
    pub fn mul(&self, rhs: &Scalar) -> (product: Scalar)
        ensures
            product@ == (self@ * rhs@) % group_order(),
            product@ < group_order(),
    {
        proof {
            use_type_invariant(self);
            use_type_invariant(rhs);
            assert(0 <= self@ * rhs@) by (nonlinear_arith);
            vstd::arithmetic::div_mod::lemma_mod_bound(
                (self@ * rhs@) as int,
                group_order() as int,
            );
        }
        Scalar { bytes: dalek_mul(&self.bytes, &rhs.bytes) }
    }

    /// The sum of two scalars.
    pub fn add(&self, rhs: &Scalar) -> (sum: Scalar)
        ensures
            sum@ == (self@ + rhs@) % group_order(),
            sum@ < group_order(),
    {
        proof {
            use_type_invariant(self);
            use_type_invariant(rhs);
            vstd::arithmetic::div_mod::lemma_mod_bound(
                (self@ + rhs@) as int,
                group_order() as int,
            );
        }
        Scalar { bytes: dalek_add(&self.bytes, &rhs.bytes) }
    }

    /// The inverse of the scalar; zero has none and gives zero.
    pub fn invert(&self) -> (inverse: Scalar)
        ensures
            inverse@ == scalar_inverse(self@),
            inverse@ < group_order(),
            self@ != 0 ==> is_inverse(inverse@, self@),
    {
        proof {
            use_type_invariant(self);
        }
        let inverse = Scalar { bytes: dalek_invert(&self.bytes) };
        proof {
            lemma_scalar_inverse_is(inverse@, self@);
        }
        inverse
    }
}

} // verus!
