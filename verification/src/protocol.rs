//! The algebra of the exchange, over the integers that the scalars stand
//! for, and the laws that it obeys.
//!
//! A group element is spoken of through its multiplier: `k` stands for
//! `k·B`, and the sum of two elements for the sum of their multipliers
//! modulo ℓ.

use vstd::prelude::*;
use vstd::arithmetic::div_mod::{
    lemma_add_mod_noop,
    lemma_mod_bound,
    lemma_mod_twice,
    lemma_mul_mod_noop_general,
    lemma_small_mod,
    lemma_sub_mod_noop,
};
use crate::scalar::{group_order, is_inverse, is_invertible, lemma_inverse_unique, scalar_inverse};

verus! {

/// The multiplier of the blinded commitment `R = u·R' + v·B`, where the
/// signer's commitment is `R' = k·B`.
pub open spec fn blinded_commitment(u: nat, v: nat, k: nat) -> nat {
    (u * k + v) % group_order()
}

/// The blinded challenge `e' = u⁻¹·e` that the client sends.
pub open spec fn blinded_challenge(u: nat, e: nat) -> nat {
    (scalar_inverse(u) * e) % group_order()
}

/// The blinded signature `s' = xs·e' + k` that the signer answers with.
pub open spec fn blind_signature(xs: nat, ep: nat, k: nat) -> nat {
    (xs * ep + k) % group_order()
}

/// The signature scalar `s = s'·u + v` that the client recovers.
pub open spec fn unblinded_signature(sp: nat, u: nat, v: nat) -> nat {
    (sp * u + v) % group_order()
}

/// The Schnorr equation `s·B = R + e·X` for `R = r·B` and the public key
/// `X = x·B`, read on the multipliers.
pub open spec fn verifies(s: nat, r: nat, e: nat, x: nat) -> bool {
    s % group_order() == (r + e * x) % group_order()
}

proof fn lemma_congruent_products(a: int, b: int, c: int, d: int, m: int)
    requires
        m > 0,
        a % m == b % m,
        c % m == d % m,
    ensures
        (a * c) % m == (b * d) % m,
{
    lemma_mul_mod_noop_general(a, c, m);
    lemma_mul_mod_noop_general(b, d, m);
}

proof fn lemma_congruent_sums(a: int, b: int, c: int, d: int, m: int)
    requires
        m > 0,
        a % m == b % m,
        c % m == d % m,
    ensures
        (a + c) % m == (b + d) % m,
{
    lemma_add_mod_noop(a, c, m);
    lemma_add_mod_noop(b, d, m);
}

proof fn lemma_congruent_differences(a: int, b: int, c: int, d: int, m: int)
    requires
        m > 0,
        a % m == b % m,
        c % m == d % m,
    ensures
        (a - c) % m == (b - d) % m,
{
    lemma_sub_mod_noop(a, c, m);
    lemma_sub_mod_noop(b, d, m);
}

/// The blinding factors `u` and `v` turn the session that the signer saw,
/// with nonce `k` and blinded challenge `ep` under the key `xs`, into the
/// signature `(e, s, R)` with `R = r·B`.
pub open spec fn links(u: nat, v: nat, xs: nat, k: nat, ep: nat, e: nat, s: nat, r: nat) -> bool {
    &&& u < group_order()
    &&& v < group_order()
    &&& is_invertible(u)
    &&& blinded_challenge(u, e) == ep
    &&& unblinded_signature(blind_signature(xs, ep, k), u, v) == s
    &&& blinded_commitment(u, v, k) == r
}

/// Blinding by an invertible `u` is undone by `u`: `u·e' = e`.
pub proof fn lemma_blinding_undone(u: nat, e: nat)
    requires
        is_invertible(u),
    ensures
        (blinded_challenge(u, e) * u) % group_order() == e % group_order(),
{
    let m = group_order() as int;
    let w = scalar_inverse(u) as int;
    let (u, e) = (u as int, e as int);
    assert(is_inverse(w as nat, u as nat));
    lemma_mod_twice(w * e, m);
    lemma_congruent_products((w * e) % m, w * e, u, u, m);
    assert((w * e) * u == e * (w * u)) by (nonlinear_arith);
    lemma_small_mod(1, m as nat);
    lemma_congruent_products(e, e, w * u, 1, m);
}

/// An honest exchange ends in a signature that verifies: whatever the
/// secret key `xs`, the nonce `k`, the blinding factors `u` and `v` and the
/// challenge `e`, the scalar that the client recovers from the signer's
/// answer satisfies `s·B = R + e·(xs·B)`. The factor `u` has to be
/// invertible.
pub proof fn lemma_honest_signature_verifies(xs: nat, k: nat, u: nat, v: nat, e: nat)
    requires
        is_invertible(u),
    ensures
        verifies(
            unblinded_signature(blind_signature(xs, blinded_challenge(u, e), k), u, v),
            blinded_commitment(u, v, k),
            e,
            xs,
        ),
{
    let m = group_order() as int;
    let ep = blinded_challenge(u, e) as int;
    let sp = blind_signature(xs, ep as nat, k) as int;
    let s = unblinded_signature(sp as nat, u, v) as int;
    let r = blinded_commitment(u, v, k) as int;
    let (xs, k, u, v, e) = (xs as int, k as int, u as int, v as int, e as int);

    // e'·u = e
    lemma_blinding_undone(u as nat, e as nat);
    // s'·u = xs·e + k·u
    lemma_mod_twice(xs * ep + k, m);
    lemma_congruent_products(sp, xs * ep + k, u, u, m);
    assert((xs * ep + k) * u == xs * (ep * u) + k * u) by (nonlinear_arith);
    lemma_congruent_products(xs, xs, ep * u, e, m);
    lemma_congruent_sums(xs * (ep * u), xs * e, k * u, k * u, m);
    // s = xs·e + k·u + v
    lemma_mod_twice(sp * u + v, m);
    lemma_congruent_sums(sp * u, xs * e + k * u, v, v, m);
    // R + e·X = u·k + v + e·xs
    lemma_mod_twice(u * k + v, m);
    lemma_congruent_sums(r, u * k + v, e * xs, e * xs, m);
    assert(xs * e + k * u + v == u * k + v + e * xs) by (nonlinear_arith);
}

/// Every session of the signer fits every signature. Take a session with
/// any nonce `k` and an invertible blinded challenge `ep`, and a signature
/// `(e, s, R)` with an invertible challenge that verifies under the
/// signer's key: there are blinding factors `u` and `v` that lead from the
/// one to the other.
pub proof fn lemma_every_session_fits_every_signature(
    xs: nat,
    k: nat,
    ep: nat,
    e: nat,
    s: nat,
    r: nat,
)
    requires
        ep < group_order(),
        s < group_order(),
        r < group_order(),
        is_invertible(ep),
        is_invertible(e),
        verifies(s, r, e, xs),
    ensures
        exists|u: nat, v: nat| links(u, v, xs, k, ep, e, s, r),
{
    let m = group_order() as int;
    let we = scalar_inverse(e) as int;
    let wp = scalar_inverse(ep) as int;
    assert(is_inverse(we as nat, e));
    assert(is_inverse(wp as nat, ep));
    let sp = blind_signature(xs, ep, k) as int;
    let (xs_, k_, ep_, e_, s_, r_) = (xs as int, k as int, ep as int, e as int, s as int, r as int);
    lemma_small_mod(1, m as nat);
    lemma_small_mod(ep, m as nat);
    lemma_small_mod(s, m as nat);
    lemma_small_mod(r, m as nat);

    // u = e / e', with inverse e' / e
    assert(0 <= e_ * wp) by (nonlinear_arith)
        requires
            0 <= e_,
            0 <= wp,
    ;
    assert(0 <= ep_ * we) by (nonlinear_arith)
        requires
            0 <= ep_,
            0 <= we,
    ;
    lemma_mod_bound(e_ * wp, m);
    lemma_mod_bound(ep_ * we, m);
    let u = (e_ * wp) % m;
    let w = (ep_ * we) % m;
    lemma_mod_twice(e_ * wp, m);
    lemma_mod_twice(ep_ * we, m);
    lemma_congruent_products(w, ep_ * we, u, e_ * wp, m);
    assert((ep_ * we) * (e_ * wp) == (we * e_) * (wp * ep_)) by (nonlinear_arith);
    lemma_congruent_products(we * e_, 1, wp * ep_, 1, m);
    assert(is_inverse(w as nat, u as nat));
    lemma_inverse_unique(w as nat, scalar_inverse(u as nat), u as nat);

    // u⁻¹·e = e'
    lemma_congruent_products(w, ep_ * we, e_, e_, m);
    assert((ep_ * we) * e_ == ep_ * (we * e_)) by (nonlinear_arith);
    lemma_congruent_products(ep_, ep_, we * e_, 1, m);

    // e'·u = e
    lemma_congruent_products(ep_, ep_, u, e_ * wp, m);
    assert(ep_ * (e_ * wp) == e_ * (wp * ep_)) by (nonlinear_arith);
    lemma_congruent_products(e_, e_, wp * ep_, 1, m);

    // v = s - s'·u
    lemma_mod_bound(s_ - sp * u, m);
    let v = (s_ - sp * u) % m;
    lemma_mod_twice(s_ - sp * u, m);
    lemma_congruent_sums(sp * u, sp * u, v, s_ - sp * u, m);

    // s'·u = xs·e + k·u, so u·k + v = s - xs·e = r
    lemma_mod_twice(xs_ * ep_ + k_, m);
    lemma_congruent_products(sp, xs_ * ep_ + k_, u, u, m);
    assert((xs_ * ep_ + k_) * u == xs_ * (ep_ * u) + k_ * u) by (nonlinear_arith);
    lemma_congruent_products(xs_, xs_, ep_ * u, e_, m);
    lemma_congruent_sums(xs_ * (ep_ * u), xs_ * e_, k_ * u, k_ * u, m);
    lemma_congruent_differences(s_, r_ + e_ * xs_, sp * u, xs_ * e_ + k_ * u, m);
    lemma_congruent_sums(u * k_, u * k_, v, s_ - sp * u, m);
    lemma_congruent_sums(
        u * k_,
        u * k_,
        s_ - sp * u,
        (r_ + e_ * xs_) - (xs_ * e_ + k_ * u),
        m,
    );
    assert(u * k_ + ((r_ + e_ * xs_) - (xs_ * e_ + k_ * u)) == r_) by (nonlinear_arith);

    assert(links(u as nat, v as nat, xs, k, ep, e, s, r));
}

} // verus!
