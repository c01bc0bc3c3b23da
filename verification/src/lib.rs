//! Schnorr-style blind signatures over the Ristretto group.
//!
//! A signer holding a long-term secret key signs a message it never sees;
//! the client who knows the message unblinds the answer into an ordinary
//! Schnorr signature. The crate moves no bytes itself: callers carry the
//! three 32-byte wire values between the two sessions.
//!
//! ```text
//! signer                                   client
//! k random, R' = k·B        -- R' -->      u, v random, R = u·R' + v·B
//!                                          e = H(R ‖ m), e' = u⁻¹·e
//! s' = xs·e' + k            <-- e' --
//!                           -- s' -->      s = s'·u + v
//!                                          signature (e, s, R)
//! ```
//!
//! Anyone who knows the public key `X = xs·B` accepts the signature when
//! `s·B = R + e·X`.
//!
//! The contracts are stated over the integers modulo the order ℓ of the
//! group (`scalar`), over the multiples of the base point that the group
//! elements are (`ristretto`), and over the algebra of the exchange
//! (`protocol`), where the laws of the scheme are proved. The arithmetic of
//! scalars and group elements is that of `curve25519_dalek`.

use vstd::prelude::*;

pub mod challenge;
pub mod client;
pub mod error;
pub mod protocol;
pub mod ristretto;
pub mod scalar;
pub mod signature;
pub mod signer;

pub use crate::error::Error;
pub use crate::challenge::WideHash;
pub use crate::client::BlindClient;
pub use crate::ristretto::RistrettoPoint;
pub use crate::scalar::Scalar;
pub use crate::signature::UnblindedSigData;
pub use crate::signer::BlindSigner;

verus! {

/// The result type of the fallible operations of this crate.
pub type Result<T> = core::result::Result<T, Error>;

} // verus!
