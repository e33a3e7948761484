//! Threshold secret sharing over GF(2^8) (Shamir's scheme), with an optional
//! Merkle one-time signature on every share and a versioned envelope format.
//!
//! A secret byte string is split into `n` shares such that any `k` of them
//! recover it exactly. Shares travel as text lines `K-ID-BASE64(payload)`.

pub mod encode;
pub mod errors;
pub mod gf256;
pub mod gf256_laws;
pub mod lagrange;
pub mod poly;
pub mod share;
pub mod sss;
pub mod validation;
pub mod wire;
pub mod wrapped_secrets;
